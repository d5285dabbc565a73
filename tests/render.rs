use ion::blueprint::{Blueprint, BlueprintKind, FileBlueprint, Readme};
use ion::context::Context;
use ion::expand::RenderError;
use ion::template::Template;
use ion::template_file::{SourceFile, TemplateFile};

fn file(name: &str, text: &str, out: &str) -> Blueprint {
    Blueprint {
        name: name.to_string(),
        kind: BlueprintKind::File(FileBlueprint {
            template: TemplateFile::inline(text),
            output: out.to_string(),
        }),
    }
}

fn template(blueprints: Vec<Blueprint>) -> Template {
    Template {
        name: "t".to_string(),
        registry: "r".to_string(),
        version: "1".to_string(),
        blueprints,
        files: vec![],
    }
}

fn filled() -> Context {
    let mut ctx = Context::new();
    ctx.project.name = Some("demo".to_string());
    ctx.project.description = Some("a demo".to_string());
    ctx.seal();
    ctx
}

#[test]
fn render_twice_is_identical() {
    let t = template(vec![
        file("a", "{{project.name}}", "a.txt"),
        file("b", "{{project.description}}!", "b/b.txt"),
    ]);
    let ctx = filled();
    let r1 = t.render(&ctx);
    let r2 = t.render(&ctx);
    let v1: Vec<(String, String)> = r1.outputs.into_iter().map(|o| (o.path, o.contents)).collect();
    let v2: Vec<(String, String)> = r2.outputs.into_iter().map(|o| (o.path, o.contents)).collect();
    assert_eq!(v1, v2);
    assert_eq!(
        v1,
        vec![("a.txt".to_string(), "demo".to_string()), ("b/b.txt".to_string(), "a demo!".to_string())]
    );
}

#[test]
fn render_needs_no_prompting() {
    // the context is filled beforehand; rendering asks nothing
    let mut t = template(vec![]);
    t.blueprints.push(Blueprint {
        name: "readme".to_string(),
        kind: BlueprintKind::Readme(Readme::from_declaration(Some(TemplateFile::inline("{{project.description}}")), None)),
    });
    let report = t.render(&filled());
    assert!(report.failure.is_none());
    assert_eq!(report.outputs[0].path, "README.md");
    assert_eq!(report.outputs[0].contents, "a demo");
}

#[test]
fn third_of_five_fails() {
    let t = template(vec![
        file("one", "1", "one.txt"),
        file("two", "2", "two.txt"),
        file("three", "{{missing}}", "three.txt"),
        file("four", "4", "four.txt"),
        file("five", "5", "five.txt"),
    ]);
    let report = t.render(&filled());
    let paths: Vec<String> = report.outputs.iter().map(|o| o.path.clone()).collect();
    assert_eq!(paths, vec!["one.txt".to_string(), "two.txt".to_string()]);
    let f = report.failure.expect("a failure");
    assert_eq!(f.index, 2);
    assert_eq!(f.blueprint, "three");
    assert!(matches!(f.error, RenderError::UnresolvedReference(ref k) if k == "missing"));
}

#[test]
fn escaping_output_path_is_rejected() {
    let t = template(vec![file("ok", "fine", "ok.txt"), file("evil", "x", "../../etc/x")]);
    let report = t.render(&filled());
    assert_eq!(report.outputs.len(), 1);
    let f = report.failure.expect("a failure");
    assert_eq!(f.blueprint, "evil");
    assert!(matches!(f.error, RenderError::UnsafePath(ref p) if p == "../../etc/x"));
}

#[test]
fn unsafe_path_checked_before_source() {
    let tf = TemplateFile::from_str("./missing.hbs");
    let r = tf.render(&vec![], &filled(), "/abs");
    assert!(matches!(r, Err(RenderError::UnsafePath(_))));
    let r = tf.render(&vec![], &filled(), "ok");
    assert!(matches!(r, Err(RenderError::MissingSource(ref p)) if p == "./missing.hbs"));
}

#[test]
fn path_source_is_read_from_template_files() {
    let tf = TemplateFile::from_str("src/main.hbs");
    let files = vec![SourceFile { path: "src/main.hbs".to_string(), text: "hi {{project.name}}".to_string() }];
    let out = tf.render(&files, &filled(), "main.txt").unwrap();
    assert_eq!(out.contents, "hi demo");
}

#[test]
fn blueprint_names_in_order() {
    let t = template(vec![file("x", "", "x"), file("y", "", "y")]);
    assert_eq!(t.blueprint_names(), vec!["x".to_string(), "y".to_string()]);
}

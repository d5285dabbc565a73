use ion::blueprint::{Badge, BadgeBlueprint, Blueprint, BlueprintKind, FileBlueprint, Readme};
use ion::context::Context;
use ion::template::Template;
use ion::template_file::{SourceFile, TemplateFile, TemplateSource};

fn badge() -> Badge {
    Badge {
        hover: "CI".to_string(),
        image: "https://img/ci.svg".to_string(),
        link: "https://ci".to_string(),
    }
}

const MARKUP: &str = "[![CI](https://img/ci.svg)](https://ci)";

fn template_with(readme: Readme) -> Template {
    Template {
        name: "basic".to_string(),
        registry: "main".to_string(),
        version: "1".to_string(),
        blueprints: vec![
            Blueprint { name: "readme".to_string(), kind: BlueprintKind::Readme(readme) },
            Blueprint {
                name: "badge".to_string(),
                kind: BlueprintKind::Badge(BadgeBlueprint {
                    badge: badge(),
                    key: "badges".to_string(),
                    target: "BADGES.md".to_string(),
                }),
            },
        ],
        files: vec![SourceFile {
            path: "./README.md.hbs".to_string(),
            text: "# {{project.name}}\n{{badges}}\n".to_string(),
        }],
    }
}

fn run(t: &Template) -> Vec<(String, String)> {
    let mut ctx = Context::new();
    ctx.project.name = Some("demo".to_string());
    ctx.project.description = Some("given".to_string());
    for b in &t.blueprints {
        assert!(b.question(&ctx).is_none());
        b.prompt(&mut ctx, None);
    }
    ctx.seal();
    let report = t.render(&ctx);
    assert!(report.failure.is_none());
    report.outputs.into_iter().map(|o| (o.path, o.contents)).collect()
}

#[test]
fn badge_render_markup() {
    assert_eq!(badge().render(), MARKUP);
    let empty = Badge { hover: String::new(), image: String::new(), link: String::new() };
    assert_eq!(empty.render(), "[![]()]()");
}

#[test]
fn readme_defaults() {
    match Readme::default_template().source {
        TemplateSource::Path(p) => assert_eq!(p, "./README.md.hbs"),
        _ => panic!("expected a path"),
    }
    assert!(Readme::default_inline_badge());
}

#[test]
fn inline_badge_goes_into_readme() {
    let t = template_with(Readme::from_declaration(None, Some(true)));
    let out = run(&t);
    assert_eq!(out, vec![("README.md".to_string(), format!("# demo\n{}\n", MARKUP))]);
}

#[test]
fn separate_badge_file_when_not_inlined() {
    let t = template_with(Readme::from_declaration(None, Some(false)));
    let out = run(&t);
    assert_eq!(
        out,
        vec![
            ("README.md".to_string(), "# demo\n\n".to_string()),
            ("BADGES.md".to_string(), MARKUP.to_string()),
        ]
    );
}

#[test]
fn omitted_inline_badge_is_true() {
    let omitted = Readme::from_declaration(None, None);
    assert!(omitted.inline_badge);
    let a = run(&template_with(Readme::from_declaration(None, None)));
    let b = run(&template_with(Readme::from_declaration(None, Some(true))));
    assert_eq!(a, b);
}

#[test]
fn declared_template_is_kept() {
    let r = Readme::from_declaration(Some(TemplateFile::inline("hi")), None);
    match r.template.source {
        TemplateSource::Inline(t) => assert_eq!(t, "hi"),
        _ => panic!("expected inline text"),
    }
}

#[test]
fn readme_prompt_stores_description() {
    let readme = Readme::from_declaration(None, None);
    let mut ctx = Context::new();
    assert_eq!(readme.question(&ctx), Some("description of the project".to_string()));
    readme.prompt(&mut ctx, Some("A tool".to_string()));
    assert_eq!(ctx.project.description, Some("A tool".to_string()));
    assert_eq!(readme.question(&ctx), None);
    assert_eq!(ctx.get("readme.inline_badge"), Some("true".to_string()));
}

#[test]
fn readme_prompt_decline_leaves_unset() {
    let readme = Readme::from_declaration(None, Some(false));
    let mut ctx = Context::new();
    readme.prompt(&mut ctx, Some(String::new()));
    assert_eq!(ctx.project.description, None);
    readme.prompt(&mut ctx, None);
    assert_eq!(ctx.project.description, None);
    assert_eq!(ctx.get("readme.inline_badge"), Some("false".to_string()));
}

#[test]
fn readme_prompt_keeps_prefilled_description() {
    let readme = Readme::from_declaration(None, None);
    let mut ctx = Context::new();
    ctx.project.description = Some("given".to_string());
    readme.prompt(&mut ctx, Some("other".to_string()));
    assert_eq!(ctx.project.description, Some("given".to_string()));
}

#[test]
fn file_blueprint_output_path() {
    let b = Blueprint {
        name: "license".to_string(),
        kind: BlueprintKind::File(FileBlueprint {
            template: TemplateFile::inline("MIT {{project.author}}"),
            output: "LICENSE".to_string(),
        }),
    };
    assert_eq!(b.output_path(), "LICENSE");
    let mut ctx = Context::new();
    ctx.project.author = Some("Ada".to_string());
    let out = b.render(&vec![], &ctx).unwrap();
    assert_eq!(out.len(), 1);
    assert_eq!(out[0].contents, "MIT Ada");
}

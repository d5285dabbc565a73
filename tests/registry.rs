use ion::blueprint::{Blueprint, BlueprintKind, FileBlueprint};
use ion::registry::{download_decision, Decision, RegistryError, RemoteTemplate};
use ion::template::Template;
use ion::template_file::{TemplateFile, TemplateSource};

fn file(name: &str, text: &str) -> Blueprint {
    Blueprint {
        name: name.to_string(),
        kind: BlueprintKind::File(FileBlueprint {
            template: TemplateFile::inline(text),
            output: format!("{}.txt", name),
        }),
    }
}

fn tmpl(name: &str, registry: &str, bps: Vec<Blueprint>) -> Template {
    Template {
        name: name.to_string(),
        registry: registry.to_string(),
        version: "1".to_string(),
        blueprints: bps,
        files: vec![],
    }
}

fn inline_text(b: &Blueprint) -> String {
    match &b.kind {
        BlueprintKind::File(f) => match &f.template.source {
            TemplateSource::Inline(t) => t.clone(),
            TemplateSource::Path(p) => p.clone(),
        },
        _ => String::new(),
    }
}

fn two_registries() -> RemoteTemplate {
    let mut rt = RemoteTemplate::new();
    rt.add("low".to_string(), "https://low".to_string(), true).unwrap();
    rt.add("high".to_string(), "https://high".to_string(), true).unwrap();
    let low = tmpl("pkg", "low", vec![file("a", "low-a"), file("shared", "low-shared")]);
    let high = tmpl("pkg", "high", vec![file("shared", "high-shared"), file("b", "high-b")]);
    rt.update(&"low".to_string(), Some(vec![low]), 10).unwrap();
    rt.update(&"high".to_string(), Some(vec![high]), 11).unwrap();
    rt
}

#[test]
fn add_duplicate_and_unreachable() {
    let mut rt = RemoteTemplate::new();
    assert!(rt.add("main".to_string(), "https://x".to_string(), true).is_ok());
    assert!(matches!(
        rt.add("main".to_string(), "https://y".to_string(), true),
        Err(RegistryError::Duplicate(_))
    ));
    assert!(matches!(
        rt.add("other".to_string(), "https://x".to_string(), true),
        Err(RegistryError::Duplicate(_))
    ));
    assert!(matches!(
        rt.add("other".to_string(), "https://z".to_string(), false),
        Err(RegistryError::Unreachable(_))
    ));
    assert_eq!(rt.registries.len(), 1);
}

#[test]
fn override_merge_by_blueprint() {
    let rt = two_registries();
    let t = rt.resolve(&"pkg".to_string()).expect("resolved");
    let names: Vec<String> = t.blueprints.iter().map(|b| b.name.clone()).collect();
    assert_eq!(names, vec!["a", "shared", "b"]);
    assert_eq!(inline_text(&t.blueprints[0]), "low-a");
    assert_eq!(inline_text(&t.blueprints[1]), "high-shared");
    assert_eq!(inline_text(&t.blueprints[2]), "high-b");
    assert_eq!(t.registry, "high");
}

#[test]
fn resolve_missing_is_none() {
    let rt = two_registries();
    assert!(rt.resolve(&"nothing".to_string()).is_none());
    assert!(!rt.has_template(&"nothing".to_string()));
    assert!(rt.has_template(&"pkg".to_string()));
}

#[test]
fn remove_keeps_other_registries_templates() {
    let mut rt = two_registries();
    rt.remove(&"high".to_string()).unwrap();
    let t = rt.resolve(&"pkg".to_string()).expect("still there");
    assert_eq!(inline_text(&t.blueprints[1]), "low-shared");
    assert!(matches!(rt.remove(&"high".to_string()), Err(RegistryError::NotFound(_))));
}

#[test]
fn failed_update_keeps_stale_templates() {
    let mut rt = two_registries();
    assert!(matches!(
        rt.update(&"low".to_string(), None, 20),
        Err(RegistryError::FetchFailed(_))
    ));
    assert_eq!(rt.registries[0].templates.len(), 1);
    assert_eq!(rt.registries[0].last_update, Some(10));
    assert!(matches!(
        rt.update(&"nope".to_string(), Some(vec![]), 20),
        Err(RegistryError::NotFound(_))
    ));
}

#[test]
fn status_reports_each_registry() {
    let rt = two_registries();
    let st = rt.status();
    assert_eq!(st.len(), 2);
    assert_eq!(st[0].name, "low");
    assert_eq!(st[1].locator, "https://high");
    assert_eq!(st[1].last_update, Some(11));
}

#[test]
fn download_only_when_missing_and_confirmed() {
    assert_eq!(download_decision(false, true), Decision::Proceed);
    assert_eq!(download_decision(false, false), Decision::Decline);
    assert_eq!(download_decision(true, true), Decision::Decline);
}

use ion::context::Context;
use ion::expand::{expand, RenderError};
use ion::template_file::is_safe_path;

#[test]
fn get_absent_key_is_none() {
    let ctx = Context::new();
    assert_eq!(ctx.get("missing"), None);
}

#[test]
fn set_then_get_and_replace() {
    let mut ctx = Context::new();
    ctx.set("a".to_string(), "1".to_string());
    ctx.set("b".to_string(), "2".to_string());
    ctx.set("a".to_string(), "3".to_string());
    assert_eq!(ctx.get("a"), Some("3".to_string()));
    assert_eq!(ctx.get("b"), Some("2".to_string()));
    assert_eq!(ctx.vars.len(), 2);
}

#[test]
fn seal_keeps_values() {
    let mut ctx = Context::new();
    ctx.set("a".to_string(), "1".to_string());
    ctx.seal();
    assert!(ctx.sealed);
    assert_eq!(ctx.get("a"), Some("1".to_string()));
}

#[test]
fn lookup_project_fields() {
    let mut ctx = Context::new();
    ctx.project.name = Some("demo".to_string());
    ctx.set("project.name".to_string(), "shadowed".to_string());
    assert_eq!(ctx.lookup(&"project.name".to_string()), Some("demo".to_string()));
    assert_eq!(ctx.lookup(&"project.author".to_string()), None);
}

#[test]
fn expand_replaces_references() {
    let mut ctx = Context::new();
    ctx.project.name = Some("demo".to_string());
    ctx.set("badges".to_string(), "[b]".to_string());
    let r = expand("# {{project.name}}\n{{badges}} ok", &ctx).unwrap();
    assert_eq!(r, "# demo\n[b] ok");
}

#[test]
fn expand_plain_text_and_single_braces() {
    let ctx = Context::new();
    assert_eq!(expand("a {b} }} c", &ctx).unwrap(), "a {b} }} c");
    assert_eq!(expand("", &ctx).unwrap(), "");
}

#[test]
fn expand_unresolved_reference() {
    let ctx = Context::new();
    match expand("x {{nope}} y", &ctx) {
        Err(RenderError::UnresolvedReference(k)) => assert_eq!(k, "nope"),
        _ => panic!("expected an unresolved reference"),
    }
}

#[test]
fn expand_unterminated_reference() {
    let ctx = Context::new();
    assert!(matches!(expand("x {{nope", &ctx), Err(RenderError::UnterminatedReference)));
}

#[test]
fn safe_and_unsafe_paths() {
    assert!(is_safe_path("README.md"));
    assert!(is_safe_path("docs/index.md"));
    assert!(is_safe_path("a/..b/c"));
    assert!(!is_safe_path(""));
    assert!(!is_safe_path("/etc/passwd"));
    assert!(!is_safe_path("../outside"));
    assert!(!is_safe_path("docs/../../x"));
    assert!(!is_safe_path("docs/.."));
    assert!(!is_safe_path("C:\\x"));
    assert!(!is_safe_path("a\\..\\b"));
}

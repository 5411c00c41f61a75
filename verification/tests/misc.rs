use brace::db::DatabaseConfig;
use brace::theme::{ManifestConfig, TemplateInfo, ThemeConfig};
use brace::time::DateTimeUtc;

#[test]
fn database_defaults() {
    let c = DatabaseConfig::default();
    assert_eq!(c.host, [127, 0, 0, 1]);
    assert_eq!(c.port, 5432);
    assert_eq!(c.username, "postgres");
    assert_eq!(c.password, "postgres");
    assert_eq!(c.database, "postgres");
}

#[test]
fn theme_defaults() {
    let t = ThemeConfig::default();
    assert_eq!(t.theme.name, "default");
    assert_eq!(t.theme.label, "Default");
    assert_eq!(t.theme.description, "");
    assert!(t.manifests.is_empty());

    let m = ManifestConfig::default();
    assert_eq!(m.manifest.name, "default");
    assert!(m.templates.is_empty());

    let text = TemplateInfo::Text { name: "index".to_string(), text: "<p></p>".to_string() };
    assert_eq!(text.name(), "index");
    let file = TemplateInfo::Tera { name: "page".to_string(), path: std::path::PathBuf::from("page.html") };
    assert_eq!(file.name(), "page");
}

#[test]
fn datetime_field_value() {
    let when = DateTimeUtc { seconds: 86_400, nanoseconds: 5 };
    let field = brace::form::field::datetime("created").label("Created").value(when);
    assert_eq!(field.value, when);
    assert_eq!(field.label.as_deref(), Some("Created"));
}

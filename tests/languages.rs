use mdbook_langtabs::install::asset_listed;
use mdbook_langtabs::languages::{canonicalize, language_identifier};
use mdbook_langtabs::LangTabsPreprocessor;

fn pair(a: &str, b: &str) -> (String, String) {
    (a.to_string(), b.to_string())
}

#[test]
fn canonicalize_known_languages() {
    assert_eq!(canonicalize("rust"), pair("Rust", "devicon-rust-original"));
    assert_eq!(canonicalize("python"), pair("Python", "devicon-python-plain"));
    assert_eq!(canonicalize("c++"), pair("C++", "devicon-cplusplus-plain"));
    assert_eq!(canonicalize("c#"), pair("C#", "devicon-csharp-plain"));
}

#[test]
fn aliases_share_an_entry() {
    assert_eq!(canonicalize("js"), canonicalize("javascript"));
    assert_eq!(canonicalize("py"), canonicalize("python"));
    assert_eq!(canonicalize("ts"), canonicalize("typescript"));
    assert_eq!(canonicalize("cs"), canonicalize("csharp"));
    assert_eq!(canonicalize("cpp"), canonicalize("c++"));
    assert_eq!(language_identifier("js"), "javascript");
    assert_eq!(language_identifier("sh"), "bash");
}

#[test]
fn canonicalize_ignores_case() {
    assert_eq!(canonicalize("PyThOn"), canonicalize("python"));
    assert_eq!(canonicalize("RUST"), pair("Rust", "devicon-rust-original"));
    assert_eq!(canonicalize("FooBar"), canonicalize("foobar"));
    assert_eq!(language_identifier("TypeScript"), "typescript");
}

#[test]
fn unknown_tag_falls_back() {
    assert_eq!(canonicalize("fortran"), pair("fortran", "devicon-devicon-plain"));
    assert_eq!(canonicalize("Elm"), pair("elm", "devicon-devicon-plain"));
    assert_eq!(language_identifier("Elm"), "elm");
}

#[test]
fn empty_tag_has_a_name() {
    let (name, icon) = canonicalize("");
    assert_eq!(name, "Text");
    assert!(!name.is_empty());
    assert_eq!(icon, "devicon-devicon-plain");
    assert_eq!(language_identifier(""), "text");
}

#[test]
fn display_name_never_empty() {
    for tag in ["", "x", "ÄÖ", "rust", "C", "  ", "c#", "PyThOn"] {
        assert!(!canonicalize(tag).0.is_empty());
    }
}

#[test]
fn non_ascii_letters_are_kept() {
    assert_eq!(canonicalize("ÄRGER").0, "Ärger");
}

#[test]
fn preprocessor_name_and_renderer() {
    let p = LangTabsPreprocessor::new();
    assert_eq!(p.name(), "langtabs");
    assert!(p.supports_renderer("html"));
    assert!(!p.supports_renderer("latex"));
    assert!(!p.supports_renderer("HTML"));
    assert!(!p.supports_renderer(""));
    let d = LangTabsPreprocessor::default();
    assert_eq!(d.name(), "langtabs");
}

#[test]
fn asset_listing() {
    let entries = vec![Some("theme.css".to_string()), None, Some("langtabs.css".to_string())];
    assert!(asset_listed(&entries, "langtabs.css"));
    assert!(!asset_listed(&entries, "langtabs.js"));
    assert!(!asset_listed(&Vec::new(), "langtabs.css"));
}

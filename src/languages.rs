//! The language registry: a fixed table from language tags, aliases
//! included, to an identifier, a display name and an icon class, with a
//! fallback for every tag it does not hold.
use vstd::prelude::*;
use crate::text::{ascii_lower, chars_of, same, string_of, to_ascii_lower};

verus! {

/// A row of the registry.
pub struct Entry {
    pub identifier: Seq<char>,
    pub display: Seq<char>,
    pub icon: Seq<char>,
}

/// The registry row for a lower-case tag.
pub open spec fn entry(t: Seq<char>) -> Option<Entry> {
    if t == "rust"@ || t == "rs"@ {
        Some(Entry { identifier: "rust"@, display: "Rust"@, icon: "devicon-rust-original"@ })
    } else if t == "python"@ || t == "py"@ {
        Some(Entry { identifier: "python"@, display: "Python"@, icon: "devicon-python-plain"@ })
    } else if t == "javascript"@ || t == "js"@ {
        Some(Entry { identifier: "javascript"@, display: "JavaScript"@, icon: "devicon-javascript-plain"@ })
    } else if t == "typescript"@ || t == "ts"@ {
        Some(Entry { identifier: "typescript"@, display: "TypeScript"@, icon: "devicon-typescript-plain"@ })
    } else if t == "c"@ {
        Some(Entry { identifier: "c"@, display: "C"@, icon: "devicon-c-plain"@ })
    } else if t == "cpp"@ || t == "c++"@ || t == "cxx"@ || t == "cc"@ {
        Some(Entry { identifier: "cpp"@, display: "C++"@, icon: "devicon-cplusplus-plain"@ })
    } else if t == "csharp"@ || t == "cs"@ || t == "c#"@ {
        Some(Entry { identifier: "csharp"@, display: "C#"@, icon: "devicon-csharp-plain"@ })
    } else if t == "go"@ || t == "golang"@ {
        Some(Entry { identifier: "go"@, display: "Go"@, icon: "devicon-go-original-wordmark"@ })
    } else if t == "java"@ {
        Some(Entry { identifier: "java"@, display: "Java"@, icon: "devicon-java-plain"@ })
    } else if t == "kotlin"@ || t == "kt"@ {
        Some(Entry { identifier: "kotlin"@, display: "Kotlin"@, icon: "devicon-kotlin-plain"@ })
    } else if t == "swift"@ {
        Some(Entry { identifier: "swift"@, display: "Swift"@, icon: "devicon-swift-plain"@ })
    } else if t == "ruby"@ || t == "rb"@ {
        Some(Entry { identifier: "ruby"@, display: "Ruby"@, icon: "devicon-ruby-plain"@ })
    } else if t == "php"@ {
        Some(Entry { identifier: "php"@, display: "PHP"@, icon: "devicon-php-plain"@ })
    } else if t == "bash"@ || t == "sh"@ || t == "shell"@ || t == "zsh"@ {
        Some(Entry { identifier: "bash"@, display: "Bash"@, icon: "devicon-bash-plain"@ })
    } else if t == "html"@ {
        Some(Entry { identifier: "html"@, display: "HTML"@, icon: "devicon-html5-plain"@ })
    } else if t == "css"@ {
        Some(Entry { identifier: "css"@, display: "CSS"@, icon: "devicon-css3-plain"@ })
    } else if t == "json"@ {
        Some(Entry { identifier: "json"@, display: "JSON"@, icon: "devicon-json-plain"@ })
    } else if t == "yaml"@ || t == "yml"@ {
        Some(Entry { identifier: "yaml"@, display: "YAML"@, icon: "devicon-yaml-plain"@ })
    } else if t == "toml"@ {
        Some(Entry { identifier: "toml"@, display: "TOML"@, icon: "devicon-toml-plain"@ })
    } else if t == "sql"@ {
        Some(Entry { identifier: "sql"@, display: "SQL"@, icon: "devicon-azuresqldatabase-plain"@ })
    } else if t == "haskell"@ || t == "hs"@ {
        Some(Entry { identifier: "haskell"@, display: "Haskell"@, icon: "devicon-haskell-plain"@ })
    } else if t == "scala"@ {
        Some(Entry { identifier: "scala"@, display: "Scala"@, icon: "devicon-scala-plain"@ })
    } else if t == "lua"@ {
        Some(Entry { identifier: "lua"@, display: "Lua"@, icon: "devicon-lua-plain"@ })
    } else if t == "zig"@ {
        Some(Entry { identifier: "zig"@, display: "Zig"@, icon: "devicon-zig-original"@ })
    } else {
        None
    }
}

/// The icon class of every tag outside the registry.
pub open spec fn fallback_icon() -> Seq<char> {
    "devicon-devicon-plain"@
}

/// The name shown for the empty tag.
pub open spec fn empty_tag_name() -> Seq<char> {
    "Text"@
}

/// The identifier of a tag, matched without regard to ASCII case: the
/// registry's, else the lower-cased tag itself (`"text"` for the empty tag).
pub open spec fn identifier_of(tag: Seq<char>) -> Seq<char> {
    match entry(ascii_lower(tag)) {
        Some(e) => e.identifier,
        None => if tag.len() == 0 { "text"@ } else { ascii_lower(tag) },
    }
}

/// The display name of a tag: the registry's, else the lower-cased tag
/// itself (a fixed name for the empty tag).
pub open spec fn display_name_of(tag: Seq<char>) -> Seq<char> {
    match entry(ascii_lower(tag)) {
        Some(e) => e.display,
        None => if tag.len() == 0 { empty_tag_name() } else { ascii_lower(tag) },
    }
}

/// The icon class of a tag: the registry's, else the shared fallback.
pub open spec fn icon_class_of(tag: Seq<char>) -> Seq<char> {
    match entry(ascii_lower(tag)) {
        Some(e) => e.icon,
        None => fallback_icon(),
    }
}

/// The registry row for a lower-case tag: identifier, display name, icon class.
fn lookup(t: &Vec<char>) -> (r: Option<(&'static str, &'static str, &'static str)>)
    ensures
        match r {
            Some(e) => entry(t@) == Some(Entry { identifier: e.0@, display: e.1@, icon: e.2@ }),
            None => entry(t@) is None,
        },
{
    if same(t, "rust") || same(t, "rs") {
        Some(("rust", "Rust", "devicon-rust-original"))
    } else if same(t, "python") || same(t, "py") {
        Some(("python", "Python", "devicon-python-plain"))
    } else if same(t, "javascript") || same(t, "js") {
        Some(("javascript", "JavaScript", "devicon-javascript-plain"))
    } else if same(t, "typescript") || same(t, "ts") {
        Some(("typescript", "TypeScript", "devicon-typescript-plain"))
    } else if same(t, "c") {
        Some(("c", "C", "devicon-c-plain"))
    } else if same(t, "cpp") || same(t, "c++") || same(t, "cxx") || same(t, "cc") {
        Some(("cpp", "C++", "devicon-cplusplus-plain"))
    } else if same(t, "csharp") || same(t, "cs") || same(t, "c#") {
        Some(("csharp", "C#", "devicon-csharp-plain"))
    } else if same(t, "go") || same(t, "golang") {
        Some(("go", "Go", "devicon-go-original-wordmark"))
    } else if same(t, "java") {
        Some(("java", "Java", "devicon-java-plain"))
    } else if same(t, "kotlin") || same(t, "kt") {
        Some(("kotlin", "Kotlin", "devicon-kotlin-plain"))
    } else if same(t, "swift") {
        Some(("swift", "Swift", "devicon-swift-plain"))
    } else if same(t, "ruby") || same(t, "rb") {
        Some(("ruby", "Ruby", "devicon-ruby-plain"))
    } else if same(t, "php") {
        Some(("php", "PHP", "devicon-php-plain"))
    } else if same(t, "bash") || same(t, "sh") || same(t, "shell") || same(t, "zsh") {
        Some(("bash", "Bash", "devicon-bash-plain"))
    } else if same(t, "html") {
        Some(("html", "HTML", "devicon-html5-plain"))
    } else if same(t, "css") {
        Some(("css", "CSS", "devicon-css3-plain"))
    } else if same(t, "json") {
        Some(("json", "JSON", "devicon-json-plain"))
    } else if same(t, "yaml") || same(t, "yml") {
        Some(("yaml", "YAML", "devicon-yaml-plain"))
    } else if same(t, "toml") {
        Some(("toml", "TOML", "devicon-toml-plain"))
    } else if same(t, "sql") {
        Some(("sql", "SQL", "devicon-azuresqldatabase-plain"))
    } else if same(t, "haskell") || same(t, "hs") {
        Some(("haskell", "Haskell", "devicon-haskell-plain"))
    } else if same(t, "scala") {
        Some(("scala", "Scala", "devicon-scala-plain"))
    } else if same(t, "lua") {
        Some(("lua", "Lua", "devicon-lua-plain"))
    } else if same(t, "zig") {
        Some(("zig", "Zig", "devicon-zig-original"))
    } else {
        None
    }
}

/// The display name and icon class of a language tag; never fails. Case is
/// folded for ASCII letters only (the letters a fence tag may hold): other
/// characters are compared as they are.
pub fn canonicalize(tag: &str) -> (r: (String, String))
    ensures
        r.0@ == display_name_of(tag@),
        r.1@ == icon_class_of(tag@),
{
    let t = to_ascii_lower(&chars_of(tag));
    match lookup(&t) {
        Some(e) => (string_of(&chars_of(e.1)), string_of(&chars_of(e.2))),
        None => {
            let name = if t.len() == 0 {
                string_of(&chars_of("Text"))
            } else {
                string_of(&t)
            };
            (name, string_of(&chars_of("devicon-devicon-plain")))
        },
    }
}

/// The identifier of a language tag, used to label its tab.
pub fn language_identifier(tag: &str) -> (r: String)
    ensures
        r@ == identifier_of(tag@),
{
    let t = to_ascii_lower(&chars_of(tag));
    match lookup(&t) {
        Some(e) => string_of(&chars_of(e.0)),
        None => if t.len() == 0 {
            string_of(&chars_of("text"))
        } else {
            string_of(&t)
        },
    }
}

/// Tags that agree up to ASCII case get the same identifier, display name
/// and icon class; the display name is never empty, not even for the empty
/// tag, and a tag outside the registry gets the shared fallback icon.
pub proof fn lemma_canonicalize_total(a: Seq<char>, b: Seq<char>)
    requires
        ascii_lower(a) == ascii_lower(b),
    ensures
        display_name_of(a) == display_name_of(b),
        icon_class_of(a) == icon_class_of(b),
        identifier_of(a) == identifier_of(b),
        display_name_of(a).len() > 0,
        entry(ascii_lower(a)) is None ==> icon_class_of(a) == fallback_icon(),
{
    assert(a.len() == ascii_lower(a).len());
    assert(b.len() == ascii_lower(b).len());
    reveal_strlit("Rust");
    reveal_strlit("Python");
    reveal_strlit("JavaScript");
    reveal_strlit("TypeScript");
    reveal_strlit("C");
    reveal_strlit("C++");
    reveal_strlit("C#");
    reveal_strlit("Go");
    reveal_strlit("Java");
    reveal_strlit("Kotlin");
    reveal_strlit("Swift");
    reveal_strlit("Ruby");
    reveal_strlit("PHP");
    reveal_strlit("Bash");
    reveal_strlit("HTML");
    reveal_strlit("CSS");
    reveal_strlit("JSON");
    reveal_strlit("YAML");
    reveal_strlit("TOML");
    reveal_strlit("SQL");
    reveal_strlit("Haskell");
    reveal_strlit("Scala");
    reveal_strlit("Lua");
    reveal_strlit("Zig");
    reveal_strlit("Text");
}

} // verus!

use mdbook_langtabs::preprocessor::process_markdown;
use mdbook_langtabs::render::{escape, generate_tabs_html, generate_tabs_html_with, PaneText};
use mdbook_langtabs::sections::{extract_language_sections, LanguageSection};

const EXAMPLE: &str = "<!-- langtabs-start -->\n```rust\nfn main(){}\n```\n```python\nprint(1)\n```\n<!-- langtabs-end -->";

const EXAMPLE_HTML: &str = "<div class=\"langtabs\"><div class=\"langtabs-header\">\
<button class=\"langtabs-tab active\" data-lang=\"rust-0\"><i class=\"langtabs-icon devicon-rust-original\"></i>Rust</button>\
<button class=\"langtabs-tab\" data-lang=\"python-1\"><i class=\"langtabs-icon devicon-python-plain\"></i>Python</button>\
</div><div class=\"langtabs-content\">\n\n\
\n\n<div class=\"langtabs-code active\" data-lang=\"rust-0\">\n\n```rust\nfn main(){}\n```\n\n</div>\
\n\n<div class=\"langtabs-code\" data-lang=\"python-1\">\n\n```python\nprint(1)\n```\n\n</div>\
</div></div>";

fn section(language: &str, content: &str) -> LanguageSection {
    LanguageSection { language: language.to_string(), content: content.to_string() }
}

#[test]
fn end_to_end_example() {
    let out = process_markdown(EXAMPLE);
    assert_eq!(out, EXAMPLE_HTML);
    assert!(!out.contains("langtabs-start"));
    assert!(!out.contains("langtabs-end"));
}

#[test]
fn surrounding_text_is_kept() {
    let doc = format!("# Title\n\n{}\n\nAfter.\n", EXAMPLE);
    assert_eq!(process_markdown(&doc), format!("# Title\n\n{}\n\nAfter.\n", EXAMPLE_HTML));
}

#[test]
fn identity_without_end_marker() {
    let doc = "<!-- langtabs-start -->\n```rust\nfn main(){}\n```\n";
    assert_eq!(process_markdown(doc), doc);
}

#[test]
fn identity_without_start_marker() {
    let doc = "```rust\nfn main(){}\n```\n<!-- langtabs-end -->\n";
    assert_eq!(process_markdown(doc), doc);
}

#[test]
fn identity_on_plain_document() {
    let doc = "Just text, no markers.\n\n```rust\nlet x = 1;\n```\n";
    assert_eq!(process_markdown(doc), doc);
    assert_eq!(process_markdown(""), "");
}

#[test]
fn end_marker_before_start_is_no_region() {
    let doc = "<!-- langtabs-end -->\n```rust\nx\n```\n<!-- langtabs-start -->";
    assert_eq!(process_markdown(doc), doc);
}

#[test]
fn empty_region_leaves_document_unchanged() {
    let doc = "before\n<!-- langtabs-start -->\n<!-- langtabs-end -->\nafter";
    assert_eq!(process_markdown(doc), doc);
    let adjacent = "<!-- langtabs-start --><!-- langtabs-end -->";
    assert_eq!(process_markdown(adjacent), adjacent);
}

#[test]
fn region_of_prose_only_is_unchanged() {
    let doc = "<!-- langtabs-start -->\nsome words\n``` rust\n<!-- langtabs-end -->";
    assert_eq!(process_markdown(doc), doc);
}

#[test]
fn unterminated_start_marker_is_ignored() {
    let doc = format!("{}\n<!-- langtabs-start -->\n```go\nx\n```\n", EXAMPLE);
    let expected = format!("{}\n<!-- langtabs-start -->\n```go\nx\n```\n", EXAMPLE_HTML);
    assert_eq!(process_markdown(&doc), expected);
}

#[test]
fn two_regions_are_both_replaced() {
    let second = "<!-- langtabs-start -->\n```js\nf()\n```\n<!-- langtabs-end -->";
    let doc = format!("{}\nmiddle\n{}", EXAMPLE, second);
    let out = process_markdown(&doc);
    assert!(out.starts_with(EXAMPLE_HTML));
    assert!(out.contains("\nmiddle\n"));
    assert!(out.contains("data-lang=\"javascript-0\""));
    assert!(!out.contains("langtabs-start"));
    assert_eq!(out.matches("<div class=\"langtabs\">").count(), 2);
}

#[test]
fn output_is_stable_when_run_again() {
    let once = process_markdown(EXAMPLE);
    assert_eq!(process_markdown(&once), once);
}

#[test]
fn order_preserved_three_languages() {
    let doc = "<!-- langtabs-start -->\n```js\na\n```\n```go\nb\n```\n```ruby\nc\n```\n<!-- langtabs-end -->";
    let out = process_markdown(doc);
    let header_end = out.find("</div>").unwrap();
    let header = &out[..header_end];
    let body = &out[header_end..];
    let b0 = header.find("data-lang=\"javascript-0\"").unwrap();
    let b1 = header.find("data-lang=\"go-1\"").unwrap();
    let b2 = header.find("data-lang=\"ruby-2\"").unwrap();
    assert!(b0 < b1 && b1 < b2);
    let p0 = body.find("data-lang=\"javascript-0\"").unwrap();
    let p1 = body.find("data-lang=\"go-1\"").unwrap();
    let p2 = body.find("data-lang=\"ruby-2\"").unwrap();
    assert!(p0 < p1 && p1 < p2);
    assert!(header.contains(">JavaScript</button>"));
    assert!(header.contains(">Go</button>"));
    assert!(header.contains(">Ruby</button>"));
}

#[test]
fn single_active_tab_and_pane() {
    let sections = vec![section("rust", "```rust\na\n```"), section("c", "```c\nb\n```"), section("java", "```java\nc\n```")];
    let html = generate_tabs_html(&sections);
    assert_eq!(html.matches("class=\"langtabs-tab active\"").count(), 1);
    assert_eq!(html.matches("class=\"langtabs-code active\"").count(), 1);
    assert_eq!(html.matches("class=\"langtabs-tab\"").count(), 2);
    assert_eq!(html.matches("class=\"langtabs-code\"").count(), 2);
    assert!(html.contains("<button class=\"langtabs-tab active\" data-lang=\"rust-0\">"));
    assert!(html.contains("<div class=\"langtabs-code active\" data-lang=\"rust-0\">"));
}

#[test]
fn one_section_is_active() {
    let html = generate_tabs_html(&[section("py", "```py\nx\n```")]);
    assert_eq!(
        html,
        "<div class=\"langtabs\"><div class=\"langtabs-header\"><button class=\"langtabs-tab active\" data-lang=\"python-0\"><i class=\"langtabs-icon devicon-python-plain\"></i>Python</button></div><div class=\"langtabs-content\">\n\n\n\n<div class=\"langtabs-code active\" data-lang=\"python-0\">\n\n```py\nx\n```\n\n</div></div></div>"
    );
}

#[test]
fn no_sections_render_nothing() {
    assert_eq!(generate_tabs_html(&[]), "");
}

#[test]
fn same_language_twice_is_told_apart() {
    let html = generate_tabs_html(&[section("rust", "a"), section("rust", "b")]);
    assert!(html.contains("data-lang=\"rust-0\""));
    assert!(html.contains("data-lang=\"rust-1\""));
}

#[test]
fn indices_past_nine_are_decimal() {
    let sections: Vec<LanguageSection> = (0..12).map(|_| section("zig", "z")).collect();
    let html = generate_tabs_html(&sections);
    assert!(html.contains("data-lang=\"zig-9\""));
    assert!(html.contains("data-lang=\"zig-10\""));
    assert!(html.contains("data-lang=\"zig-11\""));
}

#[test]
fn unknown_language_falls_back() {
    let html = generate_tabs_html(&[section("fortran", "```fortran\n+\n```")]);
    assert!(html.contains("data-lang=\"fortran-0\""));
    assert!(html.contains("<i class=\"langtabs-icon devicon-devicon-plain\"></i>fortran</button>"));
}

#[test]
fn pane_text_is_not_escaped() {
    let html = generate_tabs_html(&[section("html", "```html\n<p>&amp;</p>\n```")]);
    assert!(html.contains("\n\n```html\n<p>&amp;</p>\n```\n\n</div>"));
}

#[test]
fn unclosed_fence_is_kept() {
    let sections = extract_language_sections("```rust\nfn a() {}\nlet x = 1;");
    assert_eq!(sections.len(), 1);
    assert_eq!(sections[0].language, "rust");
    assert_eq!(sections[0].content, "```rust\nfn a() {}\nlet x = 1;");
}

#[test]
fn unclosed_fence_after_closed_one() {
    let sections = extract_language_sections("```c\nint x;\n```\ntext\n```go\nfunc f() {}\n");
    assert_eq!(sections.len(), 2);
    assert_eq!(sections[0].content, "```c\nint x;\n```");
    assert_eq!(sections[1].language, "go");
    assert_eq!(sections[1].content, "```go\nfunc f() {}");
}

#[test]
fn unclosed_fence_renders_through_transform() {
    let doc = "<!-- langtabs-start -->\n```rust\nfn a() {}\n<!-- langtabs-end -->";
    let out = process_markdown(doc);
    assert!(out.contains("\n\n```rust\nfn a() {}\n\n</div>"));
}

#[test]
fn text_outside_fences_is_ignored() {
    let sections = extract_language_sections("intro\n```ts\nlet a = 1;\n```\nbetween\n```sh\nls\n```\noutro");
    assert_eq!(sections.len(), 2);
    assert_eq!(sections[0].language, "ts");
    assert_eq!(sections[0].content, "```ts\nlet a = 1;\n```");
    assert_eq!(sections[1].language, "sh");
    assert_eq!(sections[1].content, "```sh\nls\n```");
}

#[test]
fn fence_open_with_extra_content_is_rejected() {
    assert!(extract_language_sections("```rust extra\nx\n```").is_empty());
    assert!(extract_language_sections("``` rust\nx\n```").is_empty());
    assert!(extract_language_sections("  ```rust\nx\n```").is_empty());
    assert!(extract_language_sections("```\nx\n```").is_empty());
    assert!(extract_language_sections("````rust\nx\n```").is_empty());
}

#[test]
fn fence_open_with_trailing_whitespace_is_accepted() {
    let sections = extract_language_sections("```c++  \t\nint a;\n```   \n");
    assert_eq!(sections.len(), 1);
    assert_eq!(sections[0].language, "c++");
    assert_eq!(sections[0].content, "```c++  \t\nint a;\n```   ");
}

#[test]
fn tag_is_lower_cased() {
    let sections = extract_language_sections("```PyThOn\nprint(1)\n```");
    assert_eq!(sections[0].language, "python");
    assert_eq!(sections[0].content, "```PyThOn\nprint(1)\n```");
}

#[test]
fn fence_inside_block_closes_only_bare() {
    let sections = extract_language_sections("```md\n```rust\n```");
    assert_eq!(sections.len(), 1);
    assert_eq!(sections[0].content, "```md\n```rust\n```");
}

#[test]
fn crlf_lines_are_split() {
    let sections = extract_language_sections("```rust\r\nlet a = 1;\r\n```\r\n");
    assert_eq!(sections.len(), 1);
    assert_eq!(sections[0].content, "```rust\nlet a = 1;\n```");
}

#[test]
fn no_fences_no_sections() {
    assert!(extract_language_sections("").is_empty());
    assert!(extract_language_sections("\n\nplain\n").is_empty());
}

const S: &str = "<!-- langtabs-start -->";
const E: &str = "<!-- langtabs-end -->";

#[test]
fn region_is_spliced_by_its_own_span() {
    let second = format!("{}```r{}", S, E);
    let doc = format!("{}{}```r{}{}", S, S, E, second);
    let widget = generate_tabs_html(&[section("r", "```r")]);
    assert!(!widget.is_empty());
    assert_eq!(process_markdown(&doc), format!("{}{}```r{}{}", S, S, E, widget));
}

#[test]
fn second_pass_changes_nothing() {
    let doc = format!("{}{}```r{}{}```r{}{}{}", S, S, E, S, E, S, E);
    let once = process_markdown(&doc);
    assert_eq!(process_markdown(&once), once);
}

#[test]
fn repeated_region_text_is_replaced_each_time() {
    let doc = format!("{}\nbetween\n{}", EXAMPLE, EXAMPLE);
    assert_eq!(process_markdown(&doc), format!("{}\nbetween\n{}", EXAMPLE_HTML, EXAMPLE_HTML));
}

#[test]
fn escape_policy_escapes_pane_text() {
    let sections = [section("html", "```html\n<p class='a'>\"x\" & y</p>\n```")];
    let html = generate_tabs_html_with(&sections, PaneText::EscapedHtml);
    assert!(html.contains("\n\n```html\n&lt;p class=&#39;a&#39;&gt;&quot;x&quot; &amp; y&lt;/p&gt;\n```\n\n</div>"));
    assert!(html.contains("data-lang=\"html-0\""));
    assert_eq!(generate_tabs_html_with(&sections, PaneText::Markdown), generate_tabs_html(&sections));
    assert_eq!(generate_tabs_html_with(&[], PaneText::EscapedHtml), "");
}

#[test]
fn escape_each_special_character() {
    assert_eq!(escape(&"a<b>&\"'c".to_string()), "a&lt;b&gt;&amp;&quot;&#39;c");
    assert_eq!(escape(&String::new()), "");
    assert_eq!(escape(&"plain".to_string()), "plain");
}

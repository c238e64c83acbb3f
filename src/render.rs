//! The tab renderer: one HTML fragment per marked region, a header of tab
//! buttons and a body of content panes, the first of each marked active.
//!
//! Escaping policy: the caller chooses how a pane holds its section's text
//! (`PaneText`). `generate_tabs_html`, which the document transform uses,
//! keeps it verbatim, fences included, as markdown for the book's renderer
//! to finish; `generate_tabs_html_with` can HTML-escape it instead.
use vstd::prelude::*;
use crate::languages::{canonicalize, display_name_of, icon_class_of, identifier_of, language_identifier};
use crate::sections::LanguageSection;
use crate::text::{chars_of, decimal, push_decimal, push_str, string_of};

verus! {

/// A section's tag and text.
pub open spec fn section_view(s: LanguageSection) -> (Seq<char>, Seq<char>) {
    (s.language@, s.content@)
}

/// The tags and texts of a run of sections.
pub open spec fn sections_view(ss: Seq<LanguageSection>) -> Seq<(Seq<char>, Seq<char>)> {
    ss.map_values(|s: LanguageSection| section_view(s))
}

/// The class of the tab button at position `i`: only the first is active.
pub open spec fn tab_class(i: int) -> Seq<char> {
    if i == 0 {
        "langtabs-tab active"@
    } else {
        "langtabs-tab"@
    }
}

/// The class of the content pane at position `i`: only the first is active.
pub open spec fn pane_class(i: int) -> Seq<char> {
    if i == 0 {
        "langtabs-code active"@
    } else {
        "langtabs-code"@
    }
}

/// The target of the tab and pane at position `i`: the language's
/// identifier qualified by the position.
pub open spec fn target(i: int, tag: Seq<char>) -> Seq<char> {
    identifier_of(tag) + "-"@ + decimal(i as nat)
}

/// The tab button of the section at position `i`.
pub open spec fn button(i: int, tag: Seq<char>) -> Seq<char> {
    "<button class=\""@ + tab_class(i) + "\" data-lang=\""@ + target(i, tag)
        + "\"><i class=\"langtabs-icon "@ + icon_class_of(tag) + "\"></i>"@
        + display_name_of(tag) + "</button>"@
}

/// The content pane of the section at position `i`.
pub open spec fn pane(i: int, tag: Seq<char>, content: Seq<char>) -> Seq<char> {
    "\n\n"@ + "<div class=\""@ + pane_class(i) + "\" data-lang=\""@ + target(i, tag) + "\">"@
        + "\n\n"@ + content + "\n\n</div>"@
}

/// The buttons of the first `n` sections, in order.
pub open spec fn buttons(secs: Seq<(Seq<char>, Seq<char>)>, n: nat) -> Seq<char>
    decreases n,
{
    if n == 0 {
        Seq::empty()
    } else {
        buttons(secs, (n - 1) as nat) + button(n - 1, secs[n - 1].0)
    }
}

/// The panes of the first `n` sections, in order.
pub open spec fn panes(secs: Seq<(Seq<char>, Seq<char>)>, n: nat) -> Seq<char>
    decreases n,
{
    if n == 0 {
        Seq::empty()
    } else {
        panes(secs, (n - 1) as nat) + pane(n - 1, secs[n - 1].0, secs[n - 1].1)
    }
}

pub open spec fn header_open() -> Seq<char> {
    "<div class=\"langtabs\">"@ + "<div class=\"langtabs-header\">"@
}

pub open spec fn content_open() -> Seq<char> {
    "</div>"@ + "<div class=\"langtabs-content\">"@ + "\n\n"@
}

pub open spec fn widget_close() -> Seq<char> {
    "</div>"@ + "</div>"@
}

/// The widget for a run of sections; nothing for no sections.
pub open spec fn render(secs: Seq<(Seq<char>, Seq<char>)>) -> Seq<char> {
    if secs.len() == 0 {
        Seq::empty()
    } else {
        header_open() + buttons(secs, secs.len()) + content_open() + panes(secs, secs.len())
            + widget_close()
    }
}

fn push_target(out: &mut Vec<char>, i: usize, language: &String)
    ensures
        final(out)@ == old(out)@ + target(i as int, language@),
{
    let ident = language_identifier(language.as_str());
    push_str(out, ident.as_str());
    push_str(out, "-");
    push_decimal(out, i);
    assert(final(out)@ =~= old(out)@ + target(i as int, language@));
}

fn push_button(out: &mut Vec<char>, i: usize, s: &LanguageSection)
    ensures
        final(out)@ == old(out)@ + button(i as int, s.language@),
{
    let (display, icon) = canonicalize(s.language.as_str());
    push_str(out, "<button class=\"");
    if i == 0 {
        push_str(out, "langtabs-tab active");
    } else {
        push_str(out, "langtabs-tab");
    }
    push_str(out, "\" data-lang=\"");
    push_target(out, i, &s.language);
    push_str(out, "\"><i class=\"langtabs-icon ");
    push_str(out, icon.as_str());
    push_str(out, "\"></i>");
    push_str(out, display.as_str());
    push_str(out, "</button>");
    assert(final(out)@ =~= old(out)@ + button(i as int, s.language@));
}

fn push_pane(out: &mut Vec<char>, i: usize, s: &LanguageSection)
    ensures
        final(out)@ == old(out)@ + pane(i as int, s.language@, s.content@),
{
    push_str(out, "\n\n");
    push_str(out, "<div class=\"");
    if i == 0 {
        push_str(out, "langtabs-code active");
    } else {
        push_str(out, "langtabs-code");
    }
    push_str(out, "\" data-lang=\"");
    push_target(out, i, &s.language);
    push_str(out, "\">");
    push_str(out, "\n\n");
    push_str(out, s.content.as_str());
    push_str(out, "\n\n</div>");
    assert(final(out)@ =~= old(out)@ + pane(i as int, s.language@, s.content@));
}

/// Renders a run of sections as one tab widget; the empty string for no
/// sections.
pub fn generate_tabs_html(sections: &[LanguageSection]) -> (r: String)
    ensures
        r@ == render(sections_view(sections@)),
{
    let ghost secs = sections_view(sections@);
    if sections.len() == 0 {
        return String::new();
    }
    let mut html: Vec<char> = Vec::new();
    push_str(&mut html, "<div class=\"langtabs\">");
    push_str(&mut html, "<div class=\"langtabs-header\">");
    let ghost head = html@;
    let mut i: usize = 0;
    while i < sections.len()
        invariant
            i <= sections@.len() == secs.len(),
            secs == sections_view(sections@),
            html@ == head + buttons(secs, i as nat),
        decreases sections.len() - i,
    {
        push_button(&mut html, i, &sections[i]);
        i += 1;
        assert(html@ =~= head + buttons(secs, i as nat));
    }
    push_str(&mut html, "</div>");
    push_str(&mut html, "<div class=\"langtabs-content\">");
    push_str(&mut html, "\n\n");
    let ghost mid = html@;
    let mut j: usize = 0;
    while j < sections.len()
        invariant
            j <= sections@.len() == secs.len(),
            secs == sections_view(sections@),
            html@ == mid + panes(secs, j as nat),
        decreases sections.len() - j,
    {
        push_pane(&mut html, j, &sections[j]);
        j += 1;
        assert(html@ =~= mid + panes(secs, j as nat));
    }
    push_str(&mut html, "</div>");
    push_str(&mut html, "</div>");
    assert(html@ =~= render(secs));
    string_of(&html)
}

/// Pieces joined end to end, in order.
pub open spec fn concat(parts: Seq<Seq<char>>) -> Seq<char>
    decreases parts.len(),
{
    if parts.len() == 0 {
        Seq::empty()
    } else {
        concat(parts.drop_last()) + parts.last()
    }
}

proof fn lemma_buttons_panes(secs: Seq<(Seq<char>, Seq<char>)>, n: nat)
    requires
        n <= secs.len(),
    ensures
        buttons(secs, n) == concat(Seq::new(n, |i: int| button(i, secs[i].0))),
        panes(secs, n) == concat(Seq::new(n, |i: int| pane(i, secs[i].0, secs[i].1))),
    decreases n,
{
    if n > 0 {
        lemma_buttons_panes(secs, (n - 1) as nat);
        assert(Seq::new(n, |i: int| button(i, secs[i].0)).drop_last() == Seq::new(
            (n - 1) as nat,
            |i: int| button(i, secs[i].0),
        ));
        assert(Seq::new(n, |i: int| pane(i, secs[i].0, secs[i].1)).drop_last() == Seq::new(
            (n - 1) as nat,
            |i: int| pane(i, secs[i].0, secs[i].1),
        ));
    }
}

/// The widget keeps the order of its sections: the header is the buttons of
/// sections 0, 1, 2, ... in that order and the body their panes in the same
/// order, the button and pane at position `i` showing section `i` and
/// targeting its identifier qualified by `i`.
pub proof fn lemma_order_preserved(secs: Seq<(Seq<char>, Seq<char>)>)
    requires
        secs.len() > 0,
    ensures
        render(secs) == header_open() + concat(Seq::new(secs.len(), |i: int| button(i, secs[i].0)))
            + content_open() + concat(
            Seq::new(secs.len(), |i: int| pane(i, secs[i].0, secs[i].1)),
        ) + widget_close(),
        forall|i: int|
            0 <= i < secs.len() ==> #[trigger] target(i, secs[i].0) == identifier_of(secs[i].0)
                + "-"@ + decimal(i as nat),
{
    lemma_buttons_panes(secs, secs.len());
}

/// The class of an active tab button.
pub open spec fn active_tab() -> Seq<char> {
    "langtabs-tab active"@
}

/// The class of an active content pane.
pub open spec fn active_pane() -> Seq<char> {
    "langtabs-code active"@
}

/// In a widget of `n` sections exactly one button and one pane are marked
/// active, and they are the first.
pub proof fn lemma_single_active(n: nat)
    requires
        n > 0,
    ensures
        Set::new(|i: int| 0 <= i < n && tab_class(i) == active_tab()) == set![0int],
        Set::new(|i: int| 0 <= i < n && pane_class(i) == active_pane()) == set![0int],
{
    reveal_strlit("langtabs-tab active");
    reveal_strlit("langtabs-tab");
    reveal_strlit("langtabs-code active");
    reveal_strlit("langtabs-code");
    assert forall|i: int| 0 < i < n implies tab_class(i) != active_tab() by {
        assert(tab_class(i).len() != active_tab().len());
    }
    assert forall|i: int| 0 < i < n implies pane_class(i) != active_pane() by {
        assert(pane_class(i).len() != active_pane().len());
    }
    assert(Set::new(|i: int| 0 <= i < n && tab_class(i) == active_tab()) =~= set![0int]);
    assert(Set::new(|i: int| 0 <= i < n && pane_class(i) == active_pane()) =~= set![0int]);
}

/// How a pane holds its section's text.
#[derive(Clone, Copy)]
pub enum PaneText {
    /// Verbatim, as markdown for the book's renderer to finish.
    Markdown,
    /// With `&`, `<`, `>`, `"` and `'` written as HTML character references.
    EscapedHtml,
}

/// The HTML form of one character.
pub open spec fn escape_char(c: char) -> Seq<char> {
    if c == '&' {
        "&amp;"@
    } else if c == '<' {
        "&lt;"@
    } else if c == '>' {
        "&gt;"@
    } else if c == '"' {
        "&quot;"@
    } else if c == '\'' {
        "&#39;"@
    } else {
        seq![c]
    }
}

/// `s` with each character in its HTML form.
pub open spec fn escape_html(s: Seq<char>) -> Seq<char>
    decreases s.len(),
{
    if s.len() == 0 {
        Seq::empty()
    } else {
        escape_html(s.drop_last()) + escape_char(s.last())
    }
}

/// What a pane holds of a section's text under `policy`.
pub open spec fn pane_text(policy: PaneText, content: Seq<char>) -> Seq<char> {
    match policy {
        PaneText::Markdown => content,
        PaneText::EscapedHtml => escape_html(content),
    }
}

/// Sections with their texts as the panes will hold them.
pub open spec fn with_policy(
    secs: Seq<(Seq<char>, Seq<char>)>,
    policy: PaneText,
) -> Seq<(Seq<char>, Seq<char>)> {
    secs.map_values(|p: (Seq<char>, Seq<char>)| (p.0, pane_text(policy, p.1)))
}

/// The HTML-escaped form of `s`.
pub fn escape(s: &String) -> (r: String)
    ensures
        r@ == escape_html(s@),
{
    let cs = chars_of(s.as_str());
    let mut out: Vec<char> = Vec::new();
    let mut i: usize = 0;
    while i < cs.len()
        invariant
            i <= cs.len(),
            out@ == escape_html(cs@.take(i as int)),
        decreases cs.len() - i,
    {
        let c = cs[i];
        if c == '&' {
            push_str(&mut out, "&amp;");
        } else if c == '<' {
            push_str(&mut out, "&lt;");
        } else if c == '>' {
            push_str(&mut out, "&gt;");
        } else if c == '"' {
            push_str(&mut out, "&quot;");
        } else if c == '\'' {
            push_str(&mut out, "&#39;");
        } else {
            out.push(c);
        }
        i += 1;
        assert(cs@.take(i as int).drop_last() == cs@.take(i - 1));
    }
    assert(cs@.take(i as int) == s@);
    string_of(&out)
}

/// Renders a run of sections as one tab widget, the panes holding the
/// sections' texts as `policy` says; the empty string for no sections.
pub fn generate_tabs_html_with(sections: &[LanguageSection], policy: PaneText) -> (r: String)
    ensures
        r@ == render(with_policy(sections_view(sections@), policy)),
{
    let mut prepared: Vec<LanguageSection> = Vec::new();
    let mut i: usize = 0;
    while i < sections.len()
        invariant
            i <= sections@.len(),
            sections_view(prepared@) == with_policy(sections_view(sections@), policy).take(
                i as int,
            ),
        decreases sections.len() - i,
    {
        let content = match policy {
            PaneText::Markdown => sections[i].content.clone(),
            PaneText::EscapedHtml => escape(&sections[i].content),
        };
        let ghost before = prepared@;
        prepared.push(LanguageSection { language: sections[i].language.clone(), content });
        proof {
            assert(section_view(prepared@.last()) == with_policy(sections_view(sections@), policy)[i
                as int]);
            assert(prepared@.drop_last() == before);
            assert(sections_view(prepared@) =~= sections_view(before).push(
                section_view(prepared@.last()),
            ));
        }
        i += 1;
        assert(sections_view(prepared@) =~= with_policy(sections_view(sections@), policy).take(
            i as int,
        ));
    }
    assert(with_policy(sections_view(sections@), policy).take(i as int) == with_policy(
        sections_view(sections@),
        policy,
    ));
    generate_tabs_html(prepared.as_slice())
}

} // verus!

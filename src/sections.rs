//! The section extractor: a line-oriented two-state machine that splits the
//! text of one marked region into its language-tagged fenced code blocks.
use vstd::prelude::*;
use crate::text::{ascii_lower, chars_of, lines_of, push_all, split_lines, string_of, to_ascii_lower};

verus! {

/// A character of the Unicode `White_Space` property.
pub open spec fn is_space(c: char) -> bool {
    ('\u{9}' <= c && c <= '\u{d}') || c == ' ' || c == '\u{85}' || c == '\u{a0}'
        || c == '\u{1680}' || ('\u{2000}' <= c && c <= '\u{200a}') || c == '\u{2028}'
        || c == '\u{2029}' || c == '\u{202f}' || c == '\u{205f}' || c == '\u{3000}'
}

/// A character allowed in a language tag: ASCII letters and digits, `_`, `+`, `-`.
pub open spec fn is_tag_char(c: char) -> bool {
    ('a' <= c && c <= 'z') || ('A' <= c && c <= 'Z') || ('0' <= c && c <= '9') || c == '_'
        || c == '+' || c == '-'
}

/// The fence delimiter: three backticks.
pub open spec fn fence() -> Seq<char> {
    seq!['`', '`', '`']
}

/// The number of tag characters that `s` starts with.
pub open spec fn tag_run(s: Seq<char>) -> nat
    decreases s.len(),
{
    if s.len() > 0 && is_tag_char(s[0]) {
        1 + tag_run(s.drop_first())
    } else {
        0
    }
}

pub open spec fn all_space(s: Seq<char>) -> bool {
    forall|k: int| 0 <= k < s.len() ==> is_space(#[trigger] s[k])
}

pub open spec fn starts_with_fence(line: Seq<char>) -> bool {
    line.len() >= 3 && line.take(3) == fence()
}

/// The tag of a fence-open line: the delimiter, then a non-empty tag, then
/// nothing but whitespace.
pub open spec fn open_tag(line: Seq<char>) -> Option<Seq<char>> {
    if starts_with_fence(line) {
        let rest = line.skip(3);
        let k = tag_run(rest);
        if k > 0 && all_space(rest.skip(k as int)) {
            Some(rest.take(k as int))
        } else {
            None
        }
    } else {
        None
    }
}

/// A fence-close line: the delimiter and nothing but whitespace after it.
pub open spec fn is_close(line: Seq<char>) -> bool {
    starts_with_fence(line) && all_space(line.skip(3))
}

proof fn lemma_tag_run(s: Seq<char>, k: int)
    requires
        0 <= k <= s.len(),
        forall|j: int| 0 <= j < k ==> is_tag_char(#[trigger] s[j]),
        k == s.len() || !is_tag_char(s[k]),
    ensures
        tag_run(s) == k,
    decreases k,
{
    if k > 0 {
        lemma_tag_run(s.drop_first(), k - 1);
    }
}

fn is_space_char(c: char) -> (r: bool)
    ensures
        r == is_space(c),
{
    ('\u{9}' <= c && c <= '\u{d}') || c == ' ' || c == '\u{85}' || c == '\u{a0}'
        || c == '\u{1680}' || ('\u{2000}' <= c && c <= '\u{200a}') || c == '\u{2028}'
        || c == '\u{2029}' || c == '\u{202f}' || c == '\u{205f}' || c == '\u{3000}'
}

fn is_tag_character(c: char) -> (r: bool)
    ensures
        r == is_tag_char(c),
{
    ('a' <= c && c <= 'z') || ('A' <= c && c <= 'Z') || ('0' <= c && c <= '9') || c == '_'
        || c == '+' || c == '-'
}

fn has_fence(line: &Vec<char>) -> (r: bool)
    ensures
        r == starts_with_fence(line@),
{
    let r = line.len() >= 3 && line[0] == '`' && line[1] == '`' && line[2] == '`';
    if line.len() >= 3 {
        assert(r == (line@.take(3) =~= fence()));
    }
    r
}

/// Whether every character of `line` from position `from` on is whitespace.
fn spaces_from(line: &Vec<char>, from: usize) -> (r: bool)
    requires
        from <= line.len(),
    ensures
        r == all_space(line@.skip(from as int)),
{
    let mut i: usize = from;
    while i < line.len()
        invariant
            from <= i <= line.len(),
            forall|k: int| from <= k < i ==> is_space(#[trigger] line@[k]),
        decreases line.len() - i,
    {
        if !is_space_char(line[i]) {
            assert(line@.skip(from as int)[i - from] == line@[i as int]);
            return false;
        }
        i += 1;
    }
    assert forall|k: int| 0 <= k < line@.skip(from as int).len() implies is_space(
        #[trigger] line@.skip(from as int)[k],
    ) by {
        assert(line@.skip(from as int)[k] == line@[from + k]);
    }
    true
}

/// The tag of `line` if it opens a fence.
pub fn fence_open_tag(line: &Vec<char>) -> (r: Option<Vec<char>>)
    ensures
        match r {
            Some(t) => open_tag(line@) == Some(t@),
            None => open_tag(line@) is None,
        },
{
    if !has_fence(line) {
        return None;
    }
    let mut k: usize = 3;
    while k < line.len() && is_tag_character(line[k])
        invariant
            3 <= k <= line.len(),
            forall|j: int| 3 <= j < k ==> is_tag_char(#[trigger] line@[j]),
        decreases line.len() - k,
    {
        k += 1;
    }
    let ghost rest = line@.skip(3);
    proof {
        assert forall|j: int| 0 <= j < k - 3 implies is_tag_char(#[trigger] rest[j]) by {
            assert(rest[j] == line@[j + 3]);
        }
        if k < line.len() {
            assert(rest[k - 3] == line@[k as int]);
        }
        lemma_tag_run(rest, k - 3);
        assert(rest.skip(k - 3) == line@.skip(k as int));
    }
    if k > 3 && spaces_from(line, k) {
        let mut tag: Vec<char> = Vec::new();
        let mut i: usize = 3;
        while i < k
            invariant
                3 <= i <= k <= line.len(),
                tag@ == line@.subrange(3, i as int),
            decreases k - i,
        {
            tag.push(line[i]);
            i += 1;
            assert(line@.subrange(3, i as int) == line@.subrange(3, i - 1).push(line@[i - 1]));
        }
        assert(rest.take(k - 3) == line@.subrange(3, k as int));
        Some(tag)
    } else {
        None
    }
}

/// Whether `line` closes a fence.
pub fn is_fence_close(line: &Vec<char>) -> (r: bool)
    ensures
        r == is_close(line@),
{
    has_fence(line) && spaces_from(line, 3)
}

/// A fenced block as the extractor sees it: its lower-cased tag and its
/// lines, from the fence-open line on.
pub struct Block {
    pub tag: Seq<char>,
    pub lines: Seq<Seq<char>>,
}

/// The extractor's state after some lines: the blocks already closed, in
/// order, and the block still open, if any.
pub struct Scan {
    pub closed: Seq<Block>,
    pub open: Option<Block>,
}

/// Lines joined with `'\n'` between them.
pub open spec fn join_lines(ls: Seq<Seq<char>>) -> Seq<char>
    decreases ls.len(),
{
    if ls.len() == 0 {
        Seq::empty()
    } else if ls.len() == 1 {
        ls[0]
    } else {
        join_lines(ls.drop_last()) + seq!['\n'] + ls.last()
    }
}

/// One line through the machine. Outside a block a fence-open line starts
/// one and any other line is ignored; inside, every line is kept, and a
/// fence-close line ends the block.
pub open spec fn step(st: Scan, line: Seq<char>) -> Scan {
    match st.open {
        None => match open_tag(line) {
            Some(t) => Scan { closed: st.closed, open: Some(Block { tag: ascii_lower(t), lines: seq![line] }) },
            None => st,
        },
        Some(b) => {
            let b2 = Block { tag: b.tag, lines: b.lines.push(line) };
            if is_close(line) {
                Scan { closed: st.closed.push(b2), open: None }
            } else {
                Scan { closed: st.closed, open: Some(b2) }
            }
        },
    }
}

/// The state after all of `ls`, starting outside any block.
pub open spec fn scan(ls: Seq<Seq<char>>) -> Scan
    decreases ls.len(),
{
    if ls.len() == 0 {
        Scan { closed: Seq::empty(), open: None }
    } else {
        step(scan(ls.drop_last()), ls.last())
    }
}

/// The blocks of a final state: the closed ones, then a block left open at
/// the end, which is kept rather than dropped.
pub open spec fn finish(st: Scan) -> Seq<Block> {
    match st.open {
        Some(b) => st.closed.push(b),
        None => st.closed,
    }
}

/// The sections of a region's text, in order.
pub open spec fn sections_of(text: Seq<char>) -> Seq<Block> {
    finish(scan(lines_of(text)))
}

/// One fenced code block of a marked region: its lower-cased language tag
/// and its text, fence lines included.
pub struct LanguageSection {
    pub language: String,
    pub content: String,
}

/// `s` stands for block `b`.
pub open spec fn section_is(s: LanguageSection, b: Block) -> bool {
    s.language@ == b.tag && s.content@ == join_lines(b.lines)
}

/// Splits the text of one marked region into its sections, in order.
pub fn extract_language_sections(content: &str) -> (r: Vec<LanguageSection>)
    ensures
        r@.len() == sections_of(content@).len(),
        forall|j: int| 0 <= j < r@.len() ==> section_is(#[trigger] r@[j], sections_of(content@)[j]),
{
    let text = chars_of(content);
    let lines = split_lines(&text);
    let ghost ls = lines_of(content@);
    let mut sections: Vec<LanguageSection> = Vec::new();
    let mut in_block = false;
    let mut language: Vec<char> = Vec::new();
    let mut body: Vec<char> = Vec::new();
    let mut i: usize = 0;
    while i < lines.len()
        invariant
            i <= lines@.len() == ls.len(),
            forall|j: int| 0 <= j < ls.len() ==> #[trigger] lines@[j]@ == ls[j],
            sections@.len() == scan(ls.take(i as int)).closed.len(),
            forall|j: int|
                0 <= j < sections@.len() ==> section_is(
                    #[trigger] sections@[j],
                    scan(ls.take(i as int)).closed[j],
                ),
            in_block == scan(ls.take(i as int)).open is Some,
            in_block ==> language@ == scan(ls.take(i as int)).open->0.tag
                && body@ == join_lines(scan(ls.take(i as int)).open->0.lines)
                && scan(ls.take(i as int)).open->0.lines.len() >= 1,
        decreases lines.len() - i,
    {
        let line = &lines[i];
        assert(line@ == ls[i as int]);
        let ghost prev = scan(ls.take(i as int));
        assert(ls.take(i + 1).drop_last() == ls.take(i as int));
        assert(scan(ls.take(i + 1)) == step(prev, ls[i as int]));
        if !in_block {
            match fence_open_tag(line) {
                Some(tag) => {
                    in_block = true;
                    language = to_ascii_lower(&tag);
                    body = Vec::new();
                    push_all(&mut body, line);
                    assert(body@ == join_lines(seq![ls[i as int]]));
                },
                None => {},
            }
        } else {
            body.push('\n');
            push_all(&mut body, line);
            let ghost b = prev.open->0;
            assert(b.lines.push(ls[i as int]).drop_last() == b.lines);
            if is_fence_close(line) {
                let ghost old_sections = sections@;
                sections.push(
                    LanguageSection { language: string_of(&language), content: string_of(&body) },
                );
                assert(forall|j: int|
                    0 <= j < old_sections.len() ==> sections@[j] == old_sections[j]);
                assert(join_lines(b.lines.push(ls[i as int])) == body@);
                in_block = false;
                language = Vec::new();
                body = Vec::new();
            }
        }
        i += 1;
    }
    assert(ls.take(i as int) == ls);
    if in_block {
        sections.push(
            LanguageSection { language: string_of(&language), content: string_of(&body) },
        );
    }
    sections
}

proof fn lemma_open_until(ls: Seq<Seq<char>>, j: int, n: int)
    requires
        0 <= j < n <= ls.len(),
        scan(ls.take(j)).open is None,
        open_tag(ls[j]) is Some,
        forall|k: int| j < k < ls.len() ==> !is_close(#[trigger] ls[k]),
    ensures
        scan(ls.take(n)) == (Scan {
            closed: scan(ls.take(j)).closed,
            open: Some(Block { tag: ascii_lower(open_tag(ls[j])->0), lines: ls.subrange(j, n) }),
        }),
    decreases n - j,
{
    assert(ls.take(n).drop_last() == ls.take(n - 1));
    if n == j + 1 {
        assert(ls.subrange(j, n) == seq![ls[j]]);
    } else {
        lemma_open_until(ls, j, n - 1);
        assert(ls.subrange(j, n) == ls.subrange(j, n - 1).push(ls[n - 1]));
    }
}

/// A fence that is opened and never closed is not dropped: the text still
/// yields a final section, holding every line from the fence-open line to
/// the end of the text, after the sections closed before it.
pub proof fn lemma_unclosed_fence_kept(text: Seq<char>, j: int)
    requires
        0 <= j < lines_of(text).len(),
        scan(lines_of(text).take(j)).open is None,
        open_tag(lines_of(text)[j]) is Some,
        forall|k: int| j < k < lines_of(text).len() ==> !is_close(#[trigger] lines_of(text)[k]),
    ensures
        sections_of(text) == scan(lines_of(text).take(j)).closed.push(
            Block {
                tag: ascii_lower(open_tag(lines_of(text)[j])->0),
                lines: lines_of(text).skip(j),
            },
        ),
{
    let ls = lines_of(text);
    lemma_open_until(ls, j, ls.len() as int);
    assert(ls.take(ls.len() as int) == ls);
    assert(ls.subrange(j, ls.len() as int) == ls.skip(j));
}

/// Lines of which none opens a fence leave the machine where it started.
pub proof fn lemma_no_fence_scan(ls: Seq<Seq<char>>)
    requires
        forall|k: int| 0 <= k < ls.len() ==> open_tag(#[trigger] ls[k]) is None,
    ensures
        scan(ls) == (Scan { closed: Seq::empty(), open: None }),
    decreases ls.len(),
{
    if ls.len() > 0 {
        let init = ls.drop_last();
        assert forall|k: int| 0 <= k < init.len() implies open_tag(#[trigger] init[k]) is None by {
            assert(init[k] == ls[k]);
        }
        lemma_no_fence_scan(init);
    }
}

/// Text in which no line opens a fence has no sections.
pub proof fn lemma_no_fence_no_sections(text: Seq<char>)
    requires
        forall|k: int| 0 <= k < lines_of(text).len() ==> open_tag(#[trigger] lines_of(text)[k]) is None,
    ensures
        sections_of(text).len() == 0,
{
    lemma_no_fence_scan(lines_of(text));
}

/// Two lines that are the same, or that both open a fence with tags that
/// differ only in ASCII case.
pub open spec fn same_up_to_tag_case(l1: Seq<char>, l2: Seq<char>) -> bool {
    l1 == l2 || (open_tag(l1) is Some && open_tag(l2) is Some && ascii_lower(open_tag(l1)->0)
        == ascii_lower(open_tag(l2)->0))
}

/// Two states with the same blocks, block for block, by tag.
pub open spec fn same_tags(a: Scan, b: Scan) -> bool {
    &&& a.closed.len() == b.closed.len()
    &&& forall|j: int| 0 <= j < a.closed.len() ==> (#[trigger] a.closed[j]).tag == b.closed[j].tag
    &&& (a.open is Some <==> b.open is Some)
    &&& a.open is Some ==> a.open->0.tag == b.open->0.tag
}

proof fn lemma_open_not_close(l: Seq<char>)
    requires
        open_tag(l) is Some,
    ensures
        !is_close(l),
{
    let rest = l.skip(3);
    assert(tag_run(rest) > 0);
    assert(is_tag_char(rest[0]));
    assert(!is_space(rest[0]));
}

proof fn lemma_scan_same_tags(ls1: Seq<Seq<char>>, ls2: Seq<Seq<char>>)
    requires
        ls1.len() == ls2.len(),
        forall|k: int| 0 <= k < ls1.len() ==> same_up_to_tag_case(#[trigger] ls1[k], ls2[k]),
    ensures
        same_tags(scan(ls1), scan(ls2)),
    decreases ls1.len(),
{
    if ls1.len() > 0 {
        let (i1, i2) = (ls1.drop_last(), ls2.drop_last());
        assert forall|k: int| 0 <= k < i1.len() implies same_up_to_tag_case(
            #[trigger] i1[k],
            i2[k],
        ) by {
            assert(i1[k] == ls1[k] && i2[k] == ls2[k]);
        }
        lemma_scan_same_tags(i1, i2);
        let (l1, l2) = (ls1.last(), ls2.last());
        assert(same_up_to_tag_case(l1, l2));
        if l1 != l2 {
            lemma_open_not_close(l1);
            lemma_open_not_close(l2);
        }
        let (a, b) = (scan(i1), scan(i2));
        let (a2, b2) = (step(a, l1), step(b, l2));
        assert forall|j: int| 0 <= j < a2.closed.len() implies (#[trigger] a2.closed[j]).tag
            == b2.closed[j].tag by {
            if j < a.closed.len() {
                assert(a.closed[j].tag == b.closed[j].tag);
            }
        }
    }
}

/// Fence tags that differ only in ASCII case give the same sections'
/// languages: two texts whose lines agree but for such tags have as many
/// sections, with the same tag at each position.
pub proof fn lemma_tag_case_ignored(t1: Seq<char>, t2: Seq<char>)
    requires
        lines_of(t1).len() == lines_of(t2).len(),
        forall|k: int|
            0 <= k < lines_of(t1).len() ==> same_up_to_tag_case(
                #[trigger] lines_of(t1)[k],
                lines_of(t2)[k],
            ),
    ensures
        sections_of(t1).len() == sections_of(t2).len(),
        forall|j: int|
            0 <= j < sections_of(t1).len() ==> (#[trigger] sections_of(t1)[j]).tag == sections_of(
                t2,
            )[j].tag,
{
    lemma_scan_same_tags(lines_of(t1), lines_of(t2));
    let (a, b) = (scan(lines_of(t1)), scan(lines_of(t2)));
    assert forall|j: int| 0 <= j < finish(a).len() implies (#[trigger] finish(a)[j]).tag
        == finish(b)[j].tag by {
        if j < a.closed.len() {
            assert(a.closed[j].tag == b.closed[j].tag);
        }
    }
}

} // verus!

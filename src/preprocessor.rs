//! The region scanner and the document transform: each marked region with
//! at least one section is replaced, in place, by its rendered widget.
use vstd::prelude::*;
use crate::render::{generate_tabs_html, render, sections_view};
use crate::sections::{
    extract_language_sections, join_lines, lemma_no_fence_no_sections, open_tag, sections_of, Block,
};
use crate::text::{chars_of, contains, find, find_from, lemma_find_from, lines_of, occurs_at, push_all, string_of};

verus! {

/// The literal that opens a marked region.
pub open spec fn start_marker() -> Seq<char> {
    "<!-- langtabs-start -->"@
}

/// The literal that closes a marked region.
pub open spec fn end_marker() -> Seq<char> {
    "<!-- langtabs-end -->"@
}

/// A marked region: its whole text, markers included, and the text between
/// the markers.
pub struct Region {
    pub whole: Seq<char>,
    pub inner: Seq<char>,
}

/// The span `(p, e)` of the first marked region of `s` at or after `k`: `p`
/// is the first start marker there, and the region ends at `e`, just past
/// the nearest end marker after that start marker. A start marker with no
/// end marker after it opens no region.
pub open spec fn next_region(s: Seq<char>, k: nat) -> Option<(nat, nat)> {
    match find_from(s, start_marker(), k) {
        None => None,
        Some(p) => match find_from(s, end_marker(), p + start_marker().len()) {
            None => None,
            Some(q) => Some((p, q + end_marker().len())),
        },
    }
}

/// What the span of the next region is made of.
pub proof fn lemma_next_region(s: Seq<char>, k: nat)
    ensures
        start_marker().len() > 0,
        end_marker().len() > 0,
        match next_region(s, k) {
            Some((p, e)) => {
                &&& k <= p
                &&& p + start_marker().len() + end_marker().len() <= e <= s.len()
                &&& occurs_at(s, start_marker(), p as int)
                &&& occurs_at(s, end_marker(), e - end_marker().len())
                &&& forall|j: int| k <= j < p ==> !occurs_at(s, start_marker(), j)
            },
            None => true,
        },
{
    reveal_strlit("<!-- langtabs-start -->");
    reveal_strlit("<!-- langtabs-end -->");
    lemma_find_from(s, start_marker(), k);
    if let Some(p) = find_from(s, start_marker(), k) {
        lemma_find_from(s, end_marker(), p + start_marker().len());
    }
}

/// The marked regions of `s` from position `k` on, left to right, each next
/// one sought after the end of the last.
pub open spec fn regions_from(s: Seq<char>, k: nat) -> Seq<Region>
    decreases s.len() + 1 - k,
{
    match next_region(s, k) {
        None => Seq::empty(),
        Some((p, e)) => {
            proof {
                lemma_next_region(s, k);
            }
            seq![
                Region {
                    whole: s.subrange(p as int, e as int),
                    inner: s.subrange((p + start_marker().len()) as int, e - end_marker().len()),
                },
            ] + regions_from(s, e)
        },
    }
}

/// The marked regions of a document, in order.
pub open spec fn regions(s: Seq<char>) -> Seq<Region> {
    regions_from(s, 0)
}

/// Relies on `regex::Regex::captures_iter`, whose matches are leftmost-first
/// and never overlap, each search starting where the last match ended. The
/// pattern is the escaped start marker, a lazy `[\s\S]*?` group and the
/// escaped end marker: each match is a start marker and the nearest end
/// marker after it, group 1 the text between.
#[verifier::external_body]
fn marked_regions(content: &str) -> (r: Vec<(String, String)>)
    ensures
        r@.len() == regions(content@).len(),
        forall|i: int|
            0 <= i < r@.len() ==> (#[trigger] r@[i]).0@ == regions(content@)[i].whole && r@[i].1@
                == regions(content@)[i].inner,
{
    let pattern = format!(
        r"{}([\s\S]*?){}",
        regex::escape("<!-- langtabs-start -->"),
        regex::escape("<!-- langtabs-end -->")
    );
    let re = regex::Regex::new(&pattern).unwrap();
    re.captures_iter(content).map(|c| (c[0].to_string(), c[1].to_string())).collect()
}


/// The tags and texts of a run of blocks.
pub open spec fn blocks_view(bs: Seq<Block>) -> Seq<(Seq<char>, Seq<char>)> {
    bs.map_values(|b: Block| (b.tag, join_lines(b.lines)))
}

/// What takes the place of a region: its widget if it has sections, else
/// its own text, untouched.
pub open spec fn replacement(r: Region) -> Seq<char> {
    let secs = sections_of(r.inner);
    if secs.len() == 0 {
        r.whole
    } else {
        render(blocks_view(secs))
    }
}

/// The document from position `k` on, each marked region spliced out by its
/// span and replaced; the text between regions is copied as it is.
pub open spec fn splice_from(s: Seq<char>, k: nat) -> Seq<char>
    decreases s.len() + 1 - k,
{
    match next_region(s, k) {
        None => s.skip(k as int),
        Some((p, e)) => {
            proof {
                lemma_next_region(s, k);
            }
            s.subrange(k as int, p as int) + replacement(regions_from(s, k)[0]) + splice_from(
                s,
                e,
            )
        },
    }
}

/// The transformed document.
pub open spec fn transform(doc: Seq<char>) -> Seq<char> {
    splice_from(doc, 0)
}

proof fn lemma_first_at(s: Seq<char>, pat: Seq<char>, k: nat, p: nat)
    requires
        k <= p,
        occurs_at(s, pat, p as int),
        forall|j: int| k <= j < p ==> !occurs_at(s, pat, j),
    ensures
        find_from(s, pat, k) == Some(p),
{
    lemma_find_from(s, pat, k);
}

/// The first copy at or after `k` of the next region's text is the region
/// itself: every copy starts with a start marker, and none stands between.
proof fn lemma_own_span(s: Seq<char>, k: nat)
    requires
        next_region(s, k) is Some,
    ensures
        find_from(s, regions_from(s, k)[0].whole, k) == Some((next_region(s, k)->0).0),
{
    lemma_next_region(s, k);
    let (p, e) = next_region(s, k)->0;
    let whole = s.subrange(p as int, e as int);
    let n = start_marker().len();
    assert(regions_from(s, k)[0].whole == whole);
    assert forall|j: int| k <= j < p implies !occurs_at(s, whole, j) by {
        if occurs_at(s, whole, j) {
            assert(s.subrange(j, j + n) == whole.take(n as int));
            assert(s.subrange(p as int, (p + n) as int) == whole.take(n as int));
            assert(occurs_at(s, start_marker(), j));
        }
    }
    lemma_first_at(s, whole, k, p);
}

/// Appends `s[from..to]` to `out`.
fn push_range(out: &mut Vec<char>, s: &Vec<char>, from: usize, to: usize)
    requires
        from <= to <= s.len(),
    ensures
        final(out)@ == old(out)@ + s@.subrange(from as int, to as int),
{
    let mut i: usize = from;
    while i < to
        invariant
            from <= i <= to <= s.len(),
            out@ == old(out)@ + s@.subrange(from as int, i as int),
        decreases to - i,
    {
        out.push(s[i]);
        i += 1;
        assert(s@.subrange(from as int, i as int) == s@.subrange(from as int, i - 1).push(
            s@[i - 1],
        ));
    }
}

/// Replaces every marked region of a chapter's text that holds at least one
/// fenced section with its tab widget, by the region's own span; regions
/// without sections and the text around the regions are kept as they are.
pub fn process_markdown(content: &str) -> (r: String)
    ensures
        r@ == transform(content@),
{
    let text = chars_of(content);
    let start = chars_of("<!-- langtabs-start -->");
    let end = chars_of("<!-- langtabs-end -->");
    if find(&text, &start, 0).is_none() || find(&text, &end, 0).is_none() {
        proof {
            lemma_no_regions(content@);
            assert(content@.skip(0) == content@);
        }
        return string_of(&text);
    }
    let found = marked_regions(content);
    let ghost s = content@;
    let ghost rs = regions(s);
    let mut out: Vec<char> = Vec::new();
    let mut cursor: usize = 0;
    let mut i: usize = 0;
    assert(rs.skip(0) == rs);
    while i < found.len()
        invariant
            i <= found@.len() == rs.len(),
            rs == regions(s),
            s == content@,
            text@ == s,
            forall|j: int|
                0 <= j < found@.len() ==> (#[trigger] found@[j]).0@ == rs[j].whole && found@[j].1@
                    == rs[j].inner,
            cursor <= s.len(),
            regions_from(s, cursor as nat) == rs.skip(i as int),
            out@ + splice_from(s, cursor as nat) == transform(s),
        decreases found.len() - i,
    {
        let ghost region = rs[i as int];
        proof {
            lemma_next_region(s, cursor as nat);
            assert(rs.skip(i as int)[0] == region);
            lemma_own_span(s, cursor as nat);
        }
        let ghost pe = next_region(s, cursor as nat)->0;
        let whole = chars_of(found[i].0.as_str());
        let p = match find(&text, &whole, cursor) {
            Some(p) => p,
            None => {
                return string_of(&text);
            },
        };
        assert(p == pe.0);
        push_range(&mut out, &text, cursor, p);
        let sections = extract_language_sections(found[i].1.as_str());
        if sections.len() > 0 {
            let html = generate_tabs_html(sections.as_slice());
            assert(sections_view(sections@) == blocks_view(sections_of(region.inner)));
            push_all(&mut out, &chars_of(html.as_str()));
        } else {
            push_all(&mut out, &whole);
        }
        cursor = p + whole.len();
        i += 1;
        proof {
            assert(cursor == pe.1);
            assert(rs.skip(i as int) == rs.skip(i - 1).drop_first());
            assert(regions_from(s, cursor as nat) == rs.skip(i as int));
        }
        assert(out@ + splice_from(s, cursor as nat) == transform(s));
    }
    proof {
        lemma_next_region(s, cursor as nat);
        assert(s.subrange(cursor as int, s.len() as int) == s.skip(cursor as int));
    }
    push_range(&mut out, &text, cursor, text.len());
    string_of(&out)
}

/// A document in which either marker is missing has no marked region.
proof fn lemma_no_regions(doc: Seq<char>)
    requires
        find_from(doc, start_marker(), 0) is None || find_from(doc, end_marker(), 0) is None,
    ensures
        next_region(doc, 0) is None,
{
    lemma_find_from(doc, end_marker(), 0);
    if let Some(p) = find_from(doc, start_marker(), 0) {
        lemma_find_from(doc, end_marker(), p + start_marker().len());
    }
}

/// A document that lacks the start marker or the end marker comes out
/// unchanged.
pub proof fn lemma_identity_without_markers(doc: Seq<char>)
    requires
        !contains(doc, start_marker()) || !contains(doc, end_marker()),
    ensures
        transform(doc) == doc,
{
    lemma_find_from(doc, start_marker(), 0);
    lemma_find_from(doc, end_marker(), 0);
    lemma_no_regions(doc);
    assert(doc.skip(0) == doc);
}

proof fn lemma_splice_unchanged(s: Seq<char>, k: nat)
    requires
        k <= s.len(),
        forall|i: int|
            0 <= i < regions_from(s, k).len() ==> sections_of(
                #[trigger] regions_from(s, k)[i].inner,
            ).len() == 0,
    ensures
        splice_from(s, k) == s.skip(k as int),
    decreases s.len() + 1 - k,
{
    lemma_next_region(s, k);
    if let Some((p, e)) = next_region(s, k) {
        let rs = regions_from(s, k);
        assert(sections_of(rs[0].inner).len() == 0);
        assert forall|i: int|
            0 <= i < regions_from(s, e).len() implies sections_of(
            #[trigger] regions_from(s, e)[i].inner,
        ).len() == 0 by {
            assert(regions_from(s, e)[i] == rs[i + 1]);
        }
        lemma_splice_unchanged(s, e);
        assert(s.subrange(k as int, p as int) + s.subrange(p as int, e as int) + s.skip(e as int)
            == s.skip(k as int));
    }
}

/// Marked regions in which no line opens a fence, such as a start marker
/// followed directly by an end marker, leave the whole document unchanged:
/// no widget and no wrapper is put in their place.
pub proof fn lemma_empty_regions_unchanged(doc: Seq<char>)
    requires
        forall|i: int, k: int|
            0 <= i < regions(doc).len() && 0 <= k < lines_of(regions(doc)[i].inner).len()
                ==> open_tag(#[trigger] lines_of(#[trigger] regions(doc)[i].inner)[k]) is None,
    ensures
        transform(doc) == doc,
{
    let rs = regions(doc);
    assert forall|i: int| 0 <= i < rs.len() implies sections_of(#[trigger] rs[i].inner).len()
        == 0 by {
        lemma_no_fence_no_sections(rs[i].inner);
    }
    lemma_splice_unchanged(doc, 0);
    assert(doc.skip(0) == doc);
}

/// Each marker opens with `'<'` and holds no other.
proof fn lemma_marker_shape()
    ensures
        start_marker().len() > 0 && start_marker()[0] == '<',
        end_marker().len() > 0 && end_marker()[0] == '<',
        forall|i: int| 0 < i < start_marker().len() ==> #[trigger] start_marker()[i] != '<',
        forall|i: int| 0 < i < end_marker().len() ==> #[trigger] end_marker()[i] != '<',
{
    reveal_strlit("<!-- langtabs-start -->");
    reveal_strlit("<!-- langtabs-end -->");
}

/// Where `s` holds `m` at `at` and `m` starts with its only `'<'`, an
/// occurrence of `m` starting before `at` lies wholly before `at`.
proof fn lemma_no_straddle(s: Seq<char>, m: Seq<char>, at: int, j: int)
    requires
        m.len() > 0 && m[0] == '<',
        forall|i: int| 0 < i < m.len() ==> #[trigger] m[i] != '<',
        occurs_at(s, m, at),
        occurs_at(s, m, j),
        j < at,
    ensures
        j + m.len() <= at,
{
    if j + m.len() > at {
        assert(s[at] == s.subrange(at, at + m.len())[0]);
        assert(s[at] == s.subrange(j, j + m.len())[at - j]);
    }
}

/// An occurrence of `m` in `s` that lies wholly inside `s[lo..hi]` is one
/// in that piece.
proof fn lemma_inside(s: Seq<char>, m: Seq<char>, lo: int, hi: int, j: int)
    requires
        0 <= lo <= j,
        j + m.len() <= hi <= s.len(),
        occurs_at(s, m, j),
    ensures
        contains(s.subrange(lo, hi), m),
{
    assert(s.subrange(lo, hi).subrange(j - lo, j - lo + m.len()) == s.subrange(j, j + m.len()));
    assert(occurs_at(s.subrange(lo, hi), m, j - lo));
}

/// A document with one marked region, in which no line opens a fence, and
/// no marker elsewhere (`a + start + x + end + b`, none of `a`, `x`, `b`
/// holding a marker) comes out unchanged: markers, region text and the
/// text around it are all kept, and no wrapper is added.
pub proof fn lemma_lone_empty_region_unchanged(a: Seq<char>, x: Seq<char>, b: Seq<char>)
    requires
        !contains(a, start_marker()) && !contains(a, end_marker()),
        !contains(x, start_marker()) && !contains(x, end_marker()),
        !contains(b, start_marker()) && !contains(b, end_marker()),
        forall|k: int| 0 <= k < lines_of(x).len() ==> open_tag(#[trigger] lines_of(x)[k]) is None,
    ensures
        transform(a + start_marker() + x + end_marker() + b) == a + start_marker() + x
            + end_marker() + b,
{
    let (sm, em) = (start_marker(), end_marker());
    let doc = a + sm + x + em + b;
    let p = a.len() as int;
    let q = p + sm.len() + x.len();
    let e = q + em.len();
    lemma_marker_shape();
    assert(doc.subrange(0, p) == a);
    assert(doc.subrange(p, p + sm.len()) == sm);
    assert(doc.subrange(p + sm.len(), q) == x);
    assert(doc.subrange(q, e) == em);
    assert(doc.subrange(e, doc.len() as int) == b);
    assert forall|j: int| 0 <= j < p implies !occurs_at(doc, sm, j) by {
        if occurs_at(doc, sm, j) {
            lemma_no_straddle(doc, sm, p, j);
            lemma_inside(doc, sm, 0, p, j);
        }
    }
    lemma_first_at(doc, sm, 0, p as nat);
    assert forall|j: int| p + sm.len() <= j < q implies !occurs_at(doc, em, j) by {
        if occurs_at(doc, em, j) {
            lemma_no_straddle(doc, em, q, j);
            lemma_inside(doc, em, p + sm.len(), q, j);
        }
    }
    lemma_first_at(doc, em, (p + sm.len()) as nat, q as nat);
    assert(next_region(doc, 0) == Some((p as nat, e as nat)));
    lemma_find_from(doc, sm, e as nat);
    if let Some(j) = find_from(doc, sm, e as nat) {
        lemma_inside(doc, sm, e, doc.len() as int, j as int);
    }
    assert(regions_from(doc, e as nat).len() == 0);
    assert(regions(doc) == seq![Region { whole: doc.subrange(p, e), inner: x }]);
    lemma_empty_regions_unchanged(doc);
}

} // verus!

//! Conversion of OOXML (the DOCX markup model) into simplified HTML.
//!
//! The document is split into paragraph elements; within each paragraph the
//! text runs are concatenated in order, bold and italic flags found anywhere
//! inside the paragraph apply to the whole paragraph, and blip references
//! to embedded images are resolved against the relocation map by substring
//! containment between the relationship id and the image paths (an
//! approximate resolution, deliberately so).  Every paragraph emits a `<p>`
//! element, an empty one included; a document without any paragraph
//! boundaries falls back to stripping every tag from the raw markup.

use vstd::prelude::*;
use crate::strutil::{
    match_at,
    find_from,
    contains_sub,
    after_last_slash,
    str_to_chars,
    chars_to_string,
    copy_range,
    append_chars,
    is_match_at,
    find_pat,
    contains_pat,
    basename_of,
};
use crate::pathmap::PathUrlMap;

verus! {

// ---------------------------------------------------------------------------
// Paragraphs
// ---------------------------------------------------------------------------

/// A paragraph element starts at `p`: `<w:p`, attributes up to the first
/// `>`, then content up to the first `</w:p>`.
pub open spec fn para_cond(s: Seq<char>, p: int) -> bool {
    &&& match_at(s, "<w:p"@, p)
    &&& find_from(s, ">"@, p + 4) is Some
    &&& find_from(s, "</w:p>"@, find_from(s, ">"@, p + 4)->0 + 1) is Some
}

/// The `>` closing the paragraph's opening tag.
pub open spec fn para_gt(s: Seq<char>, p: int) -> int {
    find_from(s, ">"@, p + 4)->0
}

/// Where the paragraph's `</w:p>` begins.
pub open spec fn para_close(s: Seq<char>, p: int) -> int {
    find_from(s, "</w:p>"@, para_gt(s, p) + 1)->0
}

/// The paragraph's inner markup.
pub open spec fn para_content(s: Seq<char>, p: int) -> Seq<char> {
    s.subrange(para_gt(s, p) + 1, para_close(s, p))
}

/// The leftmost paragraph start at or after `i`.
pub open spec fn find_para(s: Seq<char>, i: int) -> Option<int>
    decreases s.len() - i + 1,
{
    if i < 0 || i + 4 > s.len() {
        None
    } else if para_cond(s, i) {
        Some(i)
    } else {
        find_para(s, i + 1)
    }
}

/// What `find_para` reports holds of its result.
pub proof fn lemma_find_para(s: Seq<char>, i: int)
    requires
        0 <= i,
    ensures
        find_para(s, i) matches Some(p) ==> i <= p && para_cond(s, p),
    decreases s.len() - i + 1,
{
    if !(i + 4 > s.len()) && !para_cond(s, i) {
        lemma_find_para(s, i + 1);
    }
}

// ---------------------------------------------------------------------------
// Text runs
// ---------------------------------------------------------------------------

/// A text run starts at `q`: `<w:t`, attributes up to `>`, text up to the
/// first `<`, which must open `</w:t>`.
pub open spec fn text_cond(c: Seq<char>, q: int) -> bool {
    &&& match_at(c, "<w:t"@, q)
    &&& find_from(c, ">"@, q + 4) is Some
    &&& find_from(c, "<"@, find_from(c, ">"@, q + 4)->0 + 1) is Some
    &&& match_at(c, "</w:t>"@, find_from(c, "<"@, find_from(c, ">"@, q + 4)->0 + 1)->0)
}

/// The `>` closing the run's opening tag.
pub open spec fn text_gt(c: Seq<char>, q: int) -> int {
    find_from(c, ">"@, q + 4)->0
}

/// Where the run's `</w:t>` begins.
pub open spec fn text_lt(c: Seq<char>, q: int) -> int {
    find_from(c, "<"@, text_gt(c, q) + 1)->0
}

/// The leftmost text run at or after `i`.
pub open spec fn find_text(c: Seq<char>, i: int) -> Option<int>
    decreases c.len() - i + 1,
{
    if i < 0 || i + 4 > c.len() {
        None
    } else if text_cond(c, i) {
        Some(i)
    } else {
        find_text(c, i + 1)
    }
}

/// What `find_text` reports holds of its result.
pub proof fn lemma_find_text(c: Seq<char>, i: int)
    requires
        0 <= i,
    ensures
        find_text(c, i) matches Some(q) ==> i <= q && text_cond(c, q),
    decreases c.len() - i + 1,
{
    if !(i + 4 > c.len()) && !text_cond(c, i) {
        lemma_find_text(c, i + 1);
    }
}

/// All text-run contents from scan position `i` on, concatenated.
pub open spec fn texts_from(c: Seq<char>, i: int) -> Seq<char>
    decreases c.len() - i + 1,
    via texts_from_dec
{
    if i < 0 {
        Seq::empty()
    } else {
        match find_text(c, i) {
            None => Seq::empty(),
            Some(q) => c.subrange(text_gt(c, q) + 1, text_lt(c, q)) + texts_from(
                c,
                text_lt(c, q) + 6,
            ),
        }
    }
}

#[via_fn]
proof fn texts_from_dec(c: Seq<char>, i: int) {
    if i >= 0 {
        reveal_strlit("</w:t>");
        lemma_find_text(c, i);
        match find_text(c, i) {
            Some(q) => {
                crate::strutil::lemma_find_from(c, ">"@, q + 4);
                crate::strutil::lemma_find_from(c, "<"@, text_gt(c, q) + 1);
            },
            None => {},
        }
    }
}

// ---------------------------------------------------------------------------
// Blip references (embedded images)
// ---------------------------------------------------------------------------

/// A self-closing blip element starts at `q`, carrying a non-empty
/// `r:embed` relationship id inside the tag.
pub open spec fn blip_cond(c: Seq<char>, q: int) -> bool {
    &&& match_at(c, "<a:blip"@, q)
    &&& find_from(c, ">"@, q + 7) is Some
    &&& {
        let g = find_from(c, ">"@, q + 7)->0;
        &&& g >= q + 8
        &&& c[g - 1] == '/'
        &&& find_from(c, "r:embed=\""@, q + 7) is Some
        &&& {
            let a = find_from(c, "r:embed=\""@, q + 7)->0;
            &&& a + 9 <= g - 1
            &&& find_from(c, "\""@, a + 9) is Some
            &&& {
                let b = find_from(c, "\""@, a + 9)->0;
                a + 9 < b < g - 1
            }
        }
    }
}

/// The `>` ending the blip element.
pub open spec fn blip_gt(c: Seq<char>, q: int) -> int {
    find_from(c, ">"@, q + 7)->0
}

/// The captured relationship id of the blip at `q`.
pub open spec fn blip_rid(c: Seq<char>, q: int) -> Seq<char> {
    let a = find_from(c, "r:embed=\""@, q + 7)->0;
    c.subrange(a + 9, find_from(c, "\""@, a + 9)->0)
}

/// The leftmost blip element at or after `i`.
pub open spec fn find_blip(c: Seq<char>, i: int) -> Option<int>
    decreases c.len() - i + 1,
{
    if i < 0 || i + 7 > c.len() {
        None
    } else if blip_cond(c, i) {
        Some(i)
    } else {
        find_blip(c, i + 1)
    }
}

/// What `find_blip` reports holds of its result.
pub proof fn lemma_find_blip(c: Seq<char>, i: int)
    requires
        0 <= i,
    ensures
        find_blip(c, i) matches Some(q) ==> i <= q && blip_cond(c, q),
    decreases c.len() - i + 1,
{
    if !(i + 7 > c.len()) && !blip_cond(c, i) {
        lemma_find_blip(c, i + 1);
    }
}

/// The URL of the first map entry whose path contains the relationship id,
/// or whose basename the id contains, scanning bindings in insertion order
/// from `j`.
pub open spec fn resolve_rid(
    es: Seq<(Seq<char>, Seq<char>)>,
    rid: Seq<char>,
    j: int,
) -> Option<Seq<char>>
    decreases es.len() - j + 1,
{
    if j < 0 || j >= es.len() {
        None
    } else if contains_sub(es[j].0, rid) || contains_sub(rid, after_last_slash(es[j].0)) {
        Some(es[j].1)
    } else {
        resolve_rid(es, rid, j + 1)
    }
}

/// The image element emitted for a resolved blip.
pub open spec fn img_html(u: Seq<char>) -> Seq<char> {
    "<img src=\""@ + u + "\" alt=\"image\" />"@
}

/// The image elements emitted for the blips from scan position `i` on;
/// blips whose id resolves to nothing emit nothing.
pub open spec fn blips_from(c: Seq<char>, es: Seq<(Seq<char>, Seq<char>)>, i: int) -> Seq<char>
    decreases c.len() - i + 1,
    via blips_from_dec
{
    if i < 0 {
        Seq::empty()
    } else {
        match find_blip(c, i) {
            None => Seq::empty(),
            Some(q) => (match resolve_rid(es, blip_rid(c, q), 0) {
                Some(u) => img_html(u),
                None => Seq::empty(),
            }) + blips_from(c, es, blip_gt(c, q) + 1),
        }
    }
}

#[via_fn]
proof fn blips_from_dec(c: Seq<char>, es: Seq<(Seq<char>, Seq<char>)>, i: int) {
    if i >= 0 {
        lemma_find_blip(c, i);
        match find_blip(c, i) {
            Some(q) => {
                crate::strutil::lemma_find_from(c, ">"@, q + 7);
            },
            None => {},
        }
    }
}

// ---------------------------------------------------------------------------
// Paragraph assembly
// ---------------------------------------------------------------------------

/// The paragraph carries a bold flag somewhere inside.
pub open spec fn para_bold(c: Seq<char>) -> bool {
    contains_sub(c, "<w:b/>"@)
}

/// The paragraph carries an italic flag somewhere inside.
pub open spec fn para_italic(c: Seq<char>) -> bool {
    contains_sub(c, "<w:i/>"@)
}

/// The paragraph's inner HTML: its texts, then its images.
pub open spec fn para_html(c: Seq<char>, es: Seq<(Seq<char>, Seq<char>)>) -> Seq<char> {
    texts_from(c, 0) + blips_from(c, es, 0)
}

/// The emitted `<p>` element, wrapped per the paragraph's flags; an empty
/// paragraph still emits `<p></p>` to preserve layout spacing.
pub open spec fn para_wrap(c: Seq<char>, es: Seq<(Seq<char>, Seq<char>)>) -> Seq<char> {
    let ph = para_html(c, es);
    if ph.len() == 0 {
        "<p></p>\n"@
    } else if para_bold(c) && para_italic(c) {
        "<p><strong><em>"@ + ph + "</em></strong></p>\n"@
    } else if para_bold(c) {
        "<p><strong>"@ + ph + "</strong></p>\n"@
    } else if para_italic(c) {
        "<p><em>"@ + ph + "</em></p>\n"@
    } else {
        "<p>"@ + ph + "</p>\n"@
    }
}

/// The elements emitted for the paragraphs from scan position `i` on.
pub open spec fn paras_from(s: Seq<char>, es: Seq<(Seq<char>, Seq<char>)>, i: int) -> Seq<char>
    decreases s.len() - i + 1,
    via paras_from_dec
{
    if i < 0 {
        Seq::empty()
    } else {
        match find_para(s, i) {
            None => Seq::empty(),
            Some(p) => para_wrap(para_content(s, p), es) + paras_from(s, es, para_close(s, p) + 6),
        }
    }
}

#[via_fn]
proof fn paras_from_dec(s: Seq<char>, es: Seq<(Seq<char>, Seq<char>)>, i: int) {
    if i >= 0 {
        reveal_strlit("</w:p>");
        lemma_find_para(s, i);
        match find_para(s, i) {
            Some(p) => {
                crate::strutil::lemma_find_from(s, ">"@, p + 4);
                crate::strutil::lemma_find_from(s, "</w:p>"@, para_gt(s, p) + 1);
            },
            None => {},
        }
    }
}

// ---------------------------------------------------------------------------
// Tag-stripping fallback
// ---------------------------------------------------------------------------

/// The raw markup from position `i` on with every `<...>` tag removed; a
/// lone `<` with nothing before the next `>` stays.
pub open spec fn strip_from(s: Seq<char>, i: int) -> Seq<char>
    decreases s.len() - i + 1,
    via strip_from_dec
{
    if !(0 <= i < s.len()) {
        Seq::empty()
    } else if s[i] == '<' && find_from(s, ">"@, i + 1) is Some && find_from(s, ">"@, i + 1)->0 >= i
        + 2 {
        strip_from(s, find_from(s, ">"@, i + 1)->0 + 1)
    } else {
        seq![s[i]] + strip_from(s, i + 1)
    }
}

#[via_fn]
proof fn strip_from_dec(s: Seq<char>, i: int) {
    if 0 <= i < s.len() {
        crate::strutil::lemma_find_from(s, ">"@, i + 1);
    }
}

/// The whole converted document: paragraph elements where the markup has
/// paragraph boundaries, the tag-stripping fallback where it has none.
pub open spec fn spec_docx_html(s: Seq<char>, es: Seq<(Seq<char>, Seq<char>)>) -> Seq<char> {
    if find_para(s, 0) is None {
        strip_from(s, 0)
    } else {
        paras_from(s, es, 0)
    }
}

// ---------------------------------------------------------------------------
// Executable scanners
// ---------------------------------------------------------------------------

/// Tries to read a paragraph element at `p`; reports its `>` and `</w:p>`.
fn para_try(s: &Vec<char>, p: usize) -> (r: Option<(usize, usize)>)
    ensures
        r is Some <==> para_cond(s@, p as int),
        r matches Some(t) ==> t.0 == para_gt(s@, p as int) && t.1 == para_close(s@, p as int),
{
    proof {
        reveal_strlit("<w:p");
        reveal_strlit(">");
        crate::strutil::lemma_vec_len_bound(s);
    }
    let wp = str_to_chars("<w:p");
    if !is_match_at(s, &wp, p) {
        return None;
    }
    let gtp = str_to_chars(">");
    let g = match find_pat(s, &gtp, p + 4) {
        None => {
            return None;
        },
        Some(g) => g,
    };
    proof {
        crate::strutil::lemma_find_from(s@, ">"@, p + 4);
    }
    let cl = str_to_chars("</w:p>");
    let e = match find_pat(s, &cl, g + 1) {
        None => {
            return None;
        },
        Some(e) => e,
    };
    Some((g, e))
}

/// Finds the leftmost paragraph at or after `i` along with its bounds.
fn find_para_exec(s: &Vec<char>, i: usize) -> (r: Option<(usize, usize, usize)>)
    ensures
        r is Some <==> find_para(s@, i as int) is Some,
        r matches Some(t) ==> find_para(s@, i as int) == Some(t.0 as int) && t.1 == para_gt(
            s@,
            t.0 as int,
        ) && t.2 == para_close(s@, t.0 as int) && para_cond(s@, t.0 as int),
{
    if s.len() < 4 {
        return None;
    }
    let limit: usize = s.len() - 4;
    let mut p: usize = i;
    if p > limit {
        return None;
    }
    while p < limit + 1
        invariant
            i <= p,
            limit < usize::MAX,
            4 <= s@.len(),
            limit == s@.len() - 4,
            find_para(s@, i as int) == find_para(s@, p as int),
        decreases limit + 1 - p,
    {
        match para_try(s, p) {
            Some((g, e)) => {
                return Some((p, g, e));
            },
            None => {},
        }
        p += 1;
    }
    None
}

/// Tries to read a text run at `q`; reports its `>` and `</w:t>`.
fn text_try(c: &Vec<char>, q: usize) -> (r: Option<(usize, usize)>)
    ensures
        r is Some <==> text_cond(c@, q as int),
        r matches Some(t) ==> t.0 == text_gt(c@, q as int) && t.1 == text_lt(c@, q as int),
{
    proof {
        reveal_strlit("<w:t");
        reveal_strlit(">");
        reveal_strlit("<");
        crate::strutil::lemma_vec_len_bound(c);
    }
    let wt = str_to_chars("<w:t");
    if !is_match_at(c, &wt, q) {
        return None;
    }
    let gtp = str_to_chars(">");
    let g = match find_pat(c, &gtp, q + 4) {
        None => {
            return None;
        },
        Some(g) => g,
    };
    proof {
        crate::strutil::lemma_find_from(c@, ">"@, q + 4);
    }
    let ltp = str_to_chars("<");
    let d = match find_pat(c, &ltp, g + 1) {
        None => {
            return None;
        },
        Some(d) => d,
    };
    let closep = str_to_chars("</w:t>");
    if !is_match_at(c, &closep, d) {
        return None;
    }
    Some((g, d))
}

/// Finds the leftmost text run at or after `i` along with its bounds.
fn find_text_exec(c: &Vec<char>, i: usize) -> (r: Option<(usize, usize, usize)>)
    ensures
        r is Some <==> find_text(c@, i as int) is Some,
        r matches Some(t) ==> find_text(c@, i as int) == Some(t.0 as int) && t.1 == text_gt(
            c@,
            t.0 as int,
        ) && t.2 == text_lt(c@, t.0 as int) && text_cond(c@, t.0 as int),
{
    if c.len() < 4 {
        return None;
    }
    let limit: usize = c.len() - 4;
    let mut q: usize = i;
    if q > limit {
        return None;
    }
    while q < limit + 1
        invariant
            i <= q,
            limit < usize::MAX,
            4 <= c@.len(),
            limit == c@.len() - 4,
            find_text(c@, i as int) == find_text(c@, q as int),
        decreases limit + 1 - q,
    {
        match text_try(c, q) {
            Some((g, d)) => {
                return Some((q, g, d));
            },
            None => {},
        }
        q += 1;
    }
    None
}

/// Tries to read a blip element at `q`; reports its `>` and relationship id.
fn blip_try(c: &Vec<char>, q: usize) -> (r: Option<(usize, Vec<char>)>)
    ensures
        r is Some <==> blip_cond(c@, q as int),
        r matches Some(t) ==> t.0 == blip_gt(c@, q as int) && t.1@ == blip_rid(c@, q as int),
{
    proof {
        reveal_strlit("<a:blip");
        reveal_strlit(">");
        reveal_strlit("r:embed=\"");
        reveal_strlit("\"");
        crate::strutil::lemma_vec_len_bound(c);
    }
    let bp = str_to_chars("<a:blip");
    if !is_match_at(c, &bp, q) {
        return None;
    }
    let gtp = str_to_chars(">");
    let g = match find_pat(c, &gtp, q + 7) {
        None => {
            return None;
        },
        Some(g) => g,
    };
    proof {
        crate::strutil::lemma_find_from(c@, ">"@, q + 7);
    }
    if g < q + 8 {
        return None;
    }
    if c[g - 1] != '/' {
        return None;
    }
    let emb = str_to_chars("r:embed=\"");
    let a = match find_pat(c, &emb, q + 7) {
        None => {
            return None;
        },
        Some(a) => a,
    };
    proof {
        crate::strutil::lemma_find_from(c@, "r:embed=\""@, q + 7);
        reveal_strlit("r:embed=\"");
    }
    if a + 9 > g - 1 {
        return None;
    }
    let qp = str_to_chars("\"");
    let b = match find_pat(c, &qp, a + 9) {
        None => {
            return None;
        },
        Some(b) => b,
    };
    proof {
        crate::strutil::lemma_find_from(c@, "\""@, a + 9);
    }
    if !(a + 9 < b && b < g - 1) {
        return None;
    }
    let rid = copy_range(c, a + 9, b);
    Some((g, rid))
}

/// Finds the leftmost blip element at or after `i` along with its id.
fn find_blip_exec(c: &Vec<char>, i: usize) -> (r: Option<(usize, usize, Vec<char>)>)
    ensures
        r is Some <==> find_blip(c@, i as int) is Some,
        r matches Some(t) ==> find_blip(c@, i as int) == Some(t.0 as int) && t.1 == blip_gt(
            c@,
            t.0 as int,
        ) && t.2@ == blip_rid(c@, t.0 as int) && blip_cond(c@, t.0 as int),
{
    if c.len() < 7 {
        return None;
    }
    let limit: usize = c.len() - 7;
    let mut q: usize = i;
    if q > limit {
        return None;
    }
    while q < limit + 1
        invariant
            i <= q,
            limit < usize::MAX,
            7 <= c@.len(),
            limit == c@.len() - 7,
            find_blip(c@, i as int) == find_blip(c@, q as int),
        decreases limit + 1 - q,
    {
        match blip_try(c, q) {
            Some((g, rid)) => {
                return Some((q, g, rid));
            },
            None => {},
        }
        q += 1;
    }
    None
}

/// Scans the map's bindings in insertion order for the first one the
/// relationship id resolves against; reports its index.
fn resolve_rid_exec(map: &PathUrlMap, rid: &Vec<char>) -> (r: Option<usize>)
    ensures
        r matches Some(j) ==> j < map@.len() && resolve_rid(map@, rid@, 0) == Some(
            map@[j as int].1,
        ),
        r is None ==> resolve_rid(map@, rid@, 0) is None,
{
    let n = map.len();
    let mut j: usize = 0;
    while j < n
        invariant
            j <= n,
            n == map@.len(),
            resolve_rid(map@, rid@, 0) == resolve_rid(map@, rid@, j as int),
        decreases n - j,
    {
        let key = map.key_at(j);
        let base = basename_of(key);
        if contains_pat(key, rid) || contains_pat(rid, &base) {
            return Some(j);
        }
        j += 1;
    }
    None
}

/// Concatenates the contents of every text run in the paragraph.
fn texts_exec(c: &Vec<char>) -> (r: Vec<char>)
    ensures
        r@ == texts_from(c@, 0),
{
    let mut out: Vec<char> = Vec::new();
    let mut i: usize = 0;
    proof {
        crate::strutil::lemma_vec_len_bound(c);
        assert(Seq::<char>::empty() + texts_from(c@, 0) =~= texts_from(c@, 0));
    }
    loop
        invariant_except_break
            i <= c@.len(),
            c@.len() <= usize::MAX,
            texts_from(c@, 0) == out@ + texts_from(c@, i as int),
        ensures
            out@ == texts_from(c@, 0),
        decreases c@.len() - i,
    {
        match find_text_exec(c, i) {
            None => {
                proof {
                    assert(out@ + texts_from(c@, i as int) =~= out@);
                }
                break ;
            },
            Some((q, g, d)) => {
                proof {
                    reveal_strlit("</w:t>");
                    lemma_find_text(c@, i as int);
                    crate::strutil::lemma_find_from(c@, ">"@, q + 4);
                    crate::strutil::lemma_find_from(c@, "<"@, g + 1);
                }
                let ghost old_out = out@;
                let seg = copy_range(c, g + 1, d);
                append_chars(&mut out, &seg);
                proof {
                    assert(texts_from(c@, 0) == out@ + texts_from(c@, d + 6)) by {
                        assert(old_out + (c@.subrange(g + 1, d as int) + texts_from(c@, d + 6))
                            =~= out@ + texts_from(c@, d + 6));
                    }
                }
                i = d + 6;
            },
        }
    }
    out
}

/// Emits the image elements for every resolvable blip in the paragraph.
fn blips_exec(c: &Vec<char>, map: &PathUrlMap) -> (r: Vec<char>)
    ensures
        r@ == blips_from(c@, map@, 0),
{
    let mut out: Vec<char> = Vec::new();
    let mut i: usize = 0;
    proof {
        crate::strutil::lemma_vec_len_bound(c);
        assert(Seq::<char>::empty() + blips_from(c@, map@, 0) =~= blips_from(c@, map@, 0));
    }
    loop
        invariant_except_break
            i <= c@.len(),
            c@.len() <= usize::MAX,
            blips_from(c@, map@, 0) == out@ + blips_from(c@, map@, i as int),
        ensures
            out@ == blips_from(c@, map@, 0),
        decreases c@.len() - i,
    {
        match find_blip_exec(c, i) {
            None => {
                proof {
                    assert(out@ + blips_from(c@, map@, i as int) =~= out@);
                }
                break ;
            },
            Some((q, g, rid)) => {
                proof {
                    reveal_strlit(">");
                    lemma_find_blip(c@, i as int);
                    crate::strutil::lemma_find_from(c@, ">"@, q + 7);
                }
                let ghost old_out = out@;
                let ghost piece: Seq<char> = match resolve_rid(map@, rid@, 0) {
                    Some(u) => img_html(u),
                    None => Seq::empty(),
                };
                match resolve_rid_exec(map, &rid) {
                    Some(j) => {
                        let open_tag = str_to_chars("<img src=\"");
                        let close_tag = str_to_chars("\" alt=\"image\" />");
                        append_chars(&mut out, &open_tag);
                        append_chars(&mut out, map.url_at(j));
                        append_chars(&mut out, &close_tag);
                    },
                    None => {},
                }
                proof {
                    assert(blips_from(c@, map@, 0) == out@ + blips_from(c@, map@, g + 1)) by {
                        assert(old_out + (piece + blips_from(c@, map@, g + 1)) =~= out@
                            + blips_from(c@, map@, g + 1));
                    }
                }
                i = g + 1;
            },
        }
    }
    out
}

/// Emits the `<p>` element for one paragraph's inner markup.
fn para_wrap_exec(c: &Vec<char>, map: &PathUrlMap) -> (r: Vec<char>)
    ensures
        r@ == para_wrap(c@, map@),
{
    let mut ph = texts_exec(c);
    let blips = blips_exec(c, map);
    append_chars(&mut ph, &blips);
    let bold_pat = str_to_chars("<w:b/>");
    let italic_pat = str_to_chars("<w:i/>");
    let bold = contains_pat(c, &bold_pat);
    let italic = contains_pat(c, &italic_pat);
    let mut out: Vec<char> = Vec::new();
    if ph.len() == 0 {
        let t = str_to_chars("<p></p>\n");
        append_chars(&mut out, &t);
        proof {
            assert(Seq::<char>::empty() + "<p></p>\n"@ =~= "<p></p>\n"@);
        }
    } else if bold && italic {
        let a = str_to_chars("<p><strong><em>");
        let b = str_to_chars("</em></strong></p>\n");
        append_chars(&mut out, &a);
        append_chars(&mut out, &ph);
        append_chars(&mut out, &b);
        proof {
            assert(out@ =~= "<p><strong><em>"@ + para_html(c@, map@) + "</em></strong></p>\n"@);
        }
    } else if bold {
        let a = str_to_chars("<p><strong>");
        let b = str_to_chars("</strong></p>\n");
        append_chars(&mut out, &a);
        append_chars(&mut out, &ph);
        append_chars(&mut out, &b);
        proof {
            assert(out@ =~= "<p><strong>"@ + para_html(c@, map@) + "</strong></p>\n"@);
        }
    } else if italic {
        let a = str_to_chars("<p><em>");
        let b = str_to_chars("</em></p>\n");
        append_chars(&mut out, &a);
        append_chars(&mut out, &ph);
        append_chars(&mut out, &b);
        proof {
            assert(out@ =~= "<p><em>"@ + para_html(c@, map@) + "</em></p>\n"@);
        }
    } else {
        let a = str_to_chars("<p>");
        let b = str_to_chars("</p>\n");
        append_chars(&mut out, &a);
        append_chars(&mut out, &ph);
        append_chars(&mut out, &b);
        proof {
            assert(out@ =~= "<p>"@ + para_html(c@, map@) + "</p>\n"@);
        }
    }
    out
}

/// Strips every tag from the raw markup.
fn strip_exec(s: &Vec<char>) -> (r: Vec<char>)
    ensures
        r@ == strip_from(s@, 0),
{
    let gtp = str_to_chars(">");
    let mut out: Vec<char> = Vec::new();
    let mut i: usize = 0;
    proof {
        assert(Seq::<char>::empty() + strip_from(s@, 0) =~= strip_from(s@, 0));
    }
    proof {
        crate::strutil::lemma_vec_len_bound(s);
    }
    while i < s.len()
        invariant
            i <= s@.len(),
            s@.len() <= usize::MAX,
            gtp@ == ">"@,
            strip_from(s@, 0) == out@ + strip_from(s@, i as int),
        decreases s@.len() - i,
    {
        let ghost old_out = out@;
        let c = s[i];
        let mut skipped = false;
        if c == '<' {
            match find_pat(s, &gtp, i + 1) {
                Some(g) => {
                    if g > i + 1 {
                        proof {
                            reveal_strlit(">");
                            crate::strutil::lemma_find_from(s@, ">"@, i + 1);
                        }
                        i = g + 1;
                        skipped = true;
                    }
                },
                None => {},
            }
        }
        if !skipped {
            out.push(s[i]);
            proof {
                assert(old_out + seq![s@[i as int]] + strip_from(s@, i + 1) =~= old_out + (seq![
                    s@[i as int],
                ] + strip_from(s@, i + 1)));
            }
            i += 1;
        }
    }
    proof {
        assert(out@ + strip_from(s@, i as int) =~= out@);
    }
    out
}

/// Converts a whole DOCX document markup into simplified HTML, resolving
/// embedded images against the relocation map.
pub fn docx_xml_to_html(xml: &str, map: &PathUrlMap) -> (r: String)
    ensures
        r@ == spec_docx_html(xml@, map@),
{
    let s = str_to_chars(xml);
    match find_para_exec(&s, 0) {
        None => {
            let stripped = strip_exec(&s);
            chars_to_string(&stripped)
        },
        Some(_) => {
            let mut out: Vec<char> = Vec::new();
            let mut i: usize = 0;
            proof {
                crate::strutil::lemma_vec_len_bound(&s);
                assert(Seq::<char>::empty() + paras_from(s@, map@, 0) =~= paras_from(s@, map@, 0));
            }
            loop
                invariant_except_break
                    i <= s@.len(),
                    s@.len() <= usize::MAX,
                    s@ == xml@,
                    paras_from(s@, map@, 0) == out@ + paras_from(s@, map@, i as int),
                ensures
                    out@ == paras_from(s@, map@, 0),
                decreases s@.len() - i,
            {
                match find_para_exec(&s, i) {
                    None => {
                        proof {
                            assert(out@ + paras_from(s@, map@, i as int) =~= out@);
                        }
                        break ;
                    },
                    Some((p, g, e)) => {
                        proof {
                            reveal_strlit("</w:p>");
                            lemma_find_para(s@, i as int);
                            crate::strutil::lemma_find_from(s@, ">"@, p + 4);
                            crate::strutil::lemma_find_from(s@, "</w:p>"@, g + 1);
                        }
                        let ghost old_out = out@;
                        let content = copy_range(&s, g + 1, e);
                        let piece = para_wrap_exec(&content, map);
                        append_chars(&mut out, &piece);
                        proof {
                            assert(paras_from(s@, map@, 0) == out@ + paras_from(s@, map@, e + 6))
                                by {
                                assert(old_out + (para_wrap(para_content(s@, p as int), map@)
                                    + paras_from(s@, map@, e + 6)) =~= out@ + paras_from(
                                    s@,
                                    map@,
                                    e + 6,
                                ));
                            }
                        }
                        i = e + 6;
                    },
                }
            }
            chars_to_string(&out)
        },
    }
}

} // verus!

//! Rewriting of in-document image references.
//!
//! The rewriter scans markup left to right for `src="..."` / `src='...'`
//! and `xlink:href="..."` / `xlink:href='...'` attributes (the latter used
//! by inline SVG).  A captured path is looked up in the relocation map,
//! first verbatim and then by its basename; on a hit the whole attribute is
//! replaced by `src="URL"` (respectively `xlink:href="URL"`), and on a miss
//! it is left untouched, so an unresolved reference is a visible defect of
//! the document rather than a hard failure.

use vstd::prelude::*;
use crate::strutil::{match_at, after_last_slash, str_to_chars, chars_to_string, copy_range, append_chars, is_match_at};
use crate::pathmap::{PathUrlMap, spec_lookup, entries_get};

verus! {

/// The attribute markers the rewriter recognises.
pub open spec fn src_marker() -> Seq<char> {
    "src="@
}

/// The inline-SVG attribute marker.
pub open spec fn xlink_marker() -> Seq<char> {
    "xlink:href="@
}

/// Either quote character may delimit an attribute value.
pub open spec fn is_quote(c: char) -> bool {
    c == '"' || c == '\''
}

/// The least position `e >= k` holding a quote, or `s.len()` if none does.
pub open spec fn quote_end(s: Seq<char>, k: int) -> int
    decreases s.len() - k,
{
    if !(0 <= k < s.len()) {
        s.len() as int
    } else if is_quote(s[k]) {
        k
    } else {
        quote_end(s, k + 1)
    }
}

/// What `quote_end` returns: the first quote at or after `k`.
pub proof fn lemma_quote_end(s: Seq<char>, k: int)
    requires
        0 <= k <= s.len(),
    ensures
        k <= quote_end(s, k) <= s.len(),
        forall|t: int| k <= t < quote_end(s, k) ==> !is_quote(s[t]),
        quote_end(s, k) < s.len() ==> is_quote(s[quote_end(s, k)]),
    decreases s.len() - k,
{
    if k < s.len() && !is_quote(s[k]) {
        lemma_quote_end(s, k + 1);
    }
}

/// An attribute `pre` + quote + non-empty quote-free value + quote starts
/// at position `i`.
pub open spec fn attr_match_at(s: Seq<char>, pre: Seq<char>, i: int) -> bool {
    &&& match_at(s, pre, i)
    &&& i + pre.len() < s.len()
    &&& is_quote(s[i + pre.len()])
    &&& quote_end(s, i + pre.len() + 1) < s.len()
    &&& quote_end(s, i + pre.len() + 1) > i + pre.len() + 1
}

/// The captured value of the attribute starting at `i`.
pub open spec fn attr_value(s: Seq<char>, pre: Seq<char>, i: int) -> Seq<char> {
    s.subrange(i + pre.len() + 1, quote_end(s, i + pre.len() + 1))
}

/// One past the closing quote of the attribute starting at `i`.
pub open spec fn attr_end(s: Seq<char>, pre: Seq<char>, i: int) -> int {
    quote_end(s, i + pre.len() + 1) + 1
}

/// A reference attribute of either kind starts at `i`.
pub open spec fn ref_match_at(s: Seq<char>, i: int) -> bool {
    attr_match_at(s, src_marker(), i) || attr_match_at(s, xlink_marker(), i)
}

/// The marker of the reference starting at `i` (the two cannot both start
/// at one position, their first characters differing).
pub open spec fn ref_pre(s: Seq<char>, i: int) -> Seq<char> {
    if attr_match_at(s, src_marker(), i) {
        src_marker()
    } else {
        xlink_marker()
    }
}

/// The rewritten suffix of `s` from position `i` on: each reference whose
/// value resolves in `es` is replaced by its marker plus the double-quoted
/// URL; everything else is copied unchanged.
pub open spec fn rewrite_from(s: Seq<char>, es: Seq<(Seq<char>, Seq<char>)>, i: int) -> Seq<char>
    decreases s.len() - i,
    via rewrite_from_dec
{
    if !(0 <= i < s.len()) {
        Seq::empty()
    } else if ref_match_at(s, i) {
        let pre = ref_pre(s, i);
        let v = attr_value(s, pre, i);
        let j = attr_end(s, pre, i);
        match spec_lookup(es, v) {
            Some(u) => pre + seq!['"'] + u + seq!['"'] + rewrite_from(s, es, j),
            None => s.subrange(i, j) + rewrite_from(s, es, j),
        }
    } else {
        seq![s[i]] + rewrite_from(s, es, i + 1)
    }
}

#[via_fn]
proof fn rewrite_from_dec(s: Seq<char>, es: Seq<(Seq<char>, Seq<char>)>, i: int) {
    if 0 <= i < s.len() && ref_match_at(s, i) {
        lemma_quote_end(s, i + ref_pre(s, i).len() + 1);
    }
}

/// The whole rewritten document.
pub open spec fn spec_rewrite(s: Seq<char>, es: Seq<(Seq<char>, Seq<char>)>) -> Seq<char> {
    rewrite_from(s, es, 0)
}

/// Every reference the scan from position `i` encounters fails to resolve
/// in `es`.
pub open spec fn scan_unresolved(s: Seq<char>, es: Seq<(Seq<char>, Seq<char>)>, i: int) -> bool
    decreases s.len() - i,
    via scan_unresolved_dec
{
    if !(0 <= i < s.len()) {
        true
    } else if ref_match_at(s, i) {
        &&& spec_lookup(es, attr_value(s, ref_pre(s, i), i)) is None
        &&& scan_unresolved(s, es, attr_end(s, ref_pre(s, i), i))
    } else {
        scan_unresolved(s, es, i + 1)
    }
}

#[via_fn]
proof fn scan_unresolved_dec(s: Seq<char>, es: Seq<(Seq<char>, Seq<char>)>, i: int) {
    if 0 <= i < s.len() && ref_match_at(s, i) {
        lemma_quote_end(s, i + ref_pre(s, i).len() + 1);
    }
}

/// The scan from `i` copies `s`'s suffix verbatim when nothing resolves.
proof fn lemma_rewrite_unresolved_from(s: Seq<char>, es: Seq<(Seq<char>, Seq<char>)>, i: int)
    requires
        0 <= i <= s.len(),
        scan_unresolved(s, es, i),
    ensures
        rewrite_from(s, es, i) == s.subrange(i, s.len() as int),
    decreases s.len() - i,
{
    if i < s.len() {
        if ref_match_at(s, i) {
            let pre = ref_pre(s, i);
            let j = attr_end(s, pre, i);
            lemma_quote_end(s, i + pre.len() + 1);
            lemma_rewrite_unresolved_from(s, es, j);
            assert(s.subrange(i, j) + s.subrange(j, s.len() as int) =~= s.subrange(
                i,
                s.len() as int,
            ));
        } else {
            lemma_rewrite_unresolved_from(s, es, i + 1);
            assert(seq![s[i]] + s.subrange(i + 1, s.len() as int) =~= s.subrange(
                i,
                s.len() as int,
            ));
        }
    } else {
        assert(rewrite_from(s, es, i) =~= s.subrange(i, s.len() as int));
    }
}

/// Law: markup in which every scanned reference fails to resolve is
/// returned unchanged by the rewriter.
pub proof fn lemma_rewrite_unresolved_fixpoint(s: Seq<char>, es: Seq<(Seq<char>, Seq<char>)>)
    requires
        scan_unresolved(s, es, 0),
    ensures
        spec_rewrite(s, es) == s,
{
    lemma_rewrite_unresolved_from(s, es, 0);
    assert(s.subrange(0, s.len() as int) =~= s);
}

/// Where a quote is known to stand at `p` with none before it, the quote
/// search lands exactly on `p`.
proof fn lemma_quote_end_is(s: Seq<char>, k: int, p: int)
    requires
        0 <= k <= p < s.len(),
        forall|t: int| k <= t < p ==> !is_quote(s[t]),
        is_quote(s[p]),
    ensures
        quote_end(s, k) == p,
{
    lemma_quote_end(s, k);
    if quote_end(s, k) < p {
        assert(!is_quote(s[quote_end(s, k)]));
    }
}

/// The shape of the two markers: their lengths, their first characters,
/// and that past position zero neither holds a quote, an `s`, or an `x`.
proof fn lemma_marker_chars()
    ensures
        src_marker().len() == 4,
        xlink_marker().len() == 11,
        src_marker()[0] == 's',
        xlink_marker()[0] == 'x',
        forall|t: int|
            0 <= t < src_marker().len() ==> !is_quote(#[trigger] src_marker()[t]),
        forall|t: int|
            0 <= t < xlink_marker().len() ==> !is_quote(#[trigger] xlink_marker()[t]),
        forall|t: int|
            0 < t < src_marker().len() ==> #[trigger] src_marker()[t] != 's' && src_marker()[t]
                != 'x',
        forall|t: int|
            0 < t < xlink_marker().len() ==> #[trigger] xlink_marker()[t] != 's'
                && xlink_marker()[t] != 'x',
{
    reveal_strlit("src=");
    reveal_strlit("xlink:href=");
}

/// The quote search past the front block of a concatenation only sees the
/// back block.
proof fn lemma_quote_end_concat(a: Seq<char>, b: Seq<char>, k: int)
    requires
        a.len() <= k <= a.len() + b.len(),
    ensures
        quote_end(a + b, k) == a.len() + quote_end(b, k - a.len()),
    decreases a.len() + b.len() - k,
{
    if k < a.len() + b.len() {
        assert((a + b)[k] == b[k - a.len()]);
        if !is_quote(b[k - a.len()]) {
            lemma_quote_end_concat(a, b, k + 1);
        }
    }
}

/// A match past the front block of a concatenation is a match in the back
/// block, at the shifted position.
proof fn lemma_match_at_concat(a: Seq<char>, b: Seq<char>, pat: Seq<char>, p: int)
    requires
        a.len() <= p,
    ensures
        match_at(a + b, pat, p) == match_at(b, pat, p - a.len()),
{
    if p + pat.len() <= a.len() + b.len() {
        assert((a + b).subrange(p, p + pat.len() as int) =~= b.subrange(
            p - a.len(),
            p - a.len() + pat.len(),
        ));
    }
}

/// An attribute read past the front block of a concatenation is the same
/// read in the back block: same success, same value, shifted end.
proof fn lemma_attr_concat(a: Seq<char>, b: Seq<char>, pre: Seq<char>, p: int)
    requires
        a.len() <= p,
    ensures
        attr_match_at(a + b, pre, p) == attr_match_at(b, pre, p - a.len()),
        attr_match_at(b, pre, p - a.len()) ==> attr_value(a + b, pre, p) == attr_value(
            b,
            pre,
            p - a.len(),
        ) && attr_end(a + b, pre, p) == a.len() + attr_end(b, pre, p - a.len()),
{
    lemma_match_at_concat(a, b, pre, p);
    if p + pre.len() < a.len() + b.len() {
        assert((a + b)[p + pre.len()] == b[p - a.len() + pre.len()]);
        lemma_quote_end_concat(a, b, p + pre.len() + 1);
        if attr_match_at(b, pre, p - a.len()) {
            let vs = p + pre.len() + 1;
            let e = quote_end(a + b, vs);
            assert((a + b).subrange(vs, e) =~= b.subrange(
                vs - a.len(),
                quote_end(b, vs - a.len()),
            ));
        }
    }
}

/// A reference read past the front block of a concatenation is the same
/// read in the back block.
proof fn lemma_ref_concat(a: Seq<char>, b: Seq<char>, p: int)
    requires
        a.len() <= p,
    ensures
        ref_match_at(a + b, p) == ref_match_at(b, p - a.len()),
        ref_match_at(b, p - a.len()) ==> ref_pre(a + b, p) == ref_pre(b, p - a.len()),
{
    lemma_attr_concat(a, b, src_marker(), p);
    lemma_attr_concat(a, b, xlink_marker(), p);
}

/// Scanning a concatenation from its back block is scanning the back
/// block alone.
proof fn lemma_scan_concat(a: Seq<char>, b: Seq<char>, es: Seq<(Seq<char>, Seq<char>)>, p: int)
    requires
        a.len() <= p,
    ensures
        scan_unresolved(a + b, es, p) == scan_unresolved(b, es, p - a.len()),
    decreases a.len() + b.len() + 1 - p,
{
    if p < a.len() + b.len() {
        lemma_ref_concat(a, b, p);
        if ref_match_at(a + b, p) {
            let pre = ref_pre(a + b, p);
            lemma_attr_concat(a, b, pre, p);
            lemma_quote_end(a + b, p + pre.len() + 1);
            lemma_scan_concat(a, b, es, attr_end(a + b, pre, p));
        } else {
            lemma_scan_concat(a, b, es, p + 1);
        }
    } else {
        if p >= (a + b).len() {
        }
    }
}

/// The first scan position at or after `i` whose reference resolves.
spec fn first_resolved(s: Seq<char>, es: Seq<(Seq<char>, Seq<char>)>, i: int) -> Option<int>
    decreases s.len() - i,
    via first_resolved_dec
{
    if !(0 <= i < s.len()) {
        None
    } else if ref_match_at(s, i) {
        if spec_lookup(es, attr_value(s, ref_pre(s, i), i)) is Some {
            Some(i)
        } else {
            first_resolved(s, es, attr_end(s, ref_pre(s, i), i))
        }
    } else {
        first_resolved(s, es, i + 1)
    }
}

#[via_fn]
proof fn first_resolved_dec(s: Seq<char>, es: Seq<(Seq<char>, Seq<char>)>, i: int) {
    if 0 <= i < s.len() && ref_match_at(s, i) {
        lemma_quote_end(s, i + ref_pre(s, i).len() + 1);
    }
}

/// What `first_resolved` reports holds of its result.
proof fn lemma_first_resolved(s: Seq<char>, es: Seq<(Seq<char>, Seq<char>)>, i: int)
    requires
        0 <= i,
    ensures
        first_resolved(s, es, i) matches Some(j) ==> i <= j && ref_match_at(s, j) && spec_lookup(
            es,
            attr_value(s, ref_pre(s, j), j),
        ) is Some,
    decreases s.len() - i,
{
    if 0 <= i < s.len() {
        if ref_match_at(s, i) {
            if spec_lookup(es, attr_value(s, ref_pre(s, i), i)) is None {
                lemma_quote_end(s, i + ref_pre(s, i).len() + 1);
                lemma_first_resolved(s, es, attr_end(s, ref_pre(s, i), i));
            }
        } else {
            lemma_first_resolved(s, es, i + 1);
        }
    }
}

/// How the rewritten suffix relates to the original: verbatim up to the
/// first resolving reference, whose marker survives and whose opening
/// quote becomes a double quote at a known position.
proof fn lemma_head_agreement(s: Seq<char>, es: Seq<(Seq<char>, Seq<char>)>, i: int)
    requires
        0 <= i <= s.len(),
    ensures
        match first_resolved(s, es, i) {
            None => rewrite_from(s, es, i) == s.subrange(i, s.len() as int),
            Some(j) => ({
                let pre = ref_pre(s, j);
                let o = rewrite_from(s, es, i);
                &&& o.len() > j - i + pre.len()
                &&& forall|t: int| 0 <= t < j - i + pre.len() ==> o[t] == s[i + t]
                &&& is_quote(o[j - i + pre.len()])
            }),
        },
    decreases s.len() - i,
{
    if i == s.len() {
        assert(rewrite_from(s, es, i) =~= s.subrange(i, s.len() as int));
    } else if ref_match_at(s, i) {
        let pre = ref_pre(s, i);
        let v = attr_value(s, pre, i);
        let jend = attr_end(s, pre, i);
        lemma_quote_end(s, i + pre.len() + 1);
        match spec_lookup(es, v) {
            Some(u) => {
                let o = rewrite_from(s, es, i);
                assert(o == pre + seq!['"'] + u + seq!['"'] + rewrite_from(s, es, jend));
                assert(first_resolved(s, es, i) == Some(i));
                assert forall|t: int| 0 <= t < pre.len() implies o[t] == s[i + t] by {
                    assert(s.subrange(i, i + pre.len() as int)[t] == s[i + t]);
                    assert(o[t] == pre[t]);
                }
                assert(o[pre.len() as int] == '"');
            },
            None => {
                lemma_head_agreement(s, es, jend);
                let front = s.subrange(i, jend);
                let o2 = rewrite_from(s, es, jend);
                let o = rewrite_from(s, es, i);
                assert(o == front + o2);
                match first_resolved(s, es, jend) {
                    None => {
                        assert(front + s.subrange(jend, s.len() as int) =~= s.subrange(
                            i,
                            s.len() as int,
                        ));
                    },
                    Some(j) => {
                        lemma_first_resolved(s, es, jend);
                        let pre2 = ref_pre(s, j);
                        assert forall|t: int| 0 <= t < j - i + pre2.len() implies o[t] == s[i + t]
                        by {
                            if t < jend - i {
                                assert(o[t] == front[t]);
                                assert(front[t] == s[i + t]);
                            } else {
                                assert(o[t] == o2[t - (jend - i)]);
                                assert(o2[t - (jend - i)] == s[jend + (t - (jend - i))]);
                            }
                        }
                        assert(o[j - i + pre2.len()] == o2[j - jend + pre2.len()]);
                    },
                }
            },
        }
    } else {
        lemma_head_agreement(s, es, i + 1);
        let o2 = rewrite_from(s, es, i + 1);
        let o = rewrite_from(s, es, i);
        assert(o == seq![s[i]] + o2);
        match first_resolved(s, es, i + 1) {
            None => {
                assert(seq![s[i]] + s.subrange(i + 1, s.len() as int) =~= s.subrange(
                    i,
                    s.len() as int,
                ));
            },
            Some(j) => {
                lemma_first_resolved(s, es, i + 1);
                let pre2 = ref_pre(s, j);
                assert forall|t: int| 0 <= t < j - i + pre2.len() implies o[t] == s[i + t] by {
                    if t == 0 {
                        assert(o[0] == s[i]);
                    } else {
                        assert(o[t] == o2[t - 1]);
                        assert(o2[t - 1] == s[i + 1 + (t - 1)]);
                    }
                }
                assert(o[j - i + pre2.len()] == o2[j - (i + 1) + pre2.len()]);
            },
        }
    }
}

/// Where the original has no reference at `i`, the rewritten suffix has
/// none at its front either: the next divergence sits behind a marker the
/// original also carries, so a front match in the output would force one
/// in the original.
proof fn lemma_single_no_match_pre(
    s: Seq<char>,
    es: Seq<(Seq<char>, Seq<char>)>,
    i: int,
    pre: Seq<char>,
)
    requires
        0 <= i < s.len(),
        !ref_match_at(s, i),
        pre == src_marker() || pre == xlink_marker(),
    ensures
        !attr_match_at(rewrite_from(s, es, i), pre, 0),
{
    if !attr_match_at(rewrite_from(s, es, i), pre, 0) {
        return ;
    }
    lemma_marker_chars();
    lemma_head_agreement(s, es, i);
    lemma_first_resolved(s, es, i);
    let o = rewrite_from(s, es, i);
    let l = pre.len() as int;
    assert forall|t: int| 0 <= t < l implies o[t] == pre[t] by {
        assert(o.subrange(0, l)[t] == o[t]);
    }
    match first_resolved(s, es, i) {
        None => {
            let front = s.subrange(0, i);
            assert(front + o =~= s);
            lemma_ref_concat(front, o, i);
            assert(ref_match_at(s, i));
        },
        Some(j) => {
            let prej = ref_pre(s, j);
            let lj = prej.len() as int;
            let d = j - i + lj;
            assert(j != i);
            assert forall|t: int| 0 <= t < lj implies s[j + t] == prej[t] by {
                assert(s.subrange(j, j + lj)[t] == s[j + t]);
            }
            // The divergence cannot sit inside the front marker: the marker
            // holds no quote.
            assert(d >= l) by {
                if d < l {
                    assert(o[d] == pre[d]);
                }
            }
            // Nor exactly at its end: the inner marker would have to start
            // inside the front marker, whose characters allow none.
            assert(d > l) by {
                if d == l {
                    assert(s[j] == prej[0]);
                    assert(o[j - i] == s[j]);
                    assert(o[j - i] == pre[j - i]);
                }
            }
            // So the original carries the same marker and opening quote.
            assert(is_quote(o[l]));
            assert(o[l] == s[i + l]);
            assert(match_at(s, pre, i)) by {
                assert forall|t: int| 0 <= t < l implies s.subrange(i, i + l)[t] == pre[t] by {
                    assert(s.subrange(i, i + l)[t] == s[i + t]);
                    assert(o[t] == s[i + t]);
                }
                assert(s.subrange(i, i + l) =~= pre);
            }
            let vstart = i + l + 1;
            lemma_quote_end(s, vstart);
            let e = quote_end(s, vstart);
            // The original's own attribute read must have failed there.
            assert(e == vstart || e == s.len());
            assert(i + d == j + lj);
            assert(is_quote(s[j + lj]));
            assert(j + lj < s.len());
            if e == s.len() {
                // But the resolving reference's opening quote stands after
                // the value start, which the failed read ruled out.
                assert(!is_quote(s[i + d]));
            } else {
                // Empty value in the original: the divergence cannot sit
                // right at the value start either, so the output copies
                // the empty value and its front read fails too.
                assert(d > l + 1) by {
                    if d == l + 1 {
                        if prej == pre {
                            assert(j == i + 1);
                            assert(o[1] == s[i + 1]);
                            assert(o[1] == pre[1]);
                            assert(s[i + 1] == prej[0]);
                        } else {
                            assert(o[j - i] == s[j]);
                            assert(o[j - i] == pre[j - i]);
                            assert(s[j] == prej[0]);
                        }
                    }
                }
                assert(is_quote(s[vstart]));
                assert(o[l + 1] == s[vstart]);
                lemma_quote_end_is(o, l + 1, l + 1);
            }
        },
    }
    assert(false);
}

/// A resolved value is one of the map's URLs.
proof fn lemma_entries_get_value(es: Seq<(Seq<char>, Seq<char>)>, k: Seq<char>)
    ensures
        entries_get(es, k) matches Some(u) ==> exists|j: int|
            0 <= j < es.len() && (#[trigger] es[j]).1 == u,
    decreases es.len(),
{
    if es.len() > 0 {
        if es.last().0 == k {
            assert(es[es.len() - 1].1 == es.last().1);
        } else {
            lemma_entries_get_value(es.drop_last(), k);
            match entries_get(es.drop_last(), k) {
                Some(u) => {
                    let j = choose|j: int|
                        0 <= j < es.drop_last().len() && es.drop_last()[j].1 == u;
                    assert(es[j].1 == u);
                },
                None => {},
            }
        }
    }
}

/// A URL that is inert under rescanning: non-empty, quote-free, and
/// resolving to nothing in the map (neither the URL nor its basename is a
/// key).
pub open spec fn url_rescan_safe(es: Seq<(Seq<char>, Seq<char>)>, u: Seq<char>) -> bool {
    &&& u.len() > 0
    &&& forall|t: int| 0 <= t < u.len() ==> !is_quote(#[trigger] u[t])
    &&& spec_lookup(es, u) is None
}

/// Every URL the map can hand out is inert under rescanning.
pub open spec fn rescan_safe(es: Seq<(Seq<char>, Seq<char>)>) -> bool {
    forall|j: int| 0 <= j < es.len() ==> url_rescan_safe(es, (#[trigger] es[j]).1)
}

/// The scan of a rewritten suffix resolves nothing: substituted URLs are
/// inert by hypothesis, kept references were unresolved already, and no
/// new reference forms across a seam.
proof fn lemma_rewrite_scan_unresolved(s: Seq<char>, es: Seq<(Seq<char>, Seq<char>)>, i: int)
    requires
        rescan_safe(es),
        0 <= i <= s.len(),
    ensures
        scan_unresolved(rewrite_from(s, es, i), es, 0),
    decreases s.len() - i,
{
    lemma_marker_chars();
    if i == s.len() {
    } else if ref_match_at(s, i) {
        let pre = ref_pre(s, i);
        let l = pre.len() as int;
        let v = attr_value(s, pre, i);
        let jend = attr_end(s, pre, i);
        lemma_quote_end(s, i + l + 1);
        lemma_rewrite_scan_unresolved(s, es, jend);
        let rest = rewrite_from(s, es, jend);
        match spec_lookup(es, v) {
            Some(u) => {
                assert(exists|j: int| 0 <= j < es.len() && (#[trigger] es[j]).1 == u) by {
                    lemma_entries_get_value(es, v);
                    lemma_entries_get_value(es, after_last_slash(v));
                }
                assert(url_rescan_safe(es, u)) by {
                    let j = choose|j: int| 0 <= j < es.len() && (#[trigger] es[j]).1 == u;
                    assert(es[j].1 == u);
                }
                let rseg = pre + seq!['"'] + u + seq!['"'];
                let o = rseg + rest;
                assert(rewrite_from(s, es, i) == o);
                assert forall|t: int| 0 <= t < l implies o[t] == pre[t] by {}
                assert(o.subrange(0, l) =~= pre);
                assert(o[l] == '"');
                assert(o[l + 1 + u.len()] == '"');
                assert forall|t: int| l + 1 <= t < l + 1 + u.len() implies !is_quote(o[t]) by {
                    assert(o[t] == u[t - (l + 1)]);
                }
                lemma_quote_end_is(o, l + 1, l + 1 + u.len() as int);
                assert(attr_match_at(o, pre, 0));
                assert(attr_value(o, pre, 0) =~= u);
                assert(ref_pre(o, 0) == pre) by {
                    if pre == xlink_marker() {
                        assert(!match_at(o, src_marker(), 0)) by {
                            if match_at(o, src_marker(), 0) {
                                assert(o.subrange(0, src_marker().len() as int)[0] == o[0]);
                            }
                        }
                    }
                }
                assert(attr_end(o, pre, 0) == rseg.len());
                lemma_scan_concat(rseg, rest, es, rseg.len() as int);
                assert(scan_unresolved(o, es, 0));
            },
            None => {
                let front = s.subrange(i, jend);
                let o = front + rest;
                assert(rewrite_from(s, es, i) == o);
                let es_ = quote_end(s, i + l + 1);
                assert(jend == es_ + 1);
                assert forall|t: int| 0 <= t < l implies o[t] == pre[t] by {
                    assert(o[t] == s[i + t]);
                    assert(s.subrange(i, i + l)[t] == s[i + t]);
                }
                assert(o.subrange(0, l) =~= pre);
                assert(o[l] == s[i + l]);
                assert forall|t: int| l + 1 <= t < es_ - i implies !is_quote(o[t]) by {
                    assert(o[t] == s[i + t]);
                }
                assert(o[es_ - i] == s[es_]);
                lemma_quote_end_is(o, l + 1, es_ - i);
                assert(attr_match_at(o, pre, 0));
                assert(attr_value(o, pre, 0) =~= v);
                assert(ref_pre(o, 0) == pre) by {
                    if pre == xlink_marker() {
                        assert(!match_at(o, src_marker(), 0)) by {
                            if match_at(o, src_marker(), 0) {
                                assert(o.subrange(0, src_marker().len() as int)[0] == o[0]);
                                assert(s.subrange(i, i + l)[0] == s[i]);
                            }
                        }
                    }
                }
                assert(attr_end(o, pre, 0) == front.len());
                lemma_scan_concat(front, rest, es, front.len() as int);
                assert(scan_unresolved(o, es, 0));
            },
        }
    } else {
        lemma_rewrite_scan_unresolved(s, es, i + 1);
        let rest = rewrite_from(s, es, i + 1);
        let o = seq![s[i]] + rest;
        assert(rewrite_from(s, es, i) == o);
        lemma_single_no_match_pre(s, es, i, src_marker());
        lemma_single_no_match_pre(s, es, i, xlink_marker());
        assert(!ref_match_at(o, 0));
        lemma_scan_concat(seq![s[i]], rest, es, 1);
        assert(scan_unresolved(o, es, 0));
    }
}

/// Law: rewriting is idempotent — a second pass changes nothing — whenever
/// every URL the map can substitute is inert under rescanning: non-empty,
/// quote-free, and resolving to nothing in the map.
pub proof fn lemma_rewrite_idempotent(s: Seq<char>, es: Seq<(Seq<char>, Seq<char>)>)
    requires
        rescan_safe(es),
    ensures
        spec_rewrite(spec_rewrite(s, es), es) == spec_rewrite(s, es),
{
    lemma_rewrite_scan_unresolved(s, es, 0);
    lemma_rewrite_unresolved_fixpoint(spec_rewrite(s, es), es);
}

/// Law (the unresolved case): on markup whose scanned references all fail
/// to resolve, rewriting twice equals rewriting once.
pub proof fn lemma_rewrite_idempotent_unresolved(s: Seq<char>, es: Seq<(Seq<char>, Seq<char>)>)
    requires
        scan_unresolved(s, es, 0),
    ensures
        spec_rewrite(spec_rewrite(s, es), es) == spec_rewrite(s, es),
{
    lemma_rewrite_unresolved_fixpoint(s, es);
}

/// Quote search scanning a buffer.
fn find_quote(s: &Vec<char>, k: usize) -> (r: usize)
    requires
        k <= s@.len(),
    ensures
        r == quote_end(s@, k as int),
{
    let mut t: usize = k;
    while t < s.len()
        invariant
            k <= t <= s@.len(),
            quote_end(s@, k as int) == quote_end(s@, t as int),
        decreases s@.len() - t,
    {
        let c = s[t];
        if c == '"' || c == '\'' {
            return t;
        }
        t += 1;
    }
    t
}

/// Tries to read an attribute `pre` + quoted value at position `i`.
fn attr_try(s: &Vec<char>, pre: &Vec<char>, i: usize) -> (r: Option<(Vec<char>, usize)>)
    ensures
        r is Some <==> attr_match_at(s@, pre@, i as int),
        r matches Some(p) ==> p.0@ == attr_value(s@, pre@, i as int) && p.1 == attr_end(
            s@,
            pre@,
            i as int,
        ),
{
    let n = s.len();
    if !is_match_at(s, pre, i) {
        return None;
    }
    let qpos: usize = i + pre.len();
    if qpos >= n {
        return None;
    }
    let q = s[qpos];
    if !(q == '"' || q == '\'') {
        return None;
    }
    let vstart: usize = qpos + 1;
    let e = find_quote(s, vstart);
    proof {
        lemma_quote_end(s@, vstart as int);
    }
    if e >= n {
        return None;
    }
    if e == vstart {
        return None;
    }
    let value = copy_range(s, vstart, e);
    Some((value, e + 1))
}

/// Rewrites every resolvable image reference in `markup` to its relocated
/// URL; unresolved references are left untouched.
pub fn rewrite(markup: &str, map: &PathUrlMap) -> (r: String)
    ensures
        r@ == spec_rewrite(markup@, map@),
{
    let s = str_to_chars(markup);
    let src_pat = str_to_chars("src=");
    let xlink_pat = str_to_chars("xlink:href=");
    let mut out: Vec<char> = Vec::new();
    let mut i: usize = 0;
    proof {
        assert(Seq::<char>::empty() + rewrite_from(s@, map@, 0) =~= rewrite_from(s@, map@, 0));
    }
    while i < s.len()
        invariant
            i <= s@.len(),
            s@ == markup@,
            src_pat@ == src_marker(),
            xlink_pat@ == xlink_marker(),
            spec_rewrite(markup@, map@) == out@ + rewrite_from(s@, map@, i as int),
        decreases s@.len() - i,
    {
        let ghost old_out = out@;
        let mut used_src = true;
        let mut hit: Option<(Vec<char>, usize)> = attr_try(&s, &src_pat, i);
        if hit.is_none() {
            hit = attr_try(&s, &xlink_pat, i);
            used_src = false;
        }
        let ghost pre: Seq<char> = if used_src {
            src_marker()
        } else {
            xlink_marker()
        };
        match hit {
            Some((value, end)) => {
                proof {
                    assert(ref_match_at(s@, i as int));
                    assert(ref_pre(s@, i as int) == pre);
                }
                match map.lookup(&value) {
                    Some(url) => {
                        let ghost u = url@;
                        if used_src {
                            append_chars(&mut out, &src_pat);
                        } else {
                            append_chars(&mut out, &xlink_pat);
                        }
                        out.push('"');
                        append_chars(&mut out, url);
                        out.push('"');
                        proof {
                            assert(out@ =~= old_out + (pre + seq!['"'] + u + seq!['"']));
                            assert(old_out + (pre + seq!['"'] + u + seq!['"']) + rewrite_from(
                                s@,
                                map@,
                                end as int,
                            ) =~= old_out + (pre + seq!['"'] + u + seq!['"'] + rewrite_from(
                                s@,
                                map@,
                                end as int,
                            )));
                        }
                        i = end;
                    },
                    None => {
                        proof {
                            lemma_quote_end(s@, i + pre.len() + 1);
                        }
                        let seg = copy_range(&s, i, end);
                        append_chars(&mut out, &seg);
                        proof {
                            assert(old_out + s@.subrange(i as int, end as int) + rewrite_from(
                                s@,
                                map@,
                                end as int,
                            ) =~= old_out + (s@.subrange(i as int, end as int) + rewrite_from(
                                s@,
                                map@,
                                end as int,
                            )));
                        }
                        i = end;
                    },
                }
            },
            None => {
                proof {
                    assert(!ref_match_at(s@, i as int));
                }
                out.push(s[i]);
                proof {
                    assert(old_out + seq![s@[i as int]] + rewrite_from(s@, map@, i + 1) =~= old_out
                        + (seq![s@[i as int]] + rewrite_from(s@, map@, i + 1)));
                }
                i += 1;
            },
        }
    }
    proof {
        assert(out@ + rewrite_from(s@, map@, i as int) =~= out@);
    }
    chars_to_string(&out)
}

} // verus!

//! Page and database id normalization.
//!
//! A raw URL, slug or bare id is reduced to the canonical hyphenated form:
//! the input is trimmed, split on `/ ? # -`, and the last 32-hex-digit
//! piece is reformatted as `8-4-4-4-12`; an input with no such piece is
//! passed through trimmed, best effort, not validated.

use vstd::prelude::*;

use crate::text::{trim_str, trimmed};

verus! {

/// The characters the id extractor splits on.
pub open spec fn is_sep(c: char) -> bool {
    c == '/' || c == '?' || c == '#' || c == '-'
}

/// An ASCII hexadecimal digit.
pub open spec fn is_hex_char(c: char) -> bool {
    ||| (48 <= (c as u32) && (c as u32) <= 57)
    ||| (97 <= (c as u32) && (c as u32) <= 102)
    ||| (65 <= (c as u32) && (c as u32) <= 70)
}

/// `[b, e)` is a maximal separator-free run of 32 hex digits.
pub open spec fn hex_run(s: Seq<char>, b: int, e: int) -> bool {
    &&& 0 <= b <= e <= s.len()
    &&& e - b == 32
    &&& (b == 0 || is_sep(s[b - 1]))
    &&& (e == s.len() || is_sep(s[e]))
    &&& forall|k: int| b <= k < e ==> !is_sep(s[k]) && is_hex_char(s[k])
}

/// The hex run the splitter keeps: the one starting last.
pub open spec fn is_last_hex_run(s: Seq<char>, b: int, e: int) -> bool {
    &&& hex_run(s, b, e)
    &&& forall|b2: int, e2: int| hex_run(s, b2, e2) ==> b2 <= b
}

/// The canonical `8-4-4-4-12` form of a 32-digit id.
pub open spec fn hyphenate(id: Seq<char>) -> Seq<char> {
    id.subrange(0, 8) + "-"@ + id.subrange(8, 12) + "-"@ + id.subrange(12, 16) + "-"@
        + id.subrange(16, 20) + "-"@ + id.subrange(20, 32)
}

/// Law: a 32-hex-digit id surrounded by nothing but separators is found,
/// and `extract_page_id` therefore gives its canonical hyphenated form.
pub proof fn lemma_embedded_id_found(pre: Seq<char>, id: Seq<char>, post: Seq<char>)
    requires
        forall|k: int| 0 <= k < pre.len() ==> is_sep(#[trigger] pre[k]),
        forall|k: int| 0 <= k < post.len() ==> is_sep(#[trigger] post[k]),
        id.len() == 32,
        forall|k: int| 0 <= k < 32 ==> is_hex_char(#[trigger] id[k]),
    ensures
        trimmed(pre + id + post) == pre + id + post,
        is_last_hex_run(pre + id + post, pre.len() as int, pre.len() as int + 32),
        (pre + id + post).subrange(pre.len() as int, pre.len() as int + 32) == id,
{
    let s = pre + id + post;
    let p = pre.len() as int;
    assert forall|c: char| is_sep(c) implies !crate::text::is_ws_char(c) by {}
    assert forall|c: char| is_hex_char(c) implies !crate::text::is_ws_char(c) && !is_sep(c) by {}
    assert(s.len() == pre.len() + 32 + post.len());
    assert forall|k: int| 0 <= k < p implies s[k] == pre[k] && is_sep(s[k]) by {}
    assert forall|k: int| p <= k < p + 32 implies s[k] == id[k - p] && is_hex_char(s[k]) by {}
    assert forall|k: int| p + 32 <= k < s.len() implies s[k] == post[k - p - 32] && is_sep(
        s[k],
    ) by {}
    // the whole string holds no whitespace, so trimming changes nothing
    assert(!crate::text::is_ws_char(s[0]));
    assert(!crate::text::is_ws_char(s[s.len() - 1]));
    assert(!crate::text::spec_blank(s));
    assert(crate::text::leading_ws(s) == 0);
    assert(crate::text::trailing_ws(s) == 0);
    assert(s.subrange(0, s.len() as int) =~= s);
    assert(trimmed(s) == s);
    assert(hex_run(s, p, p + 32));
    assert forall|b2: int, e2: int| hex_run(s, b2, e2) implies b2 <= p by {
        if b2 > p {
            if b2 < p + 32 {
                assert(is_sep(s[b2 - 1]));
                assert(p <= b2 - 1 < p + 32);
            } else {
                assert(!is_sep(s[b2]));
                assert(p + 32 <= b2 < s.len());
            }
        }
    }
    assert(s.subrange(p, p + 32) =~= id);
}

/// Law: an already-canonical `8-4-4-4-12` id is left untouched — its five
/// hex pieces are all shorter than 32 digits, so no piece is rewritten and
/// `extract_page_id` passes the input through.
pub proof fn lemma_canonical_id_fixed(s: Seq<char>)
    requires
        s.len() == 36,
        s[8] == '-' && s[13] == '-' && s[18] == '-' && s[23] == '-',
        forall|k: int|
            0 <= k < 36 && k != 8 && k != 13 && k != 18 && k != 23 ==> is_hex_char(#[trigger] s[k]),
    ensures
        trimmed(s) == s,
        forall|b: int, e: int| !hex_run(s, b, e),
{
    assert forall|c: char| is_hex_char(c) implies !crate::text::is_ws_char(c) by {}
    assert(!crate::text::is_ws_char('-')) by {}
    assert(!crate::text::is_ws_char(s[0]));
    assert(!crate::text::is_ws_char(s[35]));
    assert(!crate::text::spec_blank(s));
    assert(crate::text::leading_ws(s) == 0);
    assert(crate::text::trailing_ws(s) == 0);
    assert(s.subrange(0, s.len() as int) =~= s);
    assert(trimmed(s) == s);
    assert forall|b: int, e: int| !hex_run(s, b, e) by {
        if hex_run(s, b, e) {
            assert(b <= 4);
            assert(b <= 8 < e);
            assert(!is_sep(s[8]));
        }
    }
}

/// Whether the character splits id pieces.
fn is_sep_c(c: char) -> (r: bool)
    ensures
        r == is_sep(c),
{
    c == '/' || c == '?' || c == '#' || c == '-'
}

/// Whether the character is a hex digit.
fn is_hex_c(c: char) -> (r: bool)
    ensures
        r == is_hex_char(c),
{
    let u = c as u32;
    (48 <= u && u <= 57) || (97 <= u && u <= 102) || (65 <= u && u <= 70)
}

/// Whether every character in `[b, e)` is a hex digit.
fn all_hex(s: &str, b: usize, e: usize) -> (r: bool)
    requires
        b <= e <= s@.len(),
    ensures
        r == forall|k: int| b <= k < e ==> is_hex_char(s@[k]),
{
    for k in b..e
        invariant
            b <= e <= s@.len(),
            forall|j: int| b <= j < k ==> is_hex_char(s@[j]),
    {
        if !is_hex_c(s.get_char(k)) {
            return false;
        }
    }
    true
}

/// Normalize a page or database id.
///
/// The trimmed input's last maximal 32-hex-digit piece between separators
/// becomes the canonical hyphenated id; without one, the trimmed input is
/// returned verbatim.
pub fn extract_page_id(input: &str) -> (r: String)
    ensures
        forall|b: int, e: int|
            is_last_hex_run(trimmed(input@), b, e) ==> r@ == hyphenate(
                trimmed(input@).subrange(b, e),
            ),
        (forall|b: int, e: int| !hex_run(trimmed(input@), b, e)) ==> r@ == trimmed(input@),
{
    let t = trim_str(input);
    let ghost tv = t@;
    let n = t.unicode_len();
    let mut i: usize = 0;
    let mut seg_start: usize = 0;
    let mut bs: usize = 0;
    let mut be: usize = 0;
    let mut have_best = false;
    while i < n
        invariant
            tv == t@,
            n == tv.len(),
            i <= n,
            seg_start <= i,
            seg_start == 0 || (seg_start - 1 < n && is_sep(tv[seg_start as int - 1])),
            forall|k: int| seg_start <= k < i ==> !is_sep(tv[k]),
            have_best ==> hex_run(tv, bs as int, be as int) && be < i,
            forall|b: int, e: int| hex_run(tv, b, e) && e < i ==> have_best && b <= bs as int,
        decreases n - i,
    {
        if is_sep_c(t.get_char(i)) {
            proof {
                assert forall|b: int, e: int|
                    hex_run(tv, b, e) && e == i as int implies b == seg_start as int by {
                    if b < seg_start as int {
                        assert(is_sep(tv[seg_start as int - 1]));
                        assert(b <= seg_start - 1 < e);
                    }
                    if b > seg_start as int {
                        assert(is_sep(tv[b - 1]));
                        assert(seg_start <= b - 1 < i);
                    }
                }
            }
            if i - seg_start == 32 && all_hex(t, seg_start, i) {
                proof {
                    assert(hex_run(tv, seg_start as int, i as int));
                }
                bs = seg_start;
                be = i;
                have_best = true;
            } else {
                proof {
                    assert(!hex_run(tv, seg_start as int, i as int));
                }
            }
            seg_start = i + 1;
        }
        i = i + 1;
    }
    proof {
        assert forall|b: int, e: int|
            hex_run(tv, b, e) && e == n as int implies b == seg_start as int by {
            if b < seg_start as int {
                assert(is_sep(tv[seg_start as int - 1]));
                assert(b <= seg_start - 1 < e);
            }
            if b > seg_start as int {
                assert(is_sep(tv[b - 1]));
                assert(seg_start <= b - 1 < n);
            }
        }
    }
    if n - seg_start == 32 && all_hex(t, seg_start, n) {
        proof {
            assert(hex_run(tv, seg_start as int, n as int));
            assert forall|b: int, e: int|
                hex_run(tv, b, e) implies b <= seg_start as int by {
                if e < n as int {
                    assert(b <= bs as int);
                    assert(is_sep(tv[e]));
                    assert(e < seg_start as int || e >= seg_start as int);
                    if e >= seg_start as int {
                        assert(seg_start <= e < n);
                        assert(!is_sep(tv[e]));
                    }
                }
            }
        }
        bs = seg_start;
        be = n;
        have_best = true;
    } else {
        proof {
            assert(!hex_run(tv, seg_start as int, n as int));
        }
    }
    if have_best {
        proof {
            assert forall|b: int, e: int|
                is_last_hex_run(tv, b, e) implies b == bs as int && e == be as int by {
                assert(hex_run(tv, bs as int, be as int));
            }
        }
        let p0 = t.substring_char(bs, bs + 8);
        let p1 = t.substring_char(bs + 8, bs + 12);
        let p2 = t.substring_char(bs + 12, bs + 16);
        let p3 = t.substring_char(bs + 16, bs + 20);
        let p4 = t.substring_char(bs + 20, bs + 32);
        let r = String::from_str(p0).concat("-").concat(p1).concat("-").concat(p2).concat(
            "-",
        ).concat(p3).concat("-").concat(p4);
        proof {
            let id = tv.subrange(bs as int, be as int);
            assert(id.subrange(0, 8) =~= tv.subrange(bs as int, bs as int + 8));
            assert(id.subrange(8, 12) =~= tv.subrange(bs as int + 8, bs as int + 12));
            assert(id.subrange(12, 16) =~= tv.subrange(bs as int + 12, bs as int + 16));
            assert(id.subrange(16, 20) =~= tv.subrange(bs as int + 16, bs as int + 20));
            assert(id.subrange(20, 32) =~= tv.subrange(bs as int + 20, bs as int + 32));
        }
        r
    } else {
        t.to_owned()
    }
}

} // verus!

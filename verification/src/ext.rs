//! Case-insensitive matching of the image filename extensions `.jpg`,
//! `.jpeg`, and `.png`. Matching is by suffix only; ASCII letters are
//! compared without regard to case.

use vstd::prelude::*;

verus! {

/// True when character `a` equals `b`, or `a` is the ASCII upper-case
/// form of `b`. `b` is expected to be a lower-case pattern character.
pub open spec fn matches_lower(a: char, b: char) -> bool {
    a == b || ('A' as int <= a as int && a as int <= 'Z' as int && a as int + 32 == b as int)
}

/// True when `s` ends with `suf`, comparing each character
/// case-insensitively against the lower-case pattern `suf`.
pub open spec fn ends_with_ci(s: Seq<char>, suf: Seq<char>) -> bool {
    suf.len() <= s.len() && (forall|j: int|
        0 <= j < suf.len() ==> matches_lower(s[s.len() - suf.len() + j], suf[j]))
}

pub open spec fn ext_jpg() -> Seq<char> {
    seq!['.', 'j', 'p', 'g']
}

pub open spec fn ext_jpeg() -> Seq<char> {
    seq!['.', 'j', 'p', 'e', 'g']
}

pub open spec fn ext_png() -> Seq<char> {
    seq!['.', 'p', 'n', 'g']
}

/// True of the names the enumerator accepts: those ending,
/// case-insensitively, in `.jpg`, `.jpeg`, or `.png`.
pub open spec fn is_image_name(s: Seq<char>) -> bool {
    ends_with_ci(s, ext_jpg()) || ends_with_ci(s, ext_jpeg()) || ends_with_ci(s, ext_png())
}

/// A suffix whose characters are never matched by a path separator is
/// carried by a path exactly when it is carried by the path's base
/// name: the match can never reach across the final separator.
pub proof fn lemma_suffix_transfers_to_base_name(p: Seq<char>, suf: Seq<char>)
    requires
        suf.len() > 0,
        forall|j: int|
            0 <= j < suf.len() ==> !matches_lower('/', #[trigger] suf[j]) && !matches_lower(
                '\\',
                suf[j],
            ),
    ensures
        ends_with_ci(p, suf) <==> ends_with_ci(crate::paths::base_name_of(p), suf),
{
    let n = p.len() as int;
    let m = suf.len() as int;
    crate::paths::lemma_base_name_position(p);
    let k = choose|k: int|
        {
            &&& 0 <= k <= p.len()
            &&& (forall|i: int| k <= i < p.len() ==> !crate::paths::is_sep(#[trigger] p[i]))
            &&& (k == 0 || crate::paths::is_sep(p[k - 1]))
            &&& crate::paths::base_name_of(p) == p.subrange(k, p.len() as int)
        };
    let base = crate::paths::base_name_of(p);
    assert(base.len() == n - k);
    if ends_with_ci(base, suf) {
        // The base name is a suffix of the path, so the match carries
        // over to the path unchanged.
        assert forall|j: int| 0 <= j < m implies matches_lower(#[trigger] p[n - m + j], suf[j]) by {
            assert(p[n - m + j] == base[base.len() - m + j]);
        }
    }
    if ends_with_ci(p, suf) {
        if n - k >= m {
            // The whole matched suffix lies inside the base name.
            assert forall|j: int| 0 <= j < m implies matches_lower(
                #[trigger] base[base.len() - m + j],
                suf[j],
            ) by {
                assert(base[base.len() - m + j] == p[n - m + j]);
            }
        } else {
            // Otherwise the matched region would cover the separator
            // right before the base name, which matches no suffix
            // character.
            let j0 = k - 1 - (n - m);
            assert(crate::paths::is_sep(p[k - 1]));
            assert(matches_lower(p[n - m + j0], suf[j0]));
            assert(false);
        }
    }
}

/// A path carries an image extension exactly when its base name does:
/// matching by path or by file name is the same test.
pub proof fn lemma_image_name_by_base(p: Seq<char>)
    ensures
        is_image_name(p) <==> is_image_name(crate::paths::base_name_of(p)),
{
    lemma_suffix_transfers_to_base_name(p, ext_jpg());
    lemma_suffix_transfers_to_base_name(p, ext_jpeg());
    lemma_suffix_transfers_to_base_name(p, ext_png());
}

fn char_matches_lower(a: char, b: char) -> (r: bool)
    ensures
        r == matches_lower(a, b),
{
    let au = a as u32;
    let bu = b as u32;
    a == b || (65 <= au && au <= 90 && au + 32 == bu)
}

/// Returns whether `s` ends with the lower-case pattern `suf`, compared
/// case-insensitively character by character.
pub fn ends_with_ci_str(s: &str, suf: &str) -> (r: bool)
    ensures
        r == ends_with_ci(s@, suf@),
{
    let n = s.unicode_len();
    let m = suf.unicode_len();
    if m > n {
        return false;
    }
    let mut i: usize = 0;
    while i < m
        invariant
            m <= n,
            n == s@.len(),
            m == suf@.len(),
            0 <= i <= m,
            forall|j: int| 0 <= j < i ==> matches_lower(s@[n - m + j], suf@[j]),
        decreases m - i,
    {
        let a = s.get_char(n - m + i);
        let b = suf.get_char(i);
        if !char_matches_lower(a, b) {
            assert(!matches_lower(s@[n as int - m + i], suf@[i as int]));
            return false;
        }
        i += 1;
    }
    true
}

/// Returns whether the path or name `s` carries one of the three image
/// extensions, compared case-insensitively.
pub fn has_image_ext(s: &str) -> (r: bool)
    ensures
        r == is_image_name(s@),
{
    proof {
        reveal_strlit(".jpg");
        reveal_strlit(".jpeg");
        reveal_strlit(".png");
        assert(".jpg"@ =~= ext_jpg());
        assert(".jpeg"@ =~= ext_jpeg());
        assert(".png"@ =~= ext_png());
    }
    ends_with_ci_str(s, ".jpg") || ends_with_ci_str(s, ".jpeg") || ends_with_ci_str(s, ".png")
}

} // verus!

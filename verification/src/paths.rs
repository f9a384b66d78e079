//! Path helpers: joining a directory path with a child component and
//! extracting a path's base name. Paths are treated as character
//! sequences; `/` and `\` are the recognized separators.

use vstd::prelude::*;

verus! {

/// True of the characters that separate path components.
pub open spec fn is_sep(c: char) -> bool {
    c == '/' || c == '\\'
}

/// The result of joining `base` with the relative component `child`:
/// `base`, a `/` separator unless `base` already ends in a separator,
/// then `child`. An empty `base` yields `child` alone.
pub open spec fn join_spec(base: Seq<char>, child: Seq<char>) -> Seq<char> {
    if base.len() == 0 {
        child
    } else if is_sep(base[base.len() - 1]) {
        base + child
    } else {
        base + seq!['/'] + child
    }
}

/// True when `pre` is a prefix of `s`.
pub open spec fn has_prefix(s: Seq<char>, pre: Seq<char>) -> bool {
    pre.len() <= s.len() && s.subrange(0, pre.len() as int) == pre
}

/// The base name of a path: the characters after the final separator,
/// or the whole path when it contains none.
pub open spec fn base_name_of(p: Seq<char>) -> Seq<char>
    decreases p.len(),
{
    if p.len() == 0 {
        p
    } else if is_sep(p[p.len() - 1]) {
        Seq::empty()
    } else {
        base_name_of(p.drop_last()).push(p[p.len() - 1])
    }
}

/// The base name of a path is the suffix that starts right after the
/// final separator: if nothing at or beyond position `k` is a separator
/// and position `k` is either the start of the path or preceded by a
/// separator, the base name is exactly the suffix from `k`.
pub proof fn lemma_base_name_is_suffix(p: Seq<char>, k: int)
    requires
        0 <= k <= p.len(),
        forall|i: int| k <= i < p.len() ==> !is_sep(p[i]),
        k == 0 || is_sep(p[k - 1]),
    ensures
        base_name_of(p) == p.subrange(k, p.len() as int),
    decreases p.len() - k,
{
    if k == p.len() {
        if p.len() == 0 {
            assert(base_name_of(p) =~= p.subrange(k, p.len() as int));
        } else {
            assert(is_sep(p[p.len() - 1]));
            assert(base_name_of(p) =~= p.subrange(k, p.len() as int));
        }
    } else {
        let q = p.drop_last();
        assert(!is_sep(p[p.len() - 1]));
        assert(forall|i: int| k <= i < q.len() ==> q[i] == p[i]);
        lemma_base_name_is_suffix(q, k);
        assert(base_name_of(p) == base_name_of(q).push(p[p.len() - 1]));
        assert(base_name_of(q).push(p[p.len() - 1]) =~= p.subrange(k, p.len() as int));
    }
}

/// Every path has a position `k` behind its final separator (or zero)
/// such that its base name is exactly the suffix from `k`.
pub proof fn lemma_base_name_position(p: Seq<char>)
    ensures
        exists|k: int|
            {
                &&& 0 <= k <= p.len()
                &&& (forall|i: int| k <= i < p.len() ==> !is_sep(#[trigger] p[i]))
                &&& (k == 0 || is_sep(p[k - 1]))
                &&& base_name_of(p) == p.subrange(k, p.len() as int)
            },
    decreases p.len(),
{
    if p.len() == 0 {
        assert(base_name_of(p) == p.subrange(0, p.len() as int)) by {
            assert(base_name_of(p) =~= p.subrange(0, p.len() as int));
        }
    } else if is_sep(p[p.len() - 1]) {
        let k = p.len() as int;
        assert(base_name_of(p) =~= p.subrange(k, p.len() as int));
        assert({
            &&& 0 <= k <= p.len()
            &&& (forall|i: int| k <= i < p.len() ==> !is_sep(#[trigger] p[i]))
            &&& (k == 0 || is_sep(p[k - 1]))
            &&& base_name_of(p) == p.subrange(k, p.len() as int)
        });
    } else {
        let q = p.drop_last();
        lemma_base_name_position(q);
        let k = choose|k: int|
            {
                &&& 0 <= k <= q.len()
                &&& (forall|i: int| k <= i < q.len() ==> !is_sep(#[trigger] q[i]))
                &&& (k == 0 || is_sep(q[k - 1]))
                &&& base_name_of(q) == q.subrange(k, q.len() as int)
            };
        assert(forall|i: int| 0 <= i < q.len() ==> q[i] == p[i]);
        assert(forall|i: int| k <= i < p.len() ==> !is_sep(#[trigger] p[i]));
        assert(base_name_of(p) == base_name_of(q).push(p[p.len() - 1]));
        assert(base_name_of(q).push(p[p.len() - 1]) =~= p.subrange(k, p.len() as int));
        assert({
            &&& 0 <= k <= p.len()
            &&& (forall|i: int| k <= i < p.len() ==> !is_sep(#[trigger] p[i]))
            &&& (k == 0 || is_sep(p[k - 1]))
            &&& base_name_of(p) == p.subrange(k, p.len() as int)
        });
    }
}

/// Joins `base` and `child` with a `/` separator, as the platform's
/// path type does for a relative `child`: no separator is doubled when
/// `base` already ends in one, and an empty `base` yields `child`.
pub fn join_path(base: &str, child: &str) -> (r: String)
    ensures
        r@ == join_spec(base@, child@),
{
    let n = base.unicode_len();
    if n == 0 {
        child.to_owned()
    } else {
        let last = base.get_char(n - 1);
        if last == '/' || last == '\\' {
            let r = base.to_owned().concat(child);
            assert(r@ =~= join_spec(base@, child@));
            r
        } else {
            let r = base.to_owned().concat("/").concat(child);
            proof {
                reveal_strlit("/");
                assert("/"@ =~= seq!['/']);
                assert(r@ =~= join_spec(base@, child@));
            }
            r
        }
    }
}

/// Returns the base name of `p`: the characters after the final `/` or
/// `\`, or all of `p` when it contains neither.
pub fn base_name(p: &str) -> (r: String)
    ensures
        r@ == base_name_of(p@),
{
    let n = p.unicode_len();
    let mut start: usize = 0;
    let mut i: usize = 0;
    while i < n
        invariant
            0 <= start <= i <= n,
            n == p@.len(),
            forall|j: int| start <= j < i ==> !is_sep(p@[j]),
            start == 0 || is_sep(p@[start - 1]),
        decreases n - i,
    {
        let c = p.get_char(i);
        if c == '/' || c == '\\' {
            start = i + 1;
        }
        i += 1;
    }
    proof {
        lemma_base_name_is_suffix(p@, start as int);
    }
    p.substring_char(start, n).to_owned()
}

} // verus!

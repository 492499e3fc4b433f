use vstd::prelude::*;
use vstd::string::StrSliceExecFns;
use vstd::string::StringExecFns;

verus! {

/// The marker that templates carry where the component name goes.
pub const PLACEHOLDER: &'static str = "_component";

/// `s` with every non-overlapping occurrence of `p`, scanned left to right,
/// replaced by `r`.
pub open spec fn replace_all(s: Seq<char>, p: Seq<char>, r: Seq<char>) -> Seq<char>
    decreases s.len(),
{
    if p.len() == 0 || s.len() < p.len() {
        s
    } else if s.subrange(0, p.len() as int) == p {
        r + replace_all(s.subrange(p.len() as int, s.len() as int), p, r)
    } else {
        seq![s[0]] + replace_all(s.subrange(1, s.len() as int), p, r)
    }
}

/// Whether `p` occurs in `s` starting at index `i`.
pub open spec fn occurs_at(s: Seq<char>, p: Seq<char>, i: int) -> bool {
    0 <= i && i + p.len() <= s.len() && s.subrange(i, i + p.len()) == p
}

/// Whether `p` occurs anywhere in `s`.
pub open spec fn contains_seq(s: Seq<char>, p: Seq<char>) -> bool {
    exists|i: int| #[trigger] occurs_at(s, p, i)
}

/// Decides whether `p` occurs in `s` at index `i`.
fn matches_at(s: &str, s_len: usize, p: &str, p_len: usize, i: usize) -> (r: bool)
    requires
        s_len == s@.len(),
        p_len == p@.len(),
        i <= s_len,
    ensures
        r == occurs_at(s@, p@, i as int),
{
    if s_len - i < p_len {
        return false;
    }
    let mut k: usize = 0;
    while k < p_len
        invariant
            s_len == s@.len(),
            p_len == p@.len(),
            i + p_len <= s_len,
            k <= p_len,
            forall|j: int| 0 <= j < k ==> s@[i + j] == p@[j],
        decreases p_len - k,
    {
        if s.get_char(i + k) != p.get_char(k) {
            assert(s@.subrange(i as int, i + p_len)[k as int] != p@[k as int]);
            return false;
        }
        k = k + 1;
    }
    assert(s@.subrange(i as int, i + p_len) =~= p@);
    true
}

/// Whether `p` occurs in `s`.
pub fn contains_str(s: &str, p: &str) -> (r: bool)
    ensures
        r == contains_seq(s@, p@),
{
    let s_len = s.unicode_len();
    let p_len = p.unicode_len();
    if p_len > s_len {
        assert forall|j: int| !occurs_at(s@, p@, j) by {}
        return false;
    }
    let last = s_len - p_len;
    let mut i: usize = 0;
    loop
        invariant
            s_len == s@.len(),
            p_len == p@.len(),
            last == s_len - p_len,
            i <= last,
            forall|j: int| 0 <= j < i ==> !occurs_at(s@, p@, j),
        ensures
            i == last,
            forall|j: int| 0 <= j <= i ==> !occurs_at(s@, p@, j),
        decreases last - i,
    {
        if matches_at(s, s_len, p, p_len, i) {
            assert(occurs_at(s@, p@, i as int));
            return true;
        }
        if i == last {
            break;
        }
        i = i + 1;
    }
    assert forall|j: int| !occurs_at(s@, p@, j) by {
        if 0 <= j <= i {
        }
    }
    false
}

/// Replaces every occurrence of `p` in `s` by `r`, scanning left to right.
pub fn replace_str(s: &str, p: &str, r: &str) -> (out: String)
    ensures
        out@ == replace_all(s@, p@, r@),
{
    let s_len = s.unicode_len();
    let p_len = p.unicode_len();
    let mut out = String::new();
    let mut i: usize = 0;
    assert(s@.subrange(0, s_len as int) =~= s@);
    while i < s_len
        invariant
            s_len == s@.len(),
            p_len == p@.len(),
            i <= s_len,
            out@ + replace_all(s@.subrange(i as int, s_len as int), p@, r@) == replace_all(s@, p@, r@),
        decreases s_len - i,
    {
        let ghost rest = s@.subrange(i as int, s_len as int);
        if p_len > 0 && matches_at(s, s_len, p, p_len, i) {
            assert(rest.subrange(0, p_len as int) =~= s@.subrange(i as int, i + p_len));
            assert(rest.subrange(p_len as int, rest.len() as int) =~= s@.subrange(i + p_len, s_len as int));
            out.append(r);
            assert(out@ + replace_all(s@.subrange(i + p_len, s_len as int), p@, r@) =~= replace_all(s@, p@, r@));
            i = i + p_len;
        } else if p_len == 0 || s_len - i < p_len {
            out.append(s.substring_char(i, s_len));
            assert(out@ =~= replace_all(s@, p@, r@)) by {
                assert(replace_all(rest, p@, r@) == rest);
            }
            i = s_len;
            assert(s@.subrange(i as int, s_len as int) =~= Seq::<char>::empty());
            assert(replace_all(Seq::<char>::empty(), p@, r@) == Seq::<char>::empty());
        } else {
            assert(rest.subrange(0, p_len as int) =~= s@.subrange(i as int, i + p_len));
            assert(rest.subrange(1, rest.len() as int) =~= s@.subrange(i + 1, s_len as int));
            let piece = s.substring_char(i, i + 1);
            assert(piece@ =~= seq![rest[0]]);
            out.append(piece);
            assert(out@ + replace_all(s@.subrange(i + 1, s_len as int), p@, r@) =~= replace_all(s@, p@, r@));
            i = i + 1;
        }
    }
    assert(s@.subrange(s_len as int, s_len as int) =~= Seq::<char>::empty());
    assert(out@ =~= replace_all(s@, p@, r@));
    out
}

} // verus!

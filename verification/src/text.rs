//! Small text helpers shared by the synthesizer and the command table:
//! joining lines and testing prefixes, with their exact meaning as
//! specification functions over character sequences.

use vstd::prelude::*;
use vstd::string::*;

verus! {

/// The given parts joined with a newline between consecutive parts;
/// no newline stands before the first part or after the last.
pub open spec fn join_lines(parts: Seq<Seq<char>>) -> Seq<char>
    decreases parts.len(),
{
    if parts.len() == 0 {
        Seq::empty()
    } else if parts.len() == 1 {
        parts[0]
    } else {
        join_lines(parts.drop_last()) + "\n"@ + parts.last()
    }
}

/// Joins the parts with a newline between consecutive parts.
pub fn join_lines_exec(parts: &Vec<String>) -> (r: String)
    ensures
        r@ == join_lines(parts.deep_view()),
{
    let mut r = String::new();
    let mut i: usize = 0;
    while i < parts.len()
        invariant
            i <= parts@.len(),
            r@ == join_lines(parts.deep_view().take(i as int)),
        decreases parts@.len() - i,
    {
        if i > 0 {
            r.append("\n");
        }
        r.append(parts[i].as_str());
        proof {
            let pv = parts.deep_view();
            assert(pv.take(i + 1).drop_last() =~= pv.take(i as int));
            assert(pv.take(i + 1).last() == pv[i as int]);
            if i == 0 {
                assert(r@ =~= join_lines(pv.take(i + 1)));
            }
        }
        i += 1;
    }
    proof {
        assert(parts.deep_view().take(parts@.len() as int) =~= parts.deep_view());
    }
    r
}

/// Whether `pre` is a prefix of `s`.
pub open spec fn is_prefix_of(pre: Seq<char>, s: Seq<char>) -> bool {
    pre.len() <= s.len() && s.subrange(0, pre.len() as int) == pre
}

/// Tests whether the string `s` starts with the prefix `pre`.
pub fn str_starts_with(s: &str, pre: &str) -> (r: bool)
    ensures
        r == is_prefix_of(pre@, s@),
{
    let n: usize = pre.unicode_len();
    if n > s.unicode_len() {
        return false;
    }
    let mut i: usize = 0;
    while i < n
        invariant
            i <= n,
            n == pre@.len(),
            n <= s@.len(),
            forall|j: int| 0 <= j < i ==> s@[j] == pre@[j],
        decreases n - i,
    {
        if s.get_char(i) != pre.get_char(i) {
            proof {
                assert(s@.subrange(0, pre@.len() as int)[i as int] == s@[i as int]);
            }
            return false;
        }
        i += 1;
    }
    proof {
        assert(s@.subrange(0, pre@.len() as int) =~= pre@);
    }
    true
}

/// Appends a copy of every string in `vs` to `out`, in order.
pub fn extend_strings(out: &mut Vec<String>, vs: &Vec<String>)
    ensures
        final(out).deep_view() == old(out).deep_view() + vs.deep_view(),
{
    let mut i: usize = 0;
    proof {
        assert(out.deep_view() =~= old(out).deep_view() + vs.deep_view().take(0));
    }
    while i < vs.len()
        invariant
            i <= vs@.len(),
            out.deep_view() == old(out).deep_view() + vs.deep_view().take(i as int),
        decreases vs@.len() - i,
    {
        let c = vs[i].clone();
        let ghost pre = out.deep_view();
        out.push(c);
        proof {
            assert(out.deep_view() =~= pre.push(vs@[i as int]@));
            assert(vs.deep_view().take(i + 1) =~= vs.deep_view().take(i as int).push(
                vs@[i as int]@,
            ));
            assert(out.deep_view() =~= old(out).deep_view() + vs.deep_view().take(i + 1));
        }
        i += 1;
    }
    proof {
        assert(vs.deep_view().take(vs@.len() as int) =~= vs.deep_view());
    }
}

/// A copy of the given strings.
pub fn clone_strings(vs: &Vec<String>) -> (r: Vec<String>)
    ensures
        r.deep_view() == vs.deep_view(),
{
    let mut r: Vec<String> = Vec::new();
    extend_strings(&mut r, vs);
    proof {
        assert(r.deep_view() =~= vs.deep_view());
    }
    r
}

/// Tests whether two strings hold the same characters.
pub fn str_eq(a: &str, b: &str) -> (r: bool)
    ensures
        r == (a@ == b@),
{
    if a.unicode_len() != b.unicode_len() {
        return false;
    }
    let r = str_starts_with(a, b);
    proof {
        if is_prefix_of(b@, a@) {
            assert(a@.subrange(0, b@.len() as int) =~= a@);
        }
        if a@ == b@ {
            assert(a@.subrange(0, b@.len() as int) =~= b@);
        }
    }
    r
}

} // verus!

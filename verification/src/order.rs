//! The order of strings (`str`'s `Ord`: lexicographic by code point, which is
//! the byte order of their UTF-8) and sorting a list of strings by it.
use vstd::prelude::*;
use vstd::relations::{sorted_by, total_ordering};

use crate::text::{chars_of, strs_view};

verus! {

/// `a <= b` in the lexicographic order of code points.
pub open spec fn lex_le(a: Seq<char>, b: Seq<char>) -> bool
    decreases a.len(),
{
    if a.len() == 0 {
        true
    } else if b.len() == 0 {
        false
    } else if a[0] != b[0] {
        (a[0] as int) < (b[0] as int)
    } else {
        lex_le(a.drop_first(), b.drop_first())
    }
}

pub open spec fn lex_leq() -> spec_fn(Seq<char>, Seq<char>) -> bool {
    |a: Seq<char>, b: Seq<char>| lex_le(a, b)
}

/// The strings of `s`, sorted (`slice::sort` on `String`s).
pub open spec fn sorted_strings(s: Seq<Seq<char>>) -> Seq<Seq<char>> {
    s.sort_by(lex_leq())
}

proof fn lemma_lex_reflexive(a: Seq<char>)
    ensures
        lex_le(a, a),
    decreases a.len(),
{
    if a.len() > 0 {
        lemma_lex_reflexive(a.drop_first());
    }
}

proof fn lemma_lex_antisymmetric(a: Seq<char>, b: Seq<char>)
    requires
        lex_le(a, b),
        lex_le(b, a),
    ensures
        a == b,
    decreases a.len(),
{
    if a.len() > 0 && b.len() > 0 {
        lemma_lex_antisymmetric(a.drop_first(), b.drop_first());
        assert(a =~= seq![a[0]] + a.drop_first());
        assert(b =~= seq![b[0]] + b.drop_first());
    }
}

proof fn lemma_lex_transitive(a: Seq<char>, b: Seq<char>, c: Seq<char>)
    requires
        lex_le(a, b),
        lex_le(b, c),
    ensures
        lex_le(a, c),
    decreases a.len(),
{
    if a.len() > 0 && b.len() > 0 && c.len() > 0 {
        if a[0] == b[0] && b[0] == c[0] {
            lemma_lex_transitive(a.drop_first(), b.drop_first(), c.drop_first());
        }
    }
}

proof fn lemma_lex_total(a: Seq<char>, b: Seq<char>)
    ensures
        lex_le(a, b) || lex_le(b, a),
    decreases a.len(),
{
    if a.len() > 0 && b.len() > 0 {
        if a[0] == b[0] {
            lemma_lex_total(a.drop_first(), b.drop_first());
        } else {
            assert((a[0] as int) != (b[0] as int));
        }
    }
}

pub proof fn lemma_lex_total_ordering()
    ensures
        total_ordering(lex_leq()),
{
    assert forall|a: Seq<char>| #[trigger] lex_leq()(a, a) by {
        lemma_lex_reflexive(a);
    }
    assert forall|a: Seq<char>, b: Seq<char>|
        #[trigger] lex_leq()(a, b) && #[trigger] lex_leq()(b, a) implies a == b by {
        lemma_lex_antisymmetric(a, b);
    }
    assert forall|a: Seq<char>, b: Seq<char>, c: Seq<char>|
        #[trigger] lex_leq()(a, b) && #[trigger] lex_leq()(b, c) implies lex_leq()(a, c) by {
        lemma_lex_transitive(a, b, c);
    }
    assert forall|a: Seq<char>, b: Seq<char>|
        #[trigger] lex_leq()(a, b) || #[trigger] lex_leq()(b, a) by {
        lemma_lex_total(a, b);
    }
}

/// The code point of `c`.
pub(crate) fn code_of(c: char) -> (n: u32)
    ensures
        n as int == c as int,
{
    c as u32
}

/// `a <= b` for two strings.
pub fn lex_le_exec(a: &str, b: &str) -> (r: bool)
    ensures
        r == lex_le(a@, b@),
{
    let x = chars_of(a);
    let y = chars_of(b);
    let mut i: usize = 0;
    assert(x@.subrange(0, x@.len() as int) =~= x@);
    assert(y@.subrange(0, y@.len() as int) =~= y@);
    while i < x.len() && i < y.len() && x[i] == y[i]
        invariant
            i <= x@.len(),
            i <= y@.len(),
            lex_le(x@, y@) == lex_le(x@.subrange(i as int, x@.len() as int), y@.subrange(i as int, y@.len() as int)),
        decreases x.len() - i,
    {
        assert(x@.subrange(i as int, x@.len() as int).drop_first() =~= x@.subrange(i + 1, x@.len() as int));
        assert(y@.subrange(i as int, y@.len() as int).drop_first() =~= y@.subrange(i + 1, y@.len() as int));
        i = i + 1;
    }
    if i == x.len() {
        true
    } else if i == y.len() {
        false
    } else {
        code_of(x[i]) < code_of(y[i])
    }
}

/// `v` sorted (`v.sort()`).
pub fn sort_strings(v: Vec<String>) -> (r: Vec<String>)
    ensures
        strs_view(r@) == sorted_strings(strs_view(v@)),
{
    proof {
        lemma_lex_total_ordering();
    }
    let ghost input = strs_view(v@);
    let mut r: Vec<String> = Vec::new();
    let mut v = v;
    let mut done: usize = 0;
    let n = v.len();
    proof {
        assert(strs_view(r@) =~= Seq::<Seq<char>>::empty());
        assert(input.take(0) =~= Seq::<Seq<char>>::empty());
        assert(strs_view(v@) =~= input.subrange(0, n as int));
    }
    while v.len() > 0
        invariant
            input.len() == n,
            done + v.len() == n,
            strs_view(v@) == input.subrange(done as int, n as int),
            sorted_by(strs_view(r@), lex_leq()),
            strs_view(r@).to_multiset() == input.take(done as int).to_multiset(),
            total_ordering(lex_leq()),
        decreases v.len(),
    {
        let ghost vv = strs_view(v@);
        assert(vv[0] == input[done as int]);
        let x = v.remove(0);
        let ghost xv = x@;
        assert(xv == input[done as int]);
        assert(strs_view(v@) =~= vv.drop_first());
        // the first position holding something greater than x
        let mut p: usize = 0;
        while p < r.len() && lex_le_exec(r[p].as_str(), x.as_str())
            invariant
                p <= r.len(),
                xv == x@,
                forall|j: int| 0 <= j < p ==> lex_le(#[trigger] strs_view(r@)[j], xv),
            decreases r.len() - p,
        {
            assert(strs_view(r@)[p as int] == r@[p as int]@);
            p = p + 1;
        }
        let ghost old_r = strs_view(r@);
        proof {
            // everything from p on is above x
            assert forall|j: int| p <= j < old_r.len() implies lex_le(xv, #[trigger] old_r[j]) by {
                if p < old_r.len() {
                    assert(!lex_le(old_r[p as int], xv));
                    lemma_lex_total(old_r[p as int], xv);
                    if j > p {
                        assert(lex_leq()(old_r[p as int], old_r[j]));
                        lemma_lex_transitive(xv, old_r[p as int], old_r[j]);
                    }
                }
            }
        }
        r.insert(p, x);
        proof {
            let nr = strs_view(r@);
            assert(nr =~= old_r.insert(p as int, xv));
            assert forall|i: int, j: int| 0 <= i < j < nr.len() implies #[trigger] lex_leq()(nr[i], nr[j]) by {
                if j < p {
                    assert(lex_leq()(old_r[i], old_r[j]));
                } else if j == p {
                } else if i < p {
                    lemma_lex_transitive(old_r[i], xv, old_r[j - 1]);
                } else if i == p {
                } else {
                    assert(lex_leq()(old_r[i - 1], old_r[j - 1]));
                }
            }
            vstd::seq_lib::to_multiset_insert(old_r, p as int, xv);
            assert(input.take(done + 1) =~= input.take(done as int).push(xv));
            vstd::seq_lib::to_multiset_build(input.take(done as int), xv);
            assert(strs_view(v@) =~= input.subrange(done + 1, n as int));
        }
        done = done + 1;
    }
    proof {
        assert(input.take(n as int) =~= input);
        input.lemma_sort_by_ensures(lex_leq());
        vstd::seq_lib::lemma_sorted_unique(strs_view(r@), sorted_strings(input), lex_leq());
    }
    r
}

} // verus!

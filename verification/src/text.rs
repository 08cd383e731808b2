//! Lists of identifiers, read as lists of texts.

use vstd::prelude::*;

verus! {

/// The texts of a list of strings.
pub open spec fn texts(v: Seq<String>) -> Seq<Seq<char>> {
    Seq::new(v.len(), |i: int| v[i]@)
}

/// The first occurrences of the elements of `s`, in their order.
pub open spec fn distinct_of(s: Seq<Seq<char>>) -> Seq<Seq<char>>
    decreases s.len(),
{
    if s.len() == 0 {
        s
    } else if distinct_of(s.drop_last()).contains(s.last()) {
        distinct_of(s.drop_last())
    } else {
        distinct_of(s.drop_last()).push(s.last())
    }
}

/// `distinct_of` keeps every element once.
pub proof fn distinct_of_facts(s: Seq<Seq<char>>)
    ensures
        distinct_of(s).no_duplicates(),
        distinct_of(s).to_set() == s.to_set(),
        distinct_of(s).len() <= s.len(),
        s.no_duplicates() ==> distinct_of(s) == s,
    decreases s.len(),
{
    if s.len() == 0 {
    } else {
        let t = s.drop_last();
        let d = distinct_of(t);
        distinct_of_facts(t);
        assert forall|x: Seq<char>| s.contains(x) <==> (t.contains(x) || x == s.last()) by {
            if s.contains(x) {
                let i = choose|i: int| 0 <= i < s.len() && s[i] == x;
                if i < t.len() {
                    assert(t[i] == x);
                }
            }
            if t.contains(x) {
                let i = choose|i: int| 0 <= i < t.len() && t[i] == x;
                assert(s[i] == x);
            }
            if x == s.last() {
                assert(s[s.len() - 1] == x);
            }
        }
        assert forall|x: Seq<char>| d.contains(x) <==> t.contains(x) by {
            assert(d.to_set().contains(x) <==> t.to_set().contains(x));
        }
        let r = distinct_of(s);
        if d.contains(s.last()) {
            assert(r.to_set() =~= s.to_set());
        } else {
            assert forall|x: Seq<char>| r.contains(x) <==> (d.contains(x) || x == s.last()) by {
                if r.contains(x) {
                    let i = choose|i: int| 0 <= i < r.len() && r[i] == x;
                    if i < d.len() {
                        assert(d[i] == x);
                    }
                }
                if d.contains(x) {
                    let i = choose|i: int| 0 <= i < d.len() && d[i] == x;
                    assert(r[i] == x);
                }
                if x == s.last() {
                    assert(r[r.len() - 1] == x);
                }
            }
            assert(r.to_set() =~= s.to_set());
            assert forall|i: int, j: int| 0 <= i < r.len() && 0 <= j < r.len() && i != j implies r[i]
                != r[j] by {
                if i < d.len() {
                    assert(d.contains(r[i]));
                }
                if j < d.len() {
                    assert(d.contains(r[j]));
                }
            }
        }
        if s.no_duplicates() {
            assert forall|i: int, j: int| 0 <= i < t.len() && 0 <= j < t.len() && i != j implies t[i]
                != t[j] by {
                assert(t[i] == s[i] && t[j] == s[j]);
            }
            assert(d == t);
            if t.contains(s.last()) {
                let i = choose|i: int| 0 <= i < t.len() && t[i] == s.last();
                assert(s[i] == s[s.len() - 1]);
                assert(false);
            }
            assert(r =~= s);
        }
    }
}

/// Whether `s` is among `v`.
pub fn contains(v: &Vec<String>, s: &String) -> (b: bool)
    ensures
        b == texts(v@).contains(s@),
{
    let mut i: usize = 0;
    while i < v.len()
        invariant
            i <= v@.len(),
            forall|j: int| 0 <= j < i ==> texts(v@)[j] != s@,
        decreases v@.len() - i,
    {
        if v[i] == *s {
            assert(texts(v@)[i as int] == s@);
            return true;
        }
        i += 1;
    }
    false
}

/// A copy of the list.
pub fn copy_all(v: &Vec<String>) -> (r: Vec<String>)
    ensures
        texts(r@) == texts(v@),
{
    let mut out: Vec<String> = Vec::new();
    let mut i: usize = 0;
    while i < v.len()
        invariant
            i <= v@.len(),
            out@.len() == i,
            forall|j: int| 0 <= j < i ==> out@[j]@ == v@[j]@,
        decreases v@.len() - i,
    {
        out.push(v[i].clone());
        i += 1;
    }
    assert(texts(out@) =~= texts(v@));
    out
}

/// The list without repeats: each element stays where it first stood.
pub fn distinct(v: &Vec<String>) -> (r: Vec<String>)
    ensures
        texts(r@) == distinct_of(texts(v@)),
{
    let mut out: Vec<String> = Vec::new();
    let mut i: usize = 0;
    assert(texts(v@).take(0) =~= Seq::<Seq<char>>::empty());
    assert(texts(out@) =~= Seq::<Seq<char>>::empty());
    while i < v.len()
        invariant
            i <= v@.len(),
            texts(out@) == distinct_of(texts(v@).take(i as int)),
        decreases v@.len() - i,
    {
        proof {
            let s1 = texts(v@).take(i as int + 1);
            assert(s1.drop_last() =~= texts(v@).take(i as int));
            assert(s1.last() == v@[i as int]@);
        }
        if !contains(&out, &v[i]) {
            let ghost before = texts(out@);
            out.push(v[i].clone());
            assert(texts(out@) =~= before.push(v@[i as int]@));
        }
        i += 1;
    }
    assert(texts(v@).take(v@.len() as int) =~= texts(v@));
    out
}

} // verus!

//! Sets of identifiers, kept as vectors without repetition, and tables keyed
//! by identifier, kept as vectors of pairs without a repeated key.

use vstd::prelude::*;

verus! {

/// `s` with `x` added at the end, unless it is already there.
pub open spec fn seq_set_insert<T>(s: Seq<T>, x: T) -> Seq<T> {
    if s.contains(x) {
        s
    } else {
        s.push(x)
    }
}

/// `s` without any occurrence of `x`.
pub open spec fn seq_set_remove<T>(s: Seq<T>, x: T) -> Seq<T>
    decreases s.len(),
{
    if s.len() == 0 {
        s
    } else if s.last() == x {
        seq_set_remove(s.drop_last(), x)
    } else {
        seq_set_remove(s.drop_last(), x).push(s.last())
    }
}

/// Whether `x` is in `v`.
pub fn set_contains(v: &Vec<u128>, x: u128) -> (res: bool)
    ensures
        res == v@.contains(x),
{
    let mut i: usize = 0;
    while i < v.len()
        invariant
            i <= v@.len(),
            forall|j: int| 0 <= j < i ==> v@[j] != x,
        decreases v@.len() - i,
    {
        if v[i] == x {
            return true;
        }
        i = i + 1;
    }
    false
}

/// Adds `x` to `v` unless it is there; tells whether it was added.
pub fn set_insert(v: &mut Vec<u128>, x: u128) -> (res: bool)
    ensures
        final(v)@ == seq_set_insert(old(v)@, x),
        res == !old(v)@.contains(x),
{
    if set_contains(v, x) {
        false
    } else {
        v.push(x);
        true
    }
}

/// Removes every occurrence of `x` from `v`; tells whether there was one.
pub fn set_remove(v: &mut Vec<u128>, x: u128) -> (res: bool)
    ensures
        final(v)@ == seq_set_remove(old(v)@, x),
        res == old(v)@.contains(x),
{
    let ghost orig = v@;
    let mut out: Vec<u128> = Vec::new();
    let mut found = false;
    let mut i: usize = 0;
    assert(orig.take(0) =~= Seq::<u128>::empty());
    while i < v.len()
        invariant
            v@ == orig,
            i <= orig.len(),
            out@ == seq_set_remove(orig.take(i as int), x),
            found == orig.take(i as int).contains(x),
        decreases orig.len() - i,
    {
        let y = v[i];
        assert(orig.take(i + 1).drop_last() =~= orig.take(i as int));
        if y != x {
            out.push(y);
        } else {
            found = true;
        }
        proof {
            let t0 = orig.take(i as int);
            let t1 = orig.take(i + 1);
            assert(t1 =~= t0.push(y));
            lemma_seq_set_insert_contains(t0, y, x);
            if !t0.contains(y) {
                assert(seq_set_insert(t0, y) == t1);
            } else {
                if t1.contains(x) {
                    let k = choose|k: int| 0 <= k < t1.len() && t1[k] == x;
                    if k < i {
                        assert(t0[k] == x);
                    } else {
                        let m = choose|m: int| 0 <= m < t0.len() && t0[m] == y;
                        assert(t0[m] == x);
                    }
                }
                if t0.contains(x) {
                    let k = choose|k: int| 0 <= k < t0.len() && t0[k] == x;
                    assert(t1[k] == x);
                }
            }
        }
        i = i + 1;
    }
    assert(orig.take(orig.len() as int) =~= orig);
    *v = out;
    found
}

/// A removal leaves out exactly `x`.
pub proof fn lemma_seq_set_remove_contains<T>(s: Seq<T>, x: T, y: T)
    ensures
        seq_set_remove(s, x).contains(y) == (s.contains(y) && y != x),
    decreases s.len(),
{
    if s.len() > 0 {
        let d = s.drop_last();
        lemma_seq_set_remove_contains(d, x, y);
        assert(s =~= d.push(s.last()));
        lemma_seq_set_insert_contains(d, s.last(), y);
        let r = seq_set_remove(d, x);
        if s.last() != x {
            lemma_push_contains(r, s.last(), y);
        }
        lemma_push_contains(d, s.last(), y);
    }
}

/// Removing what is not there changes nothing.
pub proof fn lemma_seq_set_remove_absent<T>(s: Seq<T>, x: T)
    requires
        !s.contains(x),
    ensures
        seq_set_remove(s, x) == s,
    decreases s.len(),
{
    if s.len() > 0 {
        let d = s.drop_last();
        assert(s.last() == s[s.len() - 1]);
        assert forall|k: int| 0 <= k < d.len() implies d[k] != x by {
            assert(d[k] == s[k]);
        }
        lemma_seq_set_remove_absent(d, x);
        assert(s =~= d.push(s.last()));
    }
}

/// What a pushed sequence contains.
pub proof fn lemma_push_contains<T>(s: Seq<T>, x: T, y: T)
    ensures
        s.push(x).contains(y) == (s.contains(y) || y == x),
{
    if s.push(x).contains(y) {
        let k = choose|k: int| 0 <= k < s.len() + 1 && s.push(x)[k] == y;
        if k < s.len() {
            assert(s[k] == y);
        }
    }
    if s.contains(y) {
        let k = choose|k: int| 0 <= k < s.len() && s[k] == y;
        assert(s.push(x)[k] == y);
    }
    assert(s.push(x)[s.len() as int] == x);
}

/// An insertion adds exactly `x`.
pub proof fn lemma_seq_set_insert_contains<T>(s: Seq<T>, x: T, y: T)
    ensures
        seq_set_insert(s, x).contains(y) == (s.contains(y) || y == x),
{
    if !s.contains(x) {
        if s.push(x).contains(y) {
            let k = choose|k: int| 0 <= k < s.len() + 1 && s.push(x)[k] == y;
            if k < s.len() {
                assert(s[k] == y);
            }
        }
        if s.contains(y) {
            let k = choose|k: int| 0 <= k < s.len() && s[k] == y;
            assert(s.push(x)[k] == y);
        }
        assert(s.push(x)[s.len() as int] == x);
    }
}

/// Whether no key occurs twice in the table `s`.
pub open spec fn keys_unique<V>(s: Seq<(u128, V)>) -> bool {
    forall|i: int, j: int| 0 <= i < s.len() && 0 <= j < s.len() && s[i].0 == s[j].0 ==> i == j
}

/// The position of key `k` in the table `s`, if it is there.
pub open spec fn key_pos<V>(s: Seq<(u128, V)>, k: u128) -> Option<int> {
    if exists|i: int| 0 <= i < s.len() && s[i].0 == k {
        Some(choose|i: int| 0 <= i < s.len() && s[i].0 == k)
    } else {
        None
    }
}

/// In a table without repeated keys, the position of a key is where it stands.
pub proof fn lemma_key_pos_unique<V>(s: Seq<(u128, V)>, k: u128, i: int)
    requires
        keys_unique(s),
        0 <= i < s.len(),
        s[i].0 == k,
    ensures
        key_pos(s, k) == Some(i),
{
}

/// Finds the position of key `k` in the table `v`.
pub fn find_key<V>(v: &Vec<(u128, V)>, k: u128) -> (res: Option<usize>)
    ensures
        res matches Some(i) ==> i < v@.len() && v@[i as int].0 == k,
        res is None ==> forall|i: int| 0 <= i < v@.len() ==> v@[i].0 != k,
        keys_unique(v@) ==> res == (match key_pos(v@, k) {
            Some(i) => Some(i as usize),
            None => None::<usize>,
        }),
{
    let mut i: usize = 0;
    while i < v.len()
        invariant
            i <= v@.len(),
            forall|j: int| 0 <= j < i ==> v@[j].0 != k,
        decreases v@.len() - i,
    {
        if v[i].0 == k {
            return Some(i);
        }
        i = i + 1;
    }
    None
}

/// Whether two byte strings are equal.
pub fn bytes_equal(a: &[u8], b: &[u8]) -> (res: bool)
    ensures
        res == (a@ == b@),
{
    if a.len() != b.len() {
        return false;
    }
    let mut i: usize = 0;
    while i < a.len()
        invariant
            a@.len() == b@.len(),
            i <= a@.len(),
            forall|j: int| 0 <= j < i ==> a@[j] == b@[j],
        decreases a@.len() - i,
    {
        if a[i] != b[i] {
            return false;
        }
        i = i + 1;
    }
    assert(a@ =~= b@);
    true
}

} // verus!

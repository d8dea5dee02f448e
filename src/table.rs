//! Generic helpers for the store's tables: rows keyed by a unique identifier
//! and kept in ascending order of a rank.
use vstd::prelude::*;
use crate::models::Id;

verus! {

/// A row of a table: it has an identifying key and a rank that orders it.
pub trait Row: Sized {
    spec fn key(&self) -> Id;

    spec fn rank(&self) -> int;

    fn key_of(&self) -> (r: Id)
        ensures
            r == self.key(),
    ;

    fn rank_of(&self) -> (r: i128)
        ensures
            r == self.rank(),
    ;

    fn copy_row(&self) -> (r: Self)
        ensures
            r == *self,
    ;
}

/// No two rows share a key.
pub open spec fn unique_keys<T: Row>(s: Seq<T>) -> bool {
    forall|i: int, j: int| 0 <= i < s.len() && 0 <= j < s.len() && i != j ==> s[i].key() != s[j].key()
}

/// Ranks never decrease along the table.
pub open spec fn sorted<T: Row>(s: Seq<T>) -> bool {
    forall|i: int, j: int| 0 <= i < j < s.len() ==> s[i].rank() <= s[j].rank()
}

pub open spec fn has_key<T: Row>(s: Seq<T>, k: Id) -> bool {
    exists|i: int| 0 <= i < s.len() && s[i].key() == k
}

/// The row with key `k`, if any.
pub open spec fn lookup<T: Row>(s: Seq<T>, k: Id) -> Option<T> {
    if has_key(s, k) {
        Some(s[choose|i: int| 0 <= i < s.len() && s[i].key() == k])
    } else {
        None
    }
}

/// `t` is `s` with `x` inserted at some position.
pub open spec fn inserted<T>(s: Seq<T>, t: Seq<T>, x: T) -> bool {
    exists|p: int| 0 <= p <= s.len() && t == s.insert(p, x)
}

pub proof fn lemma_lookup_at<T: Row>(s: Seq<T>, i: int)
    requires
        unique_keys(s),
        0 <= i < s.len(),
    ensures
        lookup(s, s[i].key()) == Some(s[i]),
{
    let k = s[i].key();
    assert(has_key(s, k));
    let j = choose|j: int| 0 <= j < s.len() && s[j].key() == k;
    assert(j == i);
}

pub proof fn lemma_insert_keys<T: Row>(s: Seq<T>, p: int, x: T)
    requires
        unique_keys(s),
        !has_key(s, x.key()),
        0 <= p <= s.len(),
    ensures
        unique_keys(s.insert(p, x)),
        forall|k: Id| has_key(s.insert(p, x), k) <==> (has_key(s, k) || k == x.key()),
        s.insert(p, x).contains(x),
{
    let t = s.insert(p, x);
    assert(t[p] == x);
    assert forall|k: Id| has_key(t, k) <==> (has_key(s, k) || k == x.key()) by {
        if has_key(t, k) {
            let i = choose|i: int| 0 <= i < t.len() && t[i].key() == k;
            if i < p {
                assert(s[i].key() == k);
            } else if i > p {
                assert(s[i - 1].key() == k);
            }
        }
        if has_key(s, k) {
            let i = choose|i: int| 0 <= i < s.len() && s[i].key() == k;
            if i < p {
                assert(t[i].key() == k);
            } else {
                assert(t[i + 1].key() == k);
            }
        }
        if k == x.key() {
            assert(t[p].key() == k);
        }
    }
    assert forall|i: int, j: int| 0 <= i < t.len() && 0 <= j < t.len() && i != j implies t[i].key() != t[j].key() by {
        if i == p {
            if j < p {
                assert(s[j].key() == t[j].key());
            } else {
                assert(s[j - 1].key() == t[j].key());
            }
        } else if j == p {
            if i < p {
                assert(s[i].key() == t[i].key());
            } else {
                assert(s[i - 1].key() == t[i].key());
            }
        } else {
            let si = if i < p { i } else { i - 1 };
            let sj = if j < p { j } else { j - 1 };
            assert(s[si] == t[i]);
            assert(s[sj] == t[j]);
        }
    }
    assert(t.contains(x));
}

pub proof fn lemma_push_keys<T: Row>(s: Seq<T>, x: T)
    requires
        unique_keys(s),
        !has_key(s, x.key()),
    ensures
        unique_keys(s.push(x)),
        forall|k: Id| has_key(s.push(x), k) <==> (has_key(s, k) || k == x.key()),
{
    lemma_insert_keys(s, s.len() as int, x);
    assert(s.insert(s.len() as int, x) =~= s.push(x));
}

/// Position of the row with key `k`.
pub fn position<T: Row>(v: &Vec<T>, k: Id) -> (r: Option<usize>)
    ensures
        match r {
            Some(i) => i < v@.len() && v@[i as int].key() == k,
            None => !has_key(v@, k),
        },
{
    let n = v.len();
    let mut i: usize = 0;
    while i < n
        invariant
            n == v@.len(),
            i <= n,
            forall|j: int| 0 <= j < i ==> v@[j].key() != k,
        decreases n - i,
    {
        if v[i].key_of() == k {
            return Some(i);
        }
        i = i + 1;
    }
    None
}

/// A copy of the row with key `k`, if any.
pub fn find_row<T: Row>(v: &Vec<T>, k: Id) -> (r: Option<T>)
    requires
        unique_keys(v@),
    ensures
        r == lookup(v@, k),
{
    match position(v, k) {
        Some(i) => {
            proof {
                lemma_lookup_at(v@, i as int);
            }
            Some(v[i].copy_row())
        },
        None => None,
    }
}

/// Inserts `x` after every row of rank at most its own, keeping the order.
pub fn insert_ranked<T: Row>(v: &mut Vec<T>, x: T)
    requires
        sorted(old(v)@),
    ensures
        sorted(final(v)@),
        inserted(old(v)@, final(v)@, x),
{
    let xr = x.rank_of();
    let n = v.len();
    let mut p: usize = 0;
    let mut found = false;
    while p < n && !found
        invariant
            n == v@.len(),
            xr == x.rank(),
            p <= n,
            sorted(v@),
            v@ == old(v)@,
            forall|k: int| 0 <= k < p ==> v@[k].rank() <= x.rank(),
            found ==> p < n && v@[p as int].rank() > x.rank(),
        decreases n - p + if found { 0int } else { 1int },
    {
        if v[p].rank_of() > xr {
            found = true;
        } else {
            p = p + 1;
        }
    }
    let ghost s = v@;
    assert(forall|k: int| p <= k < n ==> s[k].rank() > x.rank()) by {
        assert forall|k: int| p <= k < n implies s[k].rank() > x.rank() by {
            assert(s[p as int].rank() <= s[k].rank());
        }
    }
    v.insert(p, x);
    assert(v@ == s.insert(p as int, x));
    assert forall|i: int, j: int| 0 <= i < j < v@.len() implies v@[i].rank() <= v@[j].rank() by {
        if j < p {
            assert(v@[i] == s[i] && v@[j] == s[j]);
        } else if j == p {
            assert(v@[i] == s[i]);
        } else if i < p {
            assert(v@[i] == s[i] && v@[j] == s[j - 1]);
        } else if i == p {
            assert(v@[j] == s[j - 1]);
        } else {
            assert(v@[i] == s[i - 1] && v@[j] == s[j - 1]);
        }
    }
}

} // verus!

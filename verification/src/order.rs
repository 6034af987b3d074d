//! Stable ordering from the greatest key down.

use vstd::prelude::*;
use crate::text::chars_of;

verus! {

/// A key by which items are ordered.
pub trait Key: Sized {
    /// Whether this key is strictly smaller than the other.
    spec fn below(&self, other: &Self) -> bool;

    /// Whether this key is strictly smaller than the other.
    fn is_below(&self, other: &Self) -> (r: bool)
        ensures
            r == self.below(other),
    ;

    /// No key is both below and above another, and what is not below is
    /// handed on: the keys form a line.
    proof fn lemma_line(a: &Self, b: &Self, c: &Self)
        ensures
            !(a.below(b) && b.below(a)),
            (!a.below(b) && !b.below(c)) ==> !a.below(c),
    ;
}

impl Key for i32 {
    open spec fn below(&self, other: &Self) -> bool {
        *self < *other
    }

    fn is_below(&self, other: &Self) -> (r: bool) {
        *self < *other
    }

    proof fn lemma_line(a: &Self, b: &Self, c: &Self) {
    }
}

/// Whether the text `a` comes before the text `b` in the dictionary, where
/// characters are ordered by their code.
pub open spec fn text_below(a: Seq<char>, b: Seq<char>) -> bool
    decreases a.len(),
{
    if b.len() == 0 {
        false
    } else if a.len() == 0 {
        true
    } else if a[0] != b[0] {
        (a[0] as int) < (b[0] as int)
    } else {
        text_below(a.skip(1), b.skip(1))
    }
}

/// No text comes both before and after another.
pub proof fn lemma_text_one_way(a: Seq<char>, b: Seq<char>)
    ensures
        !(text_below(a, b) && text_below(b, a)),
    decreases a.len(),
{
    if a.len() > 0 && b.len() > 0 && a[0] == b[0] {
        lemma_text_one_way(a.skip(1), b.skip(1));
    }
}

/// Where `a` does not come before `b`, nor `b` before `c`, `a` does not come before `c`.
pub proof fn lemma_text_handed_on(a: Seq<char>, b: Seq<char>, c: Seq<char>)
    requires
        !text_below(a, b),
        !text_below(b, c),
    ensures
        !text_below(a, c),
    decreases a.len(),
{
    if a.len() > 0 && b.len() > 0 && c.len() > 0 && a[0] == b[0] && b[0] == c[0] {
        lemma_text_handed_on(a.skip(1), b.skip(1), c.skip(1));
    }
}

/// Of two different texts one comes before the other.
pub proof fn lemma_text_apart(a: Seq<char>, b: Seq<char>)
    requires
        !text_below(a, b),
        !text_below(b, a),
    ensures
        a == b,
    decreases a.len(),
{
    if a.len() > 0 && b.len() > 0 {
        lemma_text_apart(a.skip(1), b.skip(1));
        assert(a =~= seq![a[0]] + a.skip(1));
        assert(b =~= seq![b[0]] + b.skip(1));
    } else {
        assert(a =~= b);
    }
}

impl Key for String {
    open spec fn below(&self, other: &Self) -> bool {
        text_below(self@, other@)
    }

    fn is_below(&self, other: &Self) -> (r: bool) {
        let a = chars_of(self.as_str());
        let b = chars_of(other.as_str());
        let mut i: usize = 0;
        assert(a@.skip(0) =~= a@);
        assert(b@.skip(0) =~= b@);
        while i < a.len() && i < b.len()
            invariant
                i <= a.len(),
                i <= b.len(),
                a@ == self@,
                b@ == other@,
                text_below(a@, b@) == text_below(a@.skip(i as int), b@.skip(i as int)),
            decreases a.len() - i,
        {
            if a[i] != b[i] {
                assert(a@.skip(i as int)[0] == a@[i as int]);
                assert(b@.skip(i as int)[0] == b@[i as int]);
                return a[i] < b[i];
            }
            assert(a@.skip(i as int)[0] == a@[i as int]);
            assert(b@.skip(i as int)[0] == b@[i as int]);
            assert(a@.skip(i as int).skip(1) =~= a@.skip(i + 1));
            assert(b@.skip(i as int).skip(1) =~= b@.skip(i + 1));
            i += 1;
        }
        i < b.len()
    }

    proof fn lemma_line(a: &Self, b: &Self, c: &Self) {
        lemma_text_one_way(a@, b@);
        if !text_below(a@, b@) && !text_below(b@, c@) {
            lemma_text_handed_on(a@, b@, c@);
        }
    }
}

/// Whether the item at `a` comes before the item at `b` where the greater key
/// goes first and, of equal keys, the one that came first.
pub open spec fn precedes<K: Key>(keys: Seq<K>, a: int, b: int) -> bool {
    keys[b].below(&keys[a]) || (!keys[a].below(&keys[b]) && a < b)
}

/// Where the item `x` goes into an order: behind every item whose key is not
/// below its own.
pub open spec fn place<K: Key>(keys: Seq<K>, order: Seq<usize>, x: int) -> int
    decreases order.len(),
{
    if order.len() == 0 {
        0
    } else if keys[order.last() as int].below(&keys[x]) {
        place(keys, order.drop_last(), x)
    } else {
        order.len() as int
    }
}

/// The first `n` places of `keys`, arranged from the greatest key down; of
/// equal keys the one that came first stays first.
pub open spec fn descending<K: Key>(keys: Seq<K>, n: nat) -> Seq<usize>
    decreases n,
{
    if n == 0 {
        Seq::empty()
    } else {
        let before = descending(keys, (n - 1) as nat);
        before.insert(place(keys, before, n - 1), (n - 1) as usize)
    }
}

/// The place found lies within the order; behind it every key is below the
/// new one, and just before it stands one that is not.
pub proof fn lemma_place<K: Key>(keys: Seq<K>, order: Seq<usize>, x: int)
    ensures
        0 <= place(keys, order, x) <= order.len(),
        forall|j: int|
            place(keys, order, x) <= j < order.len() ==> keys[#[trigger] order[j] as int].below(
                &keys[x],
            ),
        place(keys, order, x) > 0 ==> !keys[order[place(keys, order, x) - 1] as int].below(
            &keys[x],
        ),
    decreases order.len(),
{
    if order.len() > 0 && keys[order.last() as int].below(&keys[x]) {
        let rest = order.drop_last();
        lemma_place(keys, rest, x);
        assert forall|j: int| place(keys, order, x) <= j < order.len() implies keys[#[trigger] order[j] as int].below(
            &keys[x],
        ) by {
            if j < rest.len() {
                assert(rest[j] == order[j]);
            }
        }
        if place(keys, order, x) > 0 {
            assert(rest[place(keys, order, x) - 1] == order[place(keys, order, x) - 1]);
        }
    }
}

/// Whether `order` names each of the first `n` places once.
pub open spec fn arranges(order: Seq<usize>, n: nat) -> bool {
    &&& order.len() == n
    &&& forall|i: int| 0 <= i < order.len() ==> (#[trigger] order[i]) < n
    &&& forall|i: int, j: int| 0 <= i < j < order.len() ==> order[i] != order[j]
}

/// Whether each item of `order` comes before those behind it.
pub open spec fn in_line<K: Key>(keys: Seq<K>, order: Seq<usize>) -> bool {
    forall|i: int, j: int|
        0 <= i < j < order.len() ==> precedes(keys, #[trigger] order[i] as int, #[trigger] order[j] as int)
}

/// The descending arrangement names every place once, no key in it is
/// followed by a greater one, and equal keys keep the order they came in.
pub proof fn lemma_descending<K: Key>(keys: Seq<K>, n: nat)
    requires
        n <= keys.len(),
        n <= usize::MAX,
    ensures
        arranges(descending(keys, n), n),
        in_line(keys, descending(keys, n)),
    decreases n,
{
    if n > 0 {
        let before = descending(keys, (n - 1) as nat);
        let x = n - 1;
        let p = place(keys, before, x);
        let after = descending(keys, n);
        lemma_descending(keys, (n - 1) as nat);
        lemma_place(keys, before, x);
        assert(after.len() == n);
        assert(after[p] == x);
        assert forall|i: int| 0 <= i < p implies after[i] == before[i] by {}
        assert forall|i: int| p < i < after.len() implies after[i] == before[i - 1] by {}
        assert forall|i: int, j: int| 0 <= i < j < after.len() implies precedes(
            keys,
            #[trigger] after[i] as int,
            #[trigger] after[j] as int,
        ) by {
            if j == p {
                // an older item before the new one: its key is not below
                assert(after[i] == before[i]);
                assert(before[i] < x);
                if i < p - 1 {
                    assert(precedes(keys, before[i] as int, before[p - 1] as int));
                    K::lemma_line(&keys[before[p - 1] as int], &keys[before[i] as int], &keys[x]);
                    K::lemma_line(&keys[before[i] as int], &keys[before[p - 1] as int], &keys[x]);
                }
                K::lemma_line(&keys[before[i] as int], &keys[x], &keys[x]);
            } else if i == p {
                assert(after[j] == before[j - 1]);
                assert(keys[before[j - 1] as int].below(&keys[x]));
            } else {
                let a = if i < p {
                    i
                } else {
                    i - 1
                };
                let b = if j < p {
                    j
                } else {
                    j - 1
                };
                assert(after[i] == before[a]);
                assert(after[j] == before[b]);
            }
        }
        assert forall|i: int, j: int| 0 <= i < j < after.len() implies after[i] != after[j] by {
            let a = if i < p {
                i
            } else {
                i - 1
            };
            let b = if j < p {
                j
            } else {
                j - 1
            };
            if i != p && j != p {
                assert(after[i] == before[a]);
                assert(after[j] == before[b]);
            } else if i == p {
                assert(after[j] == before[b]);
            } else {
                assert(after[i] == before[a]);
            }
        }
        assert forall|i: int| 0 <= i < after.len() implies (#[trigger] after[i]) < n by {
            if i < p {
                assert(after[i] == before[i]);
            } else if i > p {
                assert(after[i] == before[i - 1]);
            }
        }
    }
}

/// The places of `keys`, arranged from the greatest key down; of equal keys
/// the one that came first stays first.
pub fn descending_order<K: Key>(keys: &Vec<K>) -> (order: Vec<usize>)
    ensures
        order@ == descending(keys@, keys@.len()),
{
    let mut order: Vec<usize> = Vec::new();
    let mut n: usize = 0;
    while n < keys.len()
        invariant
            n <= keys.len(),
            order@ == descending(keys@, n as nat),
        decreases keys.len() - n,
    {
        proof {
            lemma_descending(keys@, n as nat);
        }
        let mut p: usize = order.len();
        assert(order@.take(p as int) =~= order@);
        while p > 0 && keys[order[p - 1]].is_below(&keys[n])
            invariant
                p <= order.len(),
                n < keys.len(),
                arranges(order@, n as nat),
                place(keys@, order@, n as int) == place(keys@, order@.take(p as int), n as int),
            decreases p,
        {
            assert(order@.take(p as int).drop_last() =~= order@.take(p - 1));
            p -= 1;
        }
        proof {
            if p > 0 {
                assert(order@.take(p as int).last() == order@[p - 1]);
            }
        }
        order.insert(p, n);
        n += 1;
    }
    order
}

} // verus!

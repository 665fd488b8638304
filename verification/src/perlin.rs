//! The lattice of a Perlin noise: random values behind three permutations.

use vstd::prelude::*;
use crate::random::random_int;
use crate::scalar::Scalar;

verus! {

/// The number of lattice values, and the length of each permutation.
pub const POINT_COUNT: usize = 256;

/// Whether `s` holds each of the numbers below its length exactly once.
pub open spec fn is_permutation(s: Seq<usize>) -> bool {
    &&& forall|i: int| 0 <= i < s.len() ==> #[trigger] s[i] < s.len()
    &&& forall|i: int, j: int| 0 <= i < j < s.len() ==> #[trigger] s[i] != #[trigger] s[j]
}

/// The sequence `s` with the items at `i` and `j` exchanged.
pub open spec fn exchanged(s: Seq<usize>, i: int, j: int) -> Seq<usize> {
    s.update(i, s[j]).update(j, s[i])
}

/// Exchanging two items of a permutation gives a permutation.
pub proof fn lemma_exchange_permutation(s: Seq<usize>, i: int, j: int)
    requires
        is_permutation(s),
        0 <= i < s.len(),
        0 <= j < s.len(),
    ensures
        is_permutation(exchanged(s, i, j)),
{
    let t = exchanged(s, i, j);
    assert forall|a: int, b: int| 0 <= a < b < t.len() implies #[trigger] t[a] != #[trigger] t[b] by {
        let sa = if a == i { j } else if a == j { i } else { a };
        let sb = if b == i { j } else if b == j { i } else { b };
        assert(t[a] == s[sa]);
        assert(t[b] == s[sb]);
        assert(sa != sb);
        if sa < sb {
            assert(s[sa] != s[sb]);
        } else {
            assert(s[sb] != s[sa]);
        }
    }
}

/// Whether `after` holds the items of `before` in another order: whether
/// some permutation of the places takes the one to the other.
pub open spec fn rearranged(before: Seq<usize>, after: Seq<usize>) -> bool {
    exists|places: Seq<usize>| #[trigger] moved_by(before, after, places)
}

/// Whether `after` holds at each place the item that `before` holds at the
/// place that `places` names for it, and `places` names every place once.
pub open spec fn moved_by(before: Seq<usize>, after: Seq<usize>, places: Seq<usize>) -> bool {
    &&& places.len() == before.len()
    &&& after.len() == before.len()
    &&& is_permutation(places)
    &&& forall|i: int| 0 <= i < after.len() ==> #[trigger] after[i] == before[places[i] as int]
}

/// The numbers from zero up to `n`, in order.
pub open spec fn counting(n: nat) -> Seq<usize> {
    Seq::new(n, |i: int| i as usize)
}

/// The numbers from zero up to `n` in another order are a permutation.
pub proof fn lemma_rearranged_counting(n: nat, after: Seq<usize>)
    requires
        n <= usize::MAX,
        rearranged(counting(n), after),
    ensures
        after.len() == n,
        is_permutation(after),
{
    let places = choose|places: Seq<usize>| #[trigger] moved_by(counting(n), after, places);
    assert forall|i: int| 0 <= i < after.len() implies #[trigger] after[i] == places[i] by {
        assert(after[i] == counting(n)[places[i] as int]);
    }
    assert(after =~= places);
}

/// A Perlin noise lattice: 256 random values, and one permutation of
/// `0..256` for each axis, by which a lattice point finds its value.
pub struct Perlin {
    ranfloat: [Scalar; POINT_COUNT],
    perm_x: Vec<usize>,
    perm_y: Vec<usize>,
    perm_z: Vec<usize>,
}

impl Perlin {
    #[verifier::type_invariant]
    spec fn inv(&self) -> bool {
        &&& self.perm_x@.len() == POINT_COUNT
        &&& self.perm_y@.len() == POINT_COUNT
        &&& self.perm_z@.len() == POINT_COUNT
        &&& is_permutation(self.perm_x@)
        &&& is_permutation(self.perm_y@)
        &&& is_permutation(self.perm_z@)
    }

    /// The lattice values.
    pub closed spec fn values(&self) -> Seq<Scalar> {
        self.ranfloat@
    }

    /// The permutation of the given axis (0, 1 or 2).
    pub closed spec fn permutation(&self, axis: int) -> Seq<usize> {
        if axis == 0 {
            self.perm_x@
        } else if axis == 1 {
            self.perm_y@
        } else {
            self.perm_z@
        }
    }

    /// Where the value of the lattice point `(x, y, z)` stands among the
    /// lattice values: each coordinate is taken modulo 256 and sent through
    /// its axis' permutation, and the three results are combined bit by
    /// bit with exclusive or.
    pub open spec fn slot(&self, x: usize, y: usize, z: usize) -> usize {
        self.permutation(0)[(x & 255) as int] ^ self.permutation(1)[(y & 255) as int]
            ^ self.permutation(2)[(z & 255) as int]
    }

    /// A lattice over the given 256 values, with three fresh random
    /// permutations.
    pub fn new(ranfloat: [Scalar; POINT_COUNT]) -> (p: Self)
        ensures
            p.values() == ranfloat@,
            is_permutation(p.permutation(0)) && p.permutation(0).len() == POINT_COUNT,
            is_permutation(p.permutation(1)) && p.permutation(1).len() == POINT_COUNT,
            is_permutation(p.permutation(2)) && p.permutation(2).len() == POINT_COUNT,
    {
        let perm_x = Self::perlin_generate_perm();
        let perm_y = Self::perlin_generate_perm();
        let perm_z = Self::perlin_generate_perm();
        Self { ranfloat, perm_x, perm_y, perm_z }
    }

    /// The value of the lattice point `(x, y, z)`.
    pub fn lattice_value(&self, x: usize, y: usize, z: usize) -> (r: Scalar)
        ensures
            self.slot(x, y, z) < POINT_COUNT,
            r == self.values()[self.slot(x, y, z) as int],
    {
        proof {
            use_type_invariant(self);
        }
        let xi: usize = x & 255;
        let yi: usize = y & 255;
        let zi: usize = z & 255;
        assert(xi < 256 && yi < 256 && zi < 256) by (bit_vector)
            requires
                xi == x & 255,
                yi == y & 255,
                zi == z & 255,
        ;
        let a: usize = self.perm_x[xi];
        let b: usize = self.perm_y[yi];
        let c: usize = self.perm_z[zi];
        assert(a < 256 && b < 256 && c < 256);
        let idx: usize = a ^ b ^ c;
        assert(idx < 256) by (bit_vector)
            requires
                a < 256,
                b < 256,
                c < 256,
                idx == a ^ b ^ c,
        ;
        self.ranfloat[idx]
    }

    /// A random permutation of `0..256`.
    pub fn perlin_generate_perm() -> (p: Vec<usize>)
        ensures
            p@.len() == POINT_COUNT,
            is_permutation(p@),
    {
        let mut p: Vec<usize> = Vec::with_capacity(POINT_COUNT);
        let mut i: usize = 0;
        while i < POINT_COUNT
            invariant
                i <= POINT_COUNT,
                p@.len() == i,
                forall|k: int| 0 <= k < i ==> p@[k] == k,
            decreases POINT_COUNT - i,
        {
            p.push(i);
            i += 1;
        }
        let ghost before = p@;
        assert(before =~= counting(POINT_COUNT as nat));
        Self::permute(&mut p, POINT_COUNT);
        proof {
            lemma_rearranged_counting(POINT_COUNT as nat, p@);
        }
        p
    }

    /// Makes the items at `i` and `target` change places.
    pub fn exchange(p: &mut Vec<usize>, i: usize, target: usize)
        requires
            i < old(p)@.len(),
            target < old(p)@.len(),
        ensures
            final(p)@ == exchanged(old(p)@, i as int, target as int),
    {
        let at_i: usize = p[i];
        let at_target: usize = p[target];
        p.set(i, at_target);
        p.set(target, at_i);
    }

    /// Shuffles the first `n` items of `p`: each item from the second on
    /// changes places with a random item at or before it.
    pub fn permute(p: &mut Vec<usize>, n: usize)
        requires
            n <= old(p)@.len(),
            n <= i32::MAX,
        ensures
            rearranged(old(p)@, final(p)@),
            forall|k: int| n <= k < old(p)@.len() ==> final(p)@[k] == old(p)@[k],
    {
        let len: usize = p.len();
        let ghost mut places: Seq<usize> = counting(len as nat);
        assert(is_permutation(places));
        let mut i: usize = 1;
        while i < n
            invariant
                1 <= i,
                n <= p@.len(),
                n <= i32::MAX,
                moved_by(old(p)@, p@, places),
                forall|k: int| n <= k < old(p)@.len() ==> p@[k] == old(p)@[k],
            decreases n - i,
        {
            let target: usize = random_int(0, i as i32) as usize;
            let ghost before = p@;
            let ghost moved = places;
            proof {
                lemma_exchange_permutation(places, i as int, target as int);
                places = exchanged(places, i as int, target as int);
            }
            Self::exchange(p, i, target);
            assert forall|k: int| 0 <= k < p@.len() implies #[trigger] p@[k] == old(p)@[places[k] as int] by {
                assert(before[k] == old(p)@[moved[k] as int]);
                assert(before[i as int] == old(p)@[moved[i as int] as int]);
                assert(before[target as int] == old(p)@[moved[target as int] as int]);
            }
            i += 1;
        }
    }
}

} // verus!

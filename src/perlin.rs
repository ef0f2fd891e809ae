//! Perlin noise lattice: three random permutations of the lattice indices and
//! one gradient vector per index.

use vstd::prelude::*;

use glam::DVec3;

use crate::random::random_below;

verus! {

/// The number of lattice points along each axis before the pattern repeats,
/// and the number of gradient vectors.
pub const POINT_COUNT: usize = 256;

/// `p` holds each of `0..n` exactly once.
pub open spec fn is_permutation(p: Seq<usize>, n: nat) -> bool {
    &&& p.len() == n
    &&& forall|i: int| 0 <= i < n ==> #[trigger] p[i] < n
    &&& forall|i: int, j: int| 0 <= i < j < n ==> #[trigger] p[i] != #[trigger] p[j]
}

/// The gradient index of lattice point `(i, j, k)`: the three axis tables,
/// read at the point's coordinates modulo the lattice size, combined by xor.
pub open spec fn lattice_hash(
    perm_x: Seq<usize>,
    perm_y: Seq<usize>,
    perm_z: Seq<usize>,
    i: usize,
    j: usize,
    k: usize,
) -> usize {
    perm_x[i as int % 256] ^ perm_y[j as int % 256] ^ perm_z[k as int % 256]
}

/// Values of the three tables below the lattice size combine below it too.
proof fn lemma_xor_below(a: usize, b: usize, c: usize)
    requires
        a < 256,
        b < 256,
        c < 256,
    ensures
        a ^ b ^ c < 256,
{
    assert(a < 256 && b < 256 && c < 256 ==> a ^ b ^ c < 256) by (bit_vector);
}

/// `s` with the entries at `i` and `j` exchanged.
pub open spec fn swapped(s: Seq<usize>, i: int, j: int) -> Seq<usize> {
    s.update(i, s[j]).update(j, s[i])
}

/// Whether `targets` may drive a shuffle: each position's swap partner lies
/// at or before it.
pub open spec fn valid_targets(targets: Seq<usize>) -> bool {
    forall|i: int| 0 <= i < targets.len() ==> #[trigger] targets[i] <= i
}

/// `s` after exchanging, for each position `i` from `n - 1` down to `0`, the
/// entry at `i` with the one at `targets[i]`.
pub open spec fn shuffled(s: Seq<usize>, targets: Seq<usize>, n: nat) -> Seq<usize>
    decreases n,
{
    if n == 0 {
        s
    } else {
        shuffled(swapped(s, n - 1, targets[n - 1] as int), targets, (n - 1) as nat)
    }
}

/// Exchanges, for each position `i` of `targets` from the last down to the
/// first, the entry of `p` at `i` with the one at `targets[i]`: with uniform
/// targets, a Fisher-Yates shuffle of the first `targets.len()` entries.
pub fn shuffle(p: &mut Vec<usize>, targets: &Vec<usize>)
    requires
        targets@.len() <= old(p)@.len(),
        valid_targets(targets@),
    ensures
        final(p)@ == shuffled(old(p)@, targets@, targets@.len()),
        is_permutation(old(p)@, old(p)@.len()) ==> is_permutation(final(p)@, old(p)@.len()),
{
    let n = targets.len();
    let mut i: usize = n;
    while i > 0
        invariant
            i <= n,
            n == targets@.len(),
            n <= p@.len(),
            p@.len() == old(p)@.len(),
            valid_targets(targets@),
            shuffled(p@, targets@, i as nat) == shuffled(old(p)@, targets@, n as nat),
            is_permutation(old(p)@, old(p)@.len()) ==> is_permutation(p@, p@.len()),
        decreases i,
    {
        i = i - 1;
        let target = targets[i];
        assert(target <= i);
        let ghost before = p@;
        let a = p[i];
        let b = p[target];
        p[i] = b;
        p[target] = a;
        assert(p@ =~= swapped(before, i as int, target as int));
    }
}

/// Shuffles the first `n` entries of `p` in place: each position from the
/// last down to the second is swapped with a uniformly drawn position at or
/// before it.
fn permute(p: &mut Vec<usize>, n: usize)
    requires
        n <= old(p)@.len(),
    ensures
        exists|targets: Seq<usize>|
            targets.len() == n && valid_targets(targets) && final(p)@ == #[trigger] shuffled(
                old(p)@,
                targets,
                n as nat,
            ),
        is_permutation(old(p)@, old(p)@.len()) ==> is_permutation(final(p)@, old(p)@.len()),
{
    let mut targets: Vec<usize> = Vec::with_capacity(n);
    let mut i: usize = 0;
    while i < n
        invariant
            i <= n,
            targets@.len() == i,
            valid_targets(targets@),
        decreases n - i,
    {
        let t = random_below(i + 1);
        targets.push(t);
        i = i + 1;
    }
    shuffle(p, &targets);
}

/// A random permutation of `0..POINT_COUNT`.
fn generate_perm_vec() -> (r: Vec<usize>)
    ensures
        is_permutation(r@, POINT_COUNT as nat),
{
    let mut p: Vec<usize> = Vec::with_capacity(POINT_COUNT);
    let mut i: usize = 0;
    while i < POINT_COUNT
        invariant
            i <= POINT_COUNT,
            p@.len() == i,
            forall|m: int| 0 <= m < i ==> #[trigger] p@[m] == m,
        decreases POINT_COUNT - i,
    {
        p.push(i);
        i = i + 1;
    }
    permute(&mut p, POINT_COUNT);
    p
}

/// The tables of a Perlin noise generator.
#[derive(Debug)]
pub struct Perlin {
    rand_vecs: Vec<DVec3>,
    perm_x: Vec<usize>,
    perm_y: Vec<usize>,
    perm_z: Vec<usize>,
}

impl Perlin {
    #[verifier::type_invariant]
    spec fn well_formed(&self) -> bool {
        &&& self.rand_vecs@.len() == POINT_COUNT
        &&& is_permutation(self.perm_x@, POINT_COUNT as nat)
        &&& is_permutation(self.perm_y@, POINT_COUNT as nat)
        &&& is_permutation(self.perm_z@, POINT_COUNT as nat)
    }

    /// The gradient vectors, one per lattice index.
    pub closed spec fn gradients(&self) -> Seq<DVec3> {
        self.rand_vecs@
    }

    /// The permutation applied to x coordinates.
    pub closed spec fn perm_x_table(&self) -> Seq<usize> {
        self.perm_x@
    }

    /// The permutation applied to y coordinates.
    pub closed spec fn perm_y_table(&self) -> Seq<usize> {
        self.perm_y@
    }

    /// The permutation applied to z coordinates.
    pub closed spec fn perm_z_table(&self) -> Seq<usize> {
        self.perm_z@
    }

    /// The gradient index of lattice point `(i, j, k)`.
    pub open spec fn hash_of(&self, i: usize, j: usize, k: usize) -> usize {
        lattice_hash(self.perm_x_table(), self.perm_y_table(), self.perm_z_table(), i, j, k)
    }

    /// A generator over the given gradient vectors, one per lattice index,
    /// with three freshly drawn random axis permutations.
    pub fn new(rand_vecs: Vec<DVec3>) -> (r: Self)
        requires
            rand_vecs@.len() == POINT_COUNT,
        ensures
            r.gradients() == rand_vecs@,
            is_permutation(r.perm_x_table(), POINT_COUNT as nat),
            is_permutation(r.perm_y_table(), POINT_COUNT as nat),
            is_permutation(r.perm_z_table(), POINT_COUNT as nat),
    {
        let perm_x = generate_perm_vec();
        let perm_y = generate_perm_vec();
        let perm_z = generate_perm_vec();
        Self { rand_vecs, perm_x, perm_y, perm_z }
    }

    /// The gradient index of lattice point `(i, j, k)`; the lattice repeats
    /// every `POINT_COUNT` points along each axis.
    pub fn hash(&self, i: usize, j: usize, k: usize) -> (r: usize)
        ensures
            r == self.hash_of(i, j, k),
            r < POINT_COUNT,
    {
        proof {
            use_type_invariant(self);
        }
        let mask: usize = POINT_COUNT - 1;
        let ii = i & mask;
        let jj = j & mask;
        let kk = k & mask;
        assert(ii == i % 256 && jj == j % 256 && kk == k % 256) by (bit_vector)
            requires
                mask == 255,
                ii == i & mask,
                jj == j & mask,
                kk == k & mask,
        ;
        let a = self.perm_x[ii];
        let b = self.perm_y[jj];
        let c = self.perm_z[kk];
        proof {
            lemma_xor_below(a, b, c);
        }
        a ^ b ^ c
    }

    /// The gradient vector at lattice point `(i, j, k)`.
    pub fn gradient(&self, i: usize, j: usize, k: usize) -> (r: DVec3)
        ensures
            r == self.gradients()[self.hash_of(i, j, k) as int],
    {
        proof {
            use_type_invariant(self);
        }
        let h = self.hash(i, j, k);
        self.rand_vecs[h]
    }
}

/// A copy of each vector of `v`, in order.
fn copy_vectors(v: &Vec<DVec3>) -> (r: Vec<DVec3>)
    ensures
        r@ == v@,
{
    let mut r: Vec<DVec3> = Vec::with_capacity(v.len());
    let mut i: usize = 0;
    while i < v.len()
        invariant
            i <= v@.len(),
            r@ == v@.subrange(0, i as int),
        decreases v@.len() - i,
    {
        r.push(v[i]);
        i = i + 1;
    }
    assert(r@ =~= v@);
    r
}

impl Clone for Perlin {
    fn clone(&self) -> (r: Self)
        ensures
            r.gradients() == self.gradients(),
            r.perm_x_table() == self.perm_x_table(),
            r.perm_y_table() == self.perm_y_table(),
            r.perm_z_table() == self.perm_z_table(),
    {
        proof {
            use_type_invariant(self);
        }
        let perm_x = self.perm_x.clone();
        let perm_y = self.perm_y.clone();
        let perm_z = self.perm_z.clone();
        assert(perm_x@ =~= self.perm_x@);
        assert(perm_y@ =~= self.perm_y@);
        assert(perm_z@ =~= self.perm_z@);
        Self { rand_vecs: copy_vectors(&self.rand_vecs), perm_x, perm_y, perm_z }
    }
}

} // verus!

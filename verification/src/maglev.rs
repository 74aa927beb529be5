//! A Maglev-style consistent-hashing lookup table over a set of backends.
//!
//! Each backend gets a permutation of the table positions derived from two
//! hashes of its name; the table is filled by letting the backends take
//! turns claiming their next free position.  Both hashes are pure
//! functions of the name, so the same backends and size always produce the
//! same table.

use vstd::prelude::*;

verus! {

/// The 64-bit FNV-1a hash of `s` from index `i`, folding into `acc`.
pub open spec fn fnv1a_spec(s: Seq<u8>, i: int, acc: u64) -> u64
    decreases s.len() - i,
{
    if i < 0 || i >= s.len() {
        acc
    } else {
        fnv1a_spec(
            s,
            i + 1,
            vstd::wrapping::u64_specs::wrapping_mul(acc ^ (s[i] as u64), 0x100000001b3),
        )
    }
}

/// The FNV-1a offset basis.
pub const FNV_OFFSET_BASIS: u64 = 0xcbf29ce484222325;

/// The 64-bit FNV-1a hash of a byte string.
pub fn fnv1a(data: &Vec<u8>) -> (r: u64)
    ensures
        r == fnv1a_spec(data@, 0, FNV_OFFSET_BASIS),
{
    let mut acc: u64 = FNV_OFFSET_BASIS;
    let mut i: usize = 0;
    while i < data.len()
        invariant
            i <= data@.len(),
            fnv1a_spec(data@, 0, FNV_OFFSET_BASIS) == fnv1a_spec(data@, i as int, acc),
        decreases data@.len() - i,
    {
        acc = (acc ^ (data[i] as u64)).wrapping_mul(0x100000001b3);
        i = i + 1;
    }
    acc
}

/// What `twox_hash`'s 64-bit hash returns for a byte string under seed
/// zero; it depends on the bytes alone.
pub uninterp spec fn xx64_of(data: Seq<u8>) -> u64;

/// Relies on twox_hash::XxHash64::oneshot: the result is a pure function
/// of the seed and the bytes.
#[verifier::external_body]
fn xx_hash64(data: &Vec<u8>) -> (r: u64)
    ensures
        r == xx64_of(data@),
{
    twox_hash::XxHash64::oneshot(0, data.as_slice())
}

/// The sentinel marking an unclaimed table position.
pub const LUT_FREE: u32 = 0x8000;

/// A backend's starting offset in the table, derived from the 64-bit
/// xxHash of its name.
pub open spec fn maglev_offset(name: Seq<u8>, lsize: u32) -> u32 {
    (xx64_of(name) as u32) % lsize
}

/// A backend's stride through the table, derived from the FNV-1a hash of
/// its name; always in `1 .. lsize`.
pub open spec fn maglev_skip(name: Seq<u8>, lsize: u32) -> u32 {
    (((fnv1a_spec(name, 0, FNV_OFFSET_BASIS) as u32) % ((lsize - 1) as u32)) + 1) as u32
}

/// Position `j` of a backend's permutation.
pub open spec fn perm_entry(name: Seq<u8>, lsize: u32, j: int) -> u32 {
    ((maglev_offset(name, lsize) + j * maglev_skip(name, lsize)) % (lsize as int)) as u32
}

/// The permutations of every backend.
pub open spec fn maglev_permutations(backends: Seq<Seq<u8>>, lsize: u32) -> Seq<Seq<u32>> {
    Seq::new(
        backends.len(),
        |b: int| Seq::new(lsize as nat, |j: int| perm_entry(backends[b], lsize, j)),
    )
}

/// Advance a backend's cursor past already-claimed positions.
pub open spec fn lut_cursor(perm: Seq<u32>, entry: Seq<u32>, cursor: int, size: int) -> int
    decreases size - cursor,
{
    if cursor < 0 || cursor >= size {
        size
    } else if entry[perm[cursor] as int] != LUT_FREE {
        lut_cursor(perm, entry, cursor + 1, size)
    } else {
        cursor
    }
}

/// One backend's turn: claim the next free position of its permutation, if
/// any position is left.
pub open spec fn lut_place(
    perm: Seq<u32>,
    st: (Seq<u32>, Seq<u32>),
    bi: int,
    size: int,
) -> (Seq<u32>, Seq<u32>) {
    let c = lut_cursor(perm, st.0, st.1[bi] as int, size);
    if c < size {
        (st.0.update(perm[c] as int, bi as u32), st.1.update(bi, (c + 1) as u32))
    } else {
        (st.0, st.1.update(bi, c as u32))
    }
}

/// The fill state after `t` turns, the backends taking turns round-robin.
pub open spec fn lut_fill(
    perms: Seq<Seq<u32>>,
    size: int,
    st: (Seq<u32>, Seq<u32>),
    t: nat,
) -> (Seq<u32>, Seq<u32>)
    decreases t,
{
    if t == 0 {
        st
    } else {
        let bi = ((t - 1) as int) % (perms.len() as int);
        lut_place(perms[bi], lut_fill(perms, size, st, (t - 1) as nat), bi, size)
    }
}

/// The initial fill state: every position free, every cursor at zero.
pub open spec fn lut_init(nb: int, size: int) -> (Seq<u32>, Seq<u32>) {
    (Seq::new(size as nat, |i: int| LUT_FREE), Seq::new(nb as nat, |i: int| 0u32))
}

/// The finished table: `size * backends` turns of the fill, unclaimed
/// positions falling to backend 0.
pub open spec fn lut_spec(perms: Seq<Seq<u32>>, size: int) -> Seq<u32> {
    let filled = lut_fill(perms, size, lut_init(perms.len() as int, size), (size * perms.len())
        as nat).0;
    filled.map(|i: int, v: u32| if v == LUT_FREE { 0u32 } else { v })
}

/// The whole table as a function of the backend names and the size alone:
/// rebuilding over the same backends and size always yields this value.
pub open spec fn maglev_table(backends: Seq<Seq<u8>>, lsize: u32) -> Seq<u32> {
    lut_spec(maglev_permutations(backends, lsize), lsize as int)
}

/// A Maglev lookup table: each position names a backend index.
pub struct Maglev {
    pub lut: Vec<u32>,
    pub lut_size: u32,
}

impl Maglev {
    /// Every position of the table names a backend, as long as there was
    /// at least one.
    pub open spec fn wf(&self, backend_count: int) -> bool {
        &&& self.lut@.len() == self.lut_size
        &&& forall|i: int| 0 <= i < self.lut@.len() ==> 0 <= #[trigger] self.lut@[i]
            < backend_count
    }

    /// The starting offset and the stride of a backend's permutation,
    /// derived from two independent hashes of its name.
    pub fn offset_skip_for_name(name: &Vec<u8>, lsize: u32) -> (r: (u32, u32))
        requires
            lsize >= 2,
        ensures
            r.0 == maglev_offset(name@, lsize),
            r.1 == maglev_skip(name@, lsize),
            r.0 < lsize,
            1 <= r.1 < lsize,
    {
        let hash1 = fnv1a(name) as u32;
        let hash2 = xx_hash64(name) as u32;
        let offset = hash2 % lsize;
        let skip = hash1 % (lsize - 1) + 1;
        (offset, skip)
    }

    /// Each backend's permutation of the table positions: position `j` of
    /// backend `b` is `(offset_b + j * skip_b) % lsize`.
    #[verifier::loop_isolation(false)]
    pub fn generate_permutations(backends: &Vec<Vec<u8>>, lsize: u32) -> (r: Vec<Vec<u32>>)
        requires
            2 <= lsize <= 0x100000,
        ensures
            r@.len() == backends@.len(),
            forall|b: int|
                0 <= b < r@.len() ==> (#[trigger] r@[b])@.len() == lsize && forall|j: int|
                    0 <= j < lsize ==> #[trigger] r@[b]@[j] < lsize,
            r@.map_values(|v: Vec<u32>| v@) == maglev_permutations(
                backends@.map_values(|v: Vec<u8>| v@),
                lsize,
            ),
    {
        let mut out: Vec<Vec<u32>> = Vec::new();
        let mut b: usize = 0;
        while b < backends.len()
            invariant
                b <= backends@.len(),
                out@.len() == b,
                lsize >= 2,
                forall|k: int|
                    0 <= k < out@.len() ==> (#[trigger] out@[k])@.len() == lsize && forall|j: int|
                        0 <= j < lsize ==> #[trigger] out@[k]@[j] < lsize,
                forall|k: int|
                    0 <= k < out@.len() ==> (#[trigger] out@[k])@ == Seq::new(
                        lsize as nat,
                        |j: int| perm_entry(backends@[k]@, lsize, j),
                    ),
            decreases backends@.len() - b,
        {
            let (offset, skip) = Maglev::offset_skip_for_name(&backends[b], lsize);
            let mut perm: Vec<u32> = Vec::new();
            let mut j: u32 = 0;
            while j < lsize
                invariant
                    j <= lsize,
                    perm@.len() == j,
                    offset < lsize,
                    skip < lsize,
                    offset == maglev_offset(backends@[b as int]@, lsize),
                    skip == maglev_skip(backends@[b as int]@, lsize),
                    b < backends@.len(),
                    forall|p: int| 0 <= p < perm@.len() ==> #[trigger] perm@[p] < lsize,
                    forall|p: int|
                        0 <= p < perm@.len() ==> #[trigger] perm@[p] == perm_entry(
                            backends@[b as int]@,
                            lsize,
                            p,
                        ),
                decreases lsize - j,
            {
                proof {
                    assert((j as u64) * (skip as u64) < 0x100000 * 0x100000) by (nonlinear_arith)
                        requires
                            j < 0x100000 && skip < 0x100000,
                    ;
                }
                let pos = ((offset as u64 + (j as u64) * (skip as u64)) % (lsize as u64)) as u32;
                perm.push(pos);
                j = j + 1;
            }
            proof {
                assert(perm@ =~= Seq::new(
                    lsize as nat,
                    |j: int| perm_entry(backends@[b as int]@, lsize, j),
                ));
            }
            out.push(perm);
            b = b + 1;
        }
        proof {
            assert(out@.map_values(|v: Vec<u32>| v@) =~~= maglev_permutations(
                backends@.map_values(|v: Vec<u8>| v@),
                lsize,
            ));
        }
        out
    }

    /// Fill the table: backends take turns claiming the next free position
    /// of their permutation, one turn per backend per round, `size` rounds.
    /// Positions no permutation reaches fall to backend 0.  The result is
    /// exactly the specification-level fill.
    #[verifier::loop_isolation(false)]
    pub fn generate_lut(permutations: &Vec<Vec<u32>>, size: u32) -> (r: Vec<u32>)
        requires
            permutations@.len() >= 1,
            forall|b: int|
                0 <= b < permutations@.len() ==> (#[trigger] permutations@[b])@.len() == size
                    && forall|j: int| 0 <= j < size ==> #[trigger] permutations@[b]@[j] < size,
            permutations@.len() <= 0xffff,
        ensures
            r@.len() == size,
            forall|i: int| 0 <= i < r@.len() ==> 0 <= #[trigger] r@[i] < permutations@.len(),
            r@ == lut_spec(permutations@.map_values(|v: Vec<u32>| v@), size as int),
    {
        let nb = permutations.len();
        let ghost perms = permutations@.map_values(|v: Vec<u32>| v@);
        let ghost sz = size as int;
        let ghost init = lut_init(nb as int, sz);
        let mut next: Vec<u32> = Vec::new();
        let mut b: usize = 0;
        while b < nb
            invariant
                b <= nb,
                next@.len() == b,
                forall|k: int| 0 <= k < next@.len() ==> #[trigger] next@[k] == 0,
            decreases nb - b,
        {
            next.push(0);
            b = b + 1;
        }
        let mut entry: Vec<u32> = Vec::new();
        let mut i: u32 = 0;
        while i < size
            invariant
                i <= size,
                entry@.len() == i,
                forall|p: int| 0 <= p < entry@.len() ==> #[trigger] entry@[p] == LUT_FREE,
            decreases size - i,
        {
            entry.push(LUT_FREE);
            i = i + 1;
        }
        proof {
            assert(entry@ =~= init.0);
            assert(next@ =~= init.1);
        }
        let mut round: u32 = 0;
        while round < size
            invariant
                round <= size,
                next@.len() == nb,
                entry@.len() == size,
                forall|k: int| 0 <= k < next@.len() ==> #[trigger] next@[k] <= size,
                forall|p: int|
                    0 <= p < entry@.len() ==> #[trigger] entry@[p] == LUT_FREE || entry@[p] < nb,
                entry@ == lut_fill(perms, sz, init, (round * nb) as nat).0,
                next@ == lut_fill(perms, sz, init, (round * nb) as nat).1,
            decreases size - round,
        {
            let mut bi: usize = 0;
            while bi < nb
                invariant
                    bi <= nb,
                    next@.len() == nb,
                    entry@.len() == size,
                    forall|k: int| 0 <= k < next@.len() ==> #[trigger] next@[k] <= size,
                    forall|p: int|
                        0 <= p < entry@.len() ==> #[trigger] entry@[p] == LUT_FREE || entry@[p]
                            < nb,
                    entry@ == lut_fill(perms, sz, init, (round * nb + bi) as nat).0,
                    next@ == lut_fill(perms, sz, init, (round * nb + bi) as nat).1,
                decreases nb - bi,
            {
                let ghost st = (entry@, next@);
                let ghost t = (round * nb + bi) as nat;
                let perm = &permutations[bi];
                let mut cursor: u32 = next[bi];
                while cursor < size && entry[perm[cursor as usize] as usize] != LUT_FREE
                    invariant
                        cursor <= size,
                        lut_cursor(perm@, entry@, st.1[bi as int] as int, sz) == lut_cursor(
                            perm@,
                            entry@,
                            cursor as int,
                            sz,
                        ),
                    decreases size - cursor,
                {
                    cursor = cursor + 1;
                }
                proof {
                    assert(lut_cursor(perm@, entry@, cursor as int, sz) == cursor as int);
                    assert(lut_cursor(perm@, entry@, st.1[bi as int] as int, sz)
                        == cursor as int);
                }
                if cursor < size {
                    let pos = perm[cursor as usize] as usize;
                    entry.set(pos, bi as u32);
                    cursor = cursor + 1;
                }
                next.set(bi, cursor);
                proof {
                    assert(perms[bi as int] == perm@);
                    assert((entry@, next@) == lut_place(perm@, st, bi as int, sz));
                    vstd::arithmetic::div_mod::lemma_mod_multiples_vanish(
                        round as int,
                        bi as int,
                        nb as int,
                    );
                    vstd::arithmetic::div_mod::lemma_small_mod(bi as nat, nb as nat);
                    assert((t + 1 - 1) as int % (perms.len() as int) == bi as int);
                    assert(lut_fill(perms, sz, init, t + 1) == lut_place(
                        perms[bi as int],
                        lut_fill(perms, sz, init, t),
                        bi as int,
                        sz,
                    ));
                }
                bi = bi + 1;
            }
            proof {
                assert((round + 1) * nb == round * nb + nb) by (nonlinear_arith);
            }
            round = round + 1;
        }
        proof {
            assert(perms.len() == nb as int);
            assert((round * nb) as nat == (sz * perms.len()) as nat);
        }
        let ghost filled = lut_fill(perms, sz, init, (sz * perms.len()) as nat).0;
        // whatever no permutation claimed falls to backend 0
        let mut p: usize = 0;
        while p < entry.len()
            invariant
                p <= entry@.len(),
                entry@.len() == size,
                filled.len() == size,
                forall|q: int|
                    0 <= q < p ==> #[trigger] entry@[q] == (if filled[q] == LUT_FREE {
                        0u32
                    } else {
                        filled[q]
                    }),
                forall|q: int| p <= q < entry@.len() ==> #[trigger] entry@[q] == filled[q],
                forall|q: int|
                    0 <= q < entry@.len() ==> #[trigger] entry@[q] == LUT_FREE || entry@[q] < nb,
            decreases entry@.len() - p,
        {
            if entry[p] == LUT_FREE {
                entry.set(p, 0);
            }
            p = p + 1;
        }
        proof {
            assert(entry@ =~= lut_spec(perms, sz));
        }
        entry
    }

    /// Build the table for a set of backends.  The table is a function of
    /// the backend names and the size alone.
    pub fn new(backends: &Vec<Vec<u8>>, lsize: u32) -> (r: Maglev)
        requires
            1 <= backends@.len() <= 0xffff,
            2 <= lsize <= 0x100000,
        ensures
            r.wf(backends@.len() as int),
            r.lut_size == lsize,
            r.lut@ == maglev_table(backends@.map_values(|v: Vec<u8>| v@), lsize),
    {
        let permutations = Maglev::generate_permutations(backends, lsize);
        let lut = Maglev::generate_lut(&permutations, lsize);
        Maglev { lut, lut_size: lsize }
    }

    /// Rebuild consistency: two tables built over equal backend names and
    /// an equal size map every flow fingerprint to the same backend.
    pub proof fn lemma_rebuild_consistent(
        a: Maglev,
        b: Maglev,
        backends: Seq<Seq<u8>>,
        lsize: u32,
        fingerprint: u64,
    )
        requires
            a.lut@ == maglev_table(backends, lsize),
            b.lut@ == maglev_table(backends, lsize),
            a.lut_size == lsize,
            b.lut_size == lsize,
            lsize >= 1,
        ensures
            a.lut@[(fingerprint % lsize as u64) as int] == b.lut@[(fingerprint
                % lsize as u64) as int],
    {
    }

    /// The backend a flow fingerprint maps to.
    pub fn lookup_hash(&self, fingerprint: u64) -> (r: u32)
        requires
            self.lut_size >= 1,
            self.lut@.len() == self.lut_size,
        ensures
            r == self.lut@[(fingerprint % self.lut_size as u64) as int],
    {
        let idx = (fingerprint % self.lut_size as u64) as usize;
        self.lut[idx]
    }
}

} // verus!

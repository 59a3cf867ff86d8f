//! Marsaglia's universal lagged-Fibonacci random number generator.
//!
//! The generator produces a reproducible stream of fractions in [0, 1) from
//! a single integer seed. Every value it handles is a multiple of 2^-24, so
//! the implementation stores each fraction exactly as its 24-bit numerator:
//! a returned `u32` below 16777216 stands for that numerator over 2^24.
//! All arithmetic on numerators is exact, which makes the stream
//! bit-reproducible and lets every step carry a full functional contract.

pub mod model;

use vstd::prelude::*;

use crate::model::lemma_decomposition_in_range;
use crate::model::lemma_mix_iter_add;
use crate::model::lemma_seeded_wf;
use crate::model::lemma_slot_acc_bounds;
use crate::model::lemma_step_wf;
use crate::model::mix_iter;
use crate::model::mix_step;
use crate::model::seed_mix_state;
use crate::model::seeded_view;
use crate::model::slot_acc;
use crate::model::slot_value;
use crate::model::uni_next;
use crate::model::uni_out;
use crate::model::zero_view;
use crate::model::GenView;
use crate::model::MixState;
use vstd::arithmetic::div_mod::lemma_fundamental_div_mod;
use vstd::arithmetic::power2::lemma2_to64;
use vstd::arithmetic::power2::lemma_pow2_unfold;
use vstd::arithmetic::power2::pow2;

verus! {

/// Why `rinit` rejected a seed: the failing check, with the offending
/// number. Only the whole-seed range check can actually fail; the sub-seed
/// checks are rechecks of what the decomposition already guarantees (the
/// model proves the first sub-seed is always at least 2, so the forbidden
/// triple (1, 1, 1) can never arise from a decomposed seed).
#[derive(Clone, Copy, Debug, PartialEq, Eq)]
pub enum InvalidSeed {
    SeedOutOfRange(i32),
    SubSeedIOutOfRange(i32),
    SubSeedJOutOfRange(i32),
    SubSeedKOutOfRange(i32),
    SubSeedLOutOfRange(i32),
    ForbiddenTriple,
}

/// Marsaglia's universal random number generator: a 97-slot circular buffer
/// of 24-bit numerators (slot 0 unused), three correction terms, and two
/// rotating cursors.
pub struct MarsagliaUniRng {
    uni_u: Vec<u32>,
    uni_c: u32,
    uni_cd: u32,
    uni_cm: u32,
    uni_ui: usize,
    uni_uj: usize,
}

impl View for MarsagliaUniRng {
    type V = GenView;

    closed spec fn view(&self) -> GenView {
        GenView {
            u: self.uni_u@,
            c: self.uni_c,
            cd: self.uni_cd,
            cm: self.uni_cm,
            ui: self.uni_ui,
            uj: self.uni_uj,
        }
    }
}

impl MarsagliaUniRng {
    /// Creates a generator in the unseeded zero state.
    pub fn new() -> (rng: Self)
        ensures
            rng@ == zero_view(),
            rng@.wf(),
    {
        let mut u: Vec<u32> = Vec::new();
        let mut n: usize = 0;
        while n < 98
            invariant
                n <= 98,
                u@.len() == n,
                forall|q: int| 0 <= q < n ==> u@[q] == 0u32,
            decreases 98 - n,
        {
            u.push(0);
            n = n + 1;
        }
        let rng = MarsagliaUniRng {
            uni_u: u,
            uni_c: 0,
            uni_cd: 0,
            uni_cm: 0,
            uni_ui: 0,
            uni_uj: 0,
        };
        proof {
            assert(rng@.u =~= zero_view().u);
        }
        rng
    }

    /// Produces the next value of the stream as a 24-bit numerator: the
    /// returned `u32` is below 16777216 and stands for `value / 2^24`, a
    /// fraction in [0, 1). Advances one buffer slot, both cursors, and the
    /// correction term, exactly as the model's `uni_next` describes.
    pub fn uni(&mut self) -> (value: u32)
        requires
            old(self)@.wf(),
        ensures
            final(self)@ == uni_next(old(self)@),
            final(self)@.wf(),
            value == uni_out(old(self)@),
            value < 16777216,
    {
        proof {
            lemma_step_wf(old(self)@);
        }
        let a = self.uni_u[self.uni_ui];
        let b = self.uni_u[self.uni_uj];
        let luni: u32 = if a < b {
            (a + 16777216) - b
        } else {
            a - b
        };
        self.uni_u[self.uni_ui] = luni;
        if self.uni_ui == 0 {
            self.uni_ui = 97;
        } else {
            self.uni_ui = self.uni_ui - 1;
        }
        if self.uni_uj == 0 {
            self.uni_uj = 97;
        } else {
            self.uni_uj = self.uni_uj - 1;
        }
        if self.uni_c < self.uni_cd {
            self.uni_c = (self.uni_c + self.uni_cm) - self.uni_cd;
        } else {
            self.uni_c = self.uni_c - self.uni_cd;
        }
        let value: u32 = if luni < self.uni_c {
            (luni + 16777216) - self.uni_c
        } else {
            luni - self.uni_c
        };
        value
    }

    /// Fills the 97 buffer slots from four validated sub-seeds, each slot a
    /// 24-round binary-weighted accumulation of the mixing recurrence, then
    /// resets the correction terms and the cursors. The resulting state is a
    /// pure function of the four sub-seeds (slot 0 alone keeps its old
    /// value, and it never takes part in generation).
    pub fn rstart(&mut self, i: i32, j: i32, k: i32, l: i32)
        requires
            old(self)@.wf(),
            1 <= i <= 178,
            2 <= j <= 178,
            1 <= k <= 178,
            0 <= l <= 168,
        ensures
            final(self)@ == seeded_view(
                old(self)@,
                MixState { i: i as int, j: j as int, k: k as int, l: l as int },
            ),
            final(self)@.wf(),
            final(self)@.cursors_offset(),
    {
        let ghost prev = self@;
        let ghost st0 = MixState { i: i as int, j: j as int, k: k as int, l: l as int };
        let mut ci: u32 = i as u32;
        let mut cj: u32 = j as u32;
        let mut ck: u32 = k as u32;
        let mut cl: u32 = l as u32;
        let mut ii: usize = 1;
        while ii <= 97
            invariant
                1 <= ii <= 98,
                self.uni_u@.len() == 98,
                0 <= ci <= 178,
                0 <= cj <= 178,
                0 <= ck <= 178,
                0 <= cl <= 168,
                (MixState { i: ci as int, j: cj as int, k: ck as int, l: cl as int }) == mix_iter(
                    st0,
                    (24 * (ii - 1)) as nat,
                ),
                self.uni_u@[0] == prev.u[0],
                forall|n: int| 1 <= n < ii ==> self.uni_u@[n] == slot_value(st0, n) as u32,
            decreases 98 - ii,
        {
            let ghost stslot = mix_iter(st0, (24 * (ii - 1)) as nat);
            let mut s: u32 = 0;
            let mut t: u32 = 8388608;
            let mut jj: usize = 0;
            proof {
                lemma_slot_acc_bounds(stslot, 24);
                lemma2_to64();
            }
            while jj < 24
                invariant
                    jj <= 24,
                    0 <= ci <= 178,
                    0 <= cj <= 178,
                    0 <= ck <= 178,
                    0 <= cl <= 168,
                    (MixState { i: ci as int, j: cj as int, k: ck as int, l: cl as int })
                        == mix_iter(stslot, jj as nat),
                    slot_acc(stslot, 24) == s + slot_acc(
                        mix_iter(stslot, jj as nat),
                        (24 - jj) as nat,
                    ),
                    0 <= slot_acc(stslot, 24) < 16777216,
                    jj < 24 ==> t == pow2((23 - jj) as nat),
                    t <= 8388608,
                decreases 24 - jj,
            {
                let ghost stcur = mix_iter(stslot, jj as nat);
                proof {
                    assert(ci * cj <= 178 * 178) by (nonlinear_arith)
                        requires 0 <= ci <= 178 && 0 <= cj <= 178;
                    assert((ci * cj % 179) * ck <= 178 * 178) by (nonlinear_arith)
                        requires ci * cj % 179 <= 178 && 0 <= ck <= 178;
                }
                let m = ((ci * cj % 179) * ck) % 179;
                ci = cj;
                cj = ck;
                ck = m;
                cl = (53 * cl + 1) % 169;
                proof {
                    assert(cl * m <= 168 * 178) by (nonlinear_arith)
                        requires 0 <= cl <= 168 && 0 <= m <= 178;
                    assert((MixState { i: ci as int, j: cj as int, k: ck as int, l: cl as int })
                        == mix_step(stcur));
                    assert(mix_iter(stslot, (jj + 1) as nat) == mix_step(stcur));
                    lemma_slot_acc_bounds(mix_step(stcur), (23 - jj) as nat);
                }
                if cl * m % 64 >= 32 {
                    s = s + t;
                }
                proof {
                    if jj < 23 {
                        lemma_pow2_unfold((23 - jj) as nat);
                    } else {
                        lemma2_to64();
                    }
                }
                t = t / 2;
                jj = jj + 1;
            }
            self.uni_u[ii] = s;
            proof {
                lemma_mix_iter_add(st0, (24 * (ii - 1)) as nat, 24);
                assert(slot_value(st0, ii as int) == slot_acc(stslot, 24));
            }
            ii = ii + 1;
        }
        self.uni_c = 362436;
        self.uni_cd = 7654321;
        self.uni_cm = 16777213;
        self.uni_ui = 97;
        self.uni_uj = 33;
        proof {
            lemma_seeded_wf(prev, st0);
            assert(self@.u =~= seeded_view(prev, st0).u);
        }
    }

    /// Validates a seed, decomposes it into four sub-seeds, and seeds the
    /// buffer from them. Succeeds exactly on seeds in [0, 900000000]; on any
    /// other seed it returns the range error naming the seed and leaves the
    /// generator untouched. Each sub-seed is rechecked against its own range
    /// and the triple (1, 1, 1) is rejected outright, though no in-range
    /// seed can reach those failures.
    pub fn rinit(&mut self, ijkl: i32) -> (result: Result<(), InvalidSeed>)
        requires
            old(self)@.wf(),
        ensures
            final(self)@.wf(),
            result is Ok <==> 0 <= ijkl <= 900_000_000,
            result is Ok ==> final(self)@ == seeded_view(
                old(self)@,
                seed_mix_state(ijkl as int),
            ) && final(self)@.cursors_offset(),
            result is Err ==> final(self)@ == old(self)@ && result == Err::<
                (),
                InvalidSeed,
            >(InvalidSeed::SeedOutOfRange(ijkl)),
    {
        if ijkl < 0 || ijkl > 900_000_000 {
            return Err(InvalidSeed::SeedOutOfRange(ijkl));
        }
        proof {
            lemma_decomposition_in_range(ijkl as int);
            lemma_fundamental_div_mod(ijkl as int, 30082);
        }
        let s: u32 = ijkl as u32;
        let ij: u32 = s / 30082;
        let kl: u32 = s - 30082 * ij;
        let i: i32 = (((ij / 177) % 177) + 2) as i32;
        let j: i32 = ((ij % 177) + 2) as i32;
        let k: i32 = (((kl / 169) % 178) + 1) as i32;
        let l: i32 = (kl % 169) as i32;
        if i < 1 || i > 178 {
            return Err(InvalidSeed::SubSeedIOutOfRange(i));
        }
        if j < 2 || j > 178 {
            return Err(InvalidSeed::SubSeedJOutOfRange(j));
        }
        if k < 1 || k > 178 {
            return Err(InvalidSeed::SubSeedKOutOfRange(k));
        }
        if l < 0 || l > 168 {
            return Err(InvalidSeed::SubSeedLOutOfRange(l));
        }
        if i == 1 && j == 1 && k == 1 {
            return Err(InvalidSeed::ForbiddenTriple);
        }
        self.rstart(i, j, k, l);
        Ok(())
    }

    /// The current positions of the two cursors, lag cursor first.
    pub fn cursors(&self) -> (positions: (usize, usize))
        ensures
            positions.0 == self@.ui,
            positions.1 == self@.uj,
    {
        (self.uni_ui, self.uni_uj)
    }
}

impl Default for MarsagliaUniRng {
    fn default() -> (rng: Self)
        ensures
            rng@ == zero_view(),
            rng@.wf(),
    {
        Self::new()
    }
}

} // verus!


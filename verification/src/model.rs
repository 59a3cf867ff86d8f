//! Mathematical model of the generator.
//!
//! Every quantity the generator manipulates is a fraction with denominator
//! 2^24 that the implementation stores as its numerator, an integer below
//! 16777216. The spec functions here describe, over those numerators, the
//! seed decomposition, the congruential mixing recurrence that fills the
//! buffer, and the lagged-Fibonacci-with-correction generation step.

use vstd::prelude::*;
use vstd::arithmetic::power2::lemma2_to64;
use vstd::arithmetic::power2::lemma_pow2_unfold;
use vstd::arithmetic::power2::pow2;

verus! {

/// The rolling state of the congruential mixing recurrence that seeds the
/// buffer: three multiplicative terms and one additive term.
pub ghost struct MixState {
    pub i: int,
    pub j: int,
    pub k: int,
    pub l: int,
}

/// One round of the mixing recurrence.
pub open spec fn mix_step(st: MixState) -> MixState {
    MixState {
        i: st.j,
        j: st.k,
        k: ((st.i * st.j) % 179 * st.k) % 179,
        l: (53 * st.l + 1) % 169,
    }
}

/// Whether the round starting at `st` contributes its binary weight to the
/// slot under construction.
pub open spec fn mix_bit(st: MixState) -> bool {
    (mix_step(st).l * mix_step(st).k) % 64 >= 32
}

/// The mixing state after `n` rounds from `st`.
pub open spec fn mix_iter(st: MixState, n: nat) -> MixState
    decreases n,
{
    if n == 0 {
        st
    } else {
        mix_step(mix_iter(st, (n - 1) as nat))
    }
}

/// The binary-weighted sum accumulated over `rounds` rounds starting at
/// `st`: the first round weighs 2^(rounds-1), the last weighs 1.
pub open spec fn slot_acc(st: MixState, rounds: nat) -> int
    decreases rounds,
{
    if rounds == 0 {
        0
    } else {
        (if mix_bit(st) {
            pow2((rounds - 1) as nat) as int
        } else {
            0
        }) + slot_acc(mix_step(st), (rounds - 1) as nat)
    }
}

/// The numerator seeded into buffer slot `slot` (1-based): 24 rounds of the
/// recurrence, starting after the rounds of all earlier slots.
pub open spec fn slot_value(st: MixState, slot: int) -> int {
    slot_acc(mix_iter(st, ((slot - 1) * 24) as nat), 24)
}

pub proof fn lemma_mix_iter_add(st: MixState, a: nat, b: nat)
    ensures
        mix_iter(st, a + b) == mix_iter(mix_iter(st, a), b),
    decreases b,
{
    if b > 0 {
        lemma_mix_iter_add(st, a, (b - 1) as nat);
    }
}

/// A sum of distinct binary weights below 2^rounds stays below 2^rounds.
pub proof fn lemma_slot_acc_bounds(st: MixState, rounds: nat)
    ensures
        0 <= slot_acc(st, rounds) < pow2(rounds),
    decreases rounds,
{
    if rounds == 0 {
        lemma2_to64();
    } else {
        lemma_slot_acc_bounds(mix_step(st), (rounds - 1) as nat);
        lemma_pow2_unfold(rounds);
    }
}

/// Abstract generator state: the 98 buffer numerators, the three correction
/// numerators, and the two circular cursors.
pub ghost struct GenView {
    pub u: Seq<u32>,
    pub c: u32,
    pub cd: u32,
    pub cm: u32,
    pub ui: usize,
    pub uj: usize,
}

impl GenView {
    /// Well-formedness: 98 slots, every numerator a fraction below one, the
    /// correction delta no larger than the correction modulus, and both
    /// cursors inside the buffer.
    pub open spec fn wf(self) -> bool {
        &&& self.u.len() == 98
        &&& forall|n: int| 0 <= n < 98 ==> self.u[n] < 16777216
        &&& self.c < 16777216
        &&& self.cd < 16777216
        &&& self.cm < 16777216
        &&& self.cd <= self.cm
        &&& self.ui <= 97
        &&& self.uj <= 97
    }

    /// The two cursors keep a fixed circular offset of 64 over the 98
    /// positions they rotate through.
    pub open spec fn cursors_offset(self) -> bool {
        self.ui as int == (self.uj as int + 64) % 98
    }
}

/// The unseeded state a fresh generator starts in.
pub open spec fn zero_view() -> GenView {
    GenView { u: Seq::new(98, |n: int| 0u32), c: 0u32, cd: 0u32, cm: 0u32, ui: 0usize, uj: 0usize }
}

/// Subtraction of fractions wrapped back into [0, 1): numerator form of
/// "subtract, and add one if the result went negative".
pub open spec fn borrow_sub(a: int, b: int) -> int {
    if a - b < 0 {
        a - b + 16777216
    } else {
        a - b
    }
}

/// One circular cursor decrement: 0 wraps to 97.
pub open spec fn wrap_dec(x: int) -> int {
    if x == 0 {
        97
    } else {
        x - 1
    }
}

/// The correction term after one step: subtract the delta, and wrap by the
/// modulus if the result went negative.
pub open spec fn next_correction(v: GenView) -> int {
    if v.c - v.cd < 0 {
        v.c - v.cd + v.cm
    } else {
        v.c - v.cd
    }
}

/// The raw lagged-Fibonacci difference produced by one generation step.
pub open spec fn uni_raw(v: GenView) -> int {
    borrow_sub(v.u[v.ui as int] as int, v.u[v.uj as int] as int)
}

/// The numerator returned by one generation step: the raw difference with
/// the updated correction subtracted, wrapped back into [0, 1).
pub open spec fn uni_out(v: GenView) -> int {
    borrow_sub(uni_raw(v), next_correction(v))
}

/// The generator state after one generation step.
pub open spec fn uni_next(v: GenView) -> GenView {
    GenView {
        u: v.u.update(v.ui as int, uni_raw(v) as u32),
        c: next_correction(v) as u32,
        cd: v.cd,
        cm: v.cm,
        ui: wrap_dec(v.ui as int) as usize,
        uj: wrap_dec(v.uj as int) as usize,
    }
}

/// The generator state after `n` generation steps.
pub open spec fn view_after(v: GenView, n: nat) -> GenView
    decreases n,
{
    if n == 0 {
        v
    } else {
        uni_next(view_after(v, (n - 1) as nat))
    }
}

/// The state established by seeding from mixing state `st`: slot 0 is left
/// alone, slots 1..=97 hold the mixed values, the corrections take their
/// fixed constants, and the cursors start at 97 and 33.
pub open spec fn seeded_view(prev: GenView, st: MixState) -> GenView {
    GenView {
        u: Seq::new(
            98,
            |n: int|
                if n == 0 {
                    prev.u[0]
                } else {
                    slot_value(st, n) as u32
                },
        ),
        c: 362436u32,
        cd: 7654321u32,
        cm: 16777213u32,
        ui: 97usize,
        uj: 33usize,
    }
}

/// The upper halves of the seed: quotient of the seed by 30082.
pub open spec fn seed_ij(seed: int) -> int {
    seed / 30082
}

/// The lower halves of the seed: remainder of the seed by 30082.
pub open spec fn seed_kl(seed: int) -> int {
    seed % 30082
}

/// First sub-seed of the mixing recurrence.
pub open spec fn sub_seed_i(seed: int) -> int {
    (seed_ij(seed) / 177) % 177 + 2
}

/// Second sub-seed of the mixing recurrence.
pub open spec fn sub_seed_j(seed: int) -> int {
    seed_ij(seed) % 177 + 2
}

/// Third sub-seed of the mixing recurrence.
pub open spec fn sub_seed_k(seed: int) -> int {
    (seed_kl(seed) / 169) % 178 + 1
}

/// Fourth sub-seed of the mixing recurrence.
pub open spec fn sub_seed_l(seed: int) -> int {
    seed_kl(seed) % 169
}

/// The mixing state a seed decomposes into.
pub open spec fn seed_mix_state(seed: int) -> MixState {
    MixState {
        i: sub_seed_i(seed),
        j: sub_seed_j(seed),
        k: sub_seed_k(seed),
        l: sub_seed_l(seed),
    }
}

/// Every in-range seed decomposes into in-range sub-seeds, and never into
/// the forbidden triple (1, 1, 1): the first sub-seed is always at least 2.
pub proof fn lemma_decomposition_in_range(seed: int)
    requires
        0 <= seed <= 900_000_000,
    ensures
        2 <= sub_seed_i(seed) <= 178,
        2 <= sub_seed_j(seed) <= 178,
        1 <= sub_seed_k(seed) <= 178,
        0 <= sub_seed_l(seed) <= 168,
        !(sub_seed_i(seed) == 1 && sub_seed_j(seed) == 1 && sub_seed_k(seed) == 1),
{
}

/// Seeding yields a well-formed state whose cursors stand 64 apart.
pub proof fn lemma_seeded_wf(prev: GenView, st: MixState)
    requires
        prev.wf(),
    ensures
        seeded_view(prev, st).wf(),
        seeded_view(prev, st).cursors_offset(),
{
    assert forall|n: int| 0 <= n < 98 implies seeded_view(prev, st).u[n] < 16777216 by {
        if n > 0 {
            lemma_slot_acc_bounds(mix_iter(st, ((n - 1) * 24) as nat), 24);
            lemma2_to64();
        }
    }
}

/// One generation step keeps the state well formed and yields a value in
/// [0, 1), that is, a numerator below 2^24.
pub proof fn lemma_step_wf(v: GenView)
    requires
        v.wf(),
    ensures
        uni_next(v).wf(),
        0 <= uni_out(v) < 16777216,
{
}

/// Law (range invariant): from any well-formed state, the state reached by
/// any number of generation steps is well formed, and the value produced by
/// the step after it lies in [0, 1).
pub proof fn lemma_outputs_in_range(v: GenView, n: nat)
    requires
        v.wf(),
    ensures
        view_after(v, n).wf(),
        0 <= uni_out(view_after(v, n)) < 16777216,
    decreases n,
{
    if n > 0 {
        lemma_outputs_in_range(v, (n - 1) as nat);
        lemma_step_wf(view_after(v, (n - 1) as nat));
    }
    lemma_step_wf(view_after(v, n));
}

/// Law (determinism): two generators in equal states stay in equal states
/// and produce equal values through any number of steps.
pub proof fn lemma_deterministic(a: GenView, b: GenView, n: nat)
    requires
        a == b,
    ensures
        view_after(a, n) == view_after(b, n),
        uni_out(view_after(a, n)) == uni_out(view_after(b, n)),
{
}

/// Cursors at the fixed circular offset never coincide: 64 is not a
/// multiple of the 98-position cycle.
pub proof fn lemma_offset_distinct(v: GenView)
    requires
        v.wf(),
        v.cursors_offset(),
    ensures
        v.ui != v.uj,
{
    let uj = v.uj as int;
    if uj + 64 < 98 {
        assert((uj + 64) % 98 == uj + 64);
    } else {
        assert((uj + 64) % 98 == uj - 34);
    }
}

/// One generation step preserves the fixed circular offset of the cursors.
pub proof fn lemma_step_cursors(v: GenView)
    requires
        v.wf(),
        v.cursors_offset(),
    ensures
        uni_next(v).cursors_offset(),
{
    let ui = v.ui as int;
    let uj = v.uj as int;
    if uj + 64 < 98 {
        assert((uj + 64) % 98 == uj + 64);
        assert(ui == uj + 64);
    } else {
        assert((uj + 64) % 98 == uj - 34);
        assert(ui == uj - 34);
    }
    let ui2 = wrap_dec(ui);
    let uj2 = wrap_dec(uj);
    if uj2 + 64 < 98 {
        assert((uj2 + 64) % 98 == uj2 + 64);
    } else {
        assert((uj2 + 64) % 98 == uj2 - 34);
    }
}

/// Law (cursor distinctness): once the cursors stand at their fixed offset,
/// as seeding leaves them, they keep it through any number of generation
/// steps and never coincide.
pub proof fn lemma_cursors_distinct(v: GenView, n: nat)
    requires
        v.wf(),
        v.cursors_offset(),
    ensures
        view_after(v, n).wf(),
        view_after(v, n).cursors_offset(),
        view_after(v, n).ui != view_after(v, n).uj,
    decreases n,
{
    if n > 0 {
        lemma_cursors_distinct(v, (n - 1) as nat);
        lemma_step_wf(view_after(v, (n - 1) as nat));
        lemma_step_cursors(view_after(v, (n - 1) as nat));
    }
    lemma_offset_distinct(view_after(v, n));
}

} // verus!


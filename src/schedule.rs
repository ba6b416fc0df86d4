//! The flood schedule: how many passes run, how far each one jumps, and which
//! of the two seed buffers each pass reads and writes.

use vstd::arithmetic::power2::{lemma2_to64, lemma_pow2_pos, lemma_pow2_strictly_increases, lemma_pow2_unfold, pow2};
use vstd::bits::lemma_u32_shr_is_div;
use vstd::prelude::*;

verus! {

/// `ceil(log2(n))` for `n >= 1` (and 0 for `n <= 1`).
pub open spec fn ceil_log2(n: nat) -> nat
    decreases n,
{
    if n <= 1 {
        0
    } else {
        1 + ceil_log2(((n + 1) / 2) as nat)
    }
}

/// The number of flood passes for a maximum outline width:
/// `max(1, ceil(log2(max_width)))`, and 0 when the width is 0.
pub open spec fn pass_count(max_width: nat) -> nat {
    if max_width == 0 {
        0
    } else if ceil_log2(max_width) == 0 {
        1
    } else {
        ceil_log2(max_width)
    }
}

/// The jump distance of pass `pass`: `max(1, max_width >> (pass + 1))`.
pub open spec fn step_size(max_width: nat, pass: nat) -> nat {
    let s = max_width / pow2(pass + 1);
    if s == 0 {
        1
    } else {
        s
    }
}

/// One of the two seed buffers that the flood passes alternate between.
#[derive(Clone, Copy, Debug, PartialEq, Eq, Structural)]
pub enum SeedBuffer {
    A,
    B,
}

/// The buffer that pass `pass` reads: A on even passes, B on odd ones.
pub open spec fn source_of(pass: nat) -> SeedBuffer {
    if pass % 2 == 0 {
        SeedBuffer::A
    } else {
        SeedBuffer::B
    }
}

/// The buffer that pass `pass` writes: the one it does not read.
pub open spec fn target_of(pass: nat) -> SeedBuffer {
    if pass % 2 == 0 {
        SeedBuffer::B
    } else {
        SeedBuffer::A
    }
}

/// The buffer that holds the flood result after `passes` passes.
pub open spec fn result_of(passes: nat) -> SeedBuffer {
    if passes % 2 == 0 {
        SeedBuffer::A
    } else {
        SeedBuffer::B
    }
}

/// `ceil_log2(n)` is the least `k` with `n <= 2^k`.
pub proof fn lemma_ceil_log2_bounds(n: nat)
    requires
        n >= 1,
    ensures
        n <= pow2(ceil_log2(n)),
        ceil_log2(n) >= 1 ==> pow2((ceil_log2(n) - 1) as nat) < n,
    decreases n,
{
    if n <= 1 {
        lemma2_to64();
    } else {
        let m = ((n + 1) / 2) as nat;
        let c = ceil_log2(n);
        lemma_ceil_log2_bounds(m);
        lemma_pow2_unfold(c);
        if c >= 2 {
            lemma_pow2_unfold((c - 1) as nat);
        } else {
            lemma2_to64();
        }
    }
}

/// The flood pass count is `max(1, ceil(log2(max_width)))` for a positive
/// width, and 0 for a width of 0: for a positive width it is the least `k >= 1`
/// with `max_width <= 2^k`.
pub proof fn lemma_pass_count_is_ceil_log2(max_width: nat)
    ensures
        max_width == 0 ==> pass_count(max_width) == 0,
        max_width >= 1 ==> {
            let k = pass_count(max_width);
            &&& k >= 1
            &&& max_width <= pow2(k)
            &&& (k >= 2 ==> pow2((k - 1) as nat) < max_width)
        },
{
    if max_width >= 1 {
        lemma_ceil_log2_bounds(max_width);
        if ceil_log2(max_width) == 0 {
            lemma2_to64();
        }
    }
}

proof fn lemma_ceil_log2_le_32(n: nat)
    requires
        1 <= n <= u32::MAX,
    ensures
        ceil_log2(n) <= 32,
{
    lemma_ceil_log2_bounds(n);
    if ceil_log2(n) > 32 {
        lemma2_to64();
        lemma_pow2_strictly_increases(32, (ceil_log2(n) - 1) as nat);
    }
}

/// Number of flood passes for `max_width`.
pub fn jfa_pass_count(max_width: u32) -> (r: u32)
    ensures
        r == pass_count(max_width as nat),
        r <= 32,
{
    if max_width == 0 {
        return 0;
    }
    let mut n: u64 = max_width as u64;
    let mut k: u32 = 0;
    proof {
        lemma_ceil_log2_le_32(max_width as nat);
    }
    while n > 1
        invariant
            1 <= n <= u32::MAX,
            k + ceil_log2(n as nat) == ceil_log2(max_width as nat),
            ceil_log2(max_width as nat) <= 32,
        decreases n,
    {
        n = (n + 1) / 2;
        k = k + 1;
    }
    if k == 0 {
        1
    } else {
        k
    }
}

/// Jump distance of flood pass `pass` for `max_width`.
pub fn jfa_step_size(max_width: u32, pass: u32) -> (r: u32)
    requires
        pass < 32,
    ensures
        r == step_size(max_width as nat, pass as nat),
        r >= 1,
{
    let shift: u32 = pass + 1;
    let s: u32 = if shift >= 32 {
        proof {
            lemma2_to64();
            if shift > 32 {
                lemma_pow2_strictly_increases(32, shift as nat);
            }
            assert(max_width as nat / pow2(shift as nat) == 0) by (nonlinear_arith)
                requires
                    (max_width as nat) < pow2(shift as nat),
            ;
        }
        0
    } else {
        proof {
            lemma_u32_shr_is_div(max_width, shift);
        }
        max_width >> shift
    };
    if s == 0 {
        1
    } else {
        s
    }
}

/// The jump distances of all flood passes for `max_width`, in pass order.
pub fn jfa_step_sizes(max_width: u32) -> (r: Vec<u32>)
    ensures
        r@.len() == pass_count(max_width as nat),
        forall|i: int| 0 <= i < r@.len() ==> r@[i] == step_size(max_width as nat, i as nat),
{
    let count = jfa_pass_count(max_width);
    let mut r: Vec<u32> = Vec::new();
    let mut i: u32 = 0;
    while i < count
        invariant
            i <= count <= 32,
            count == pass_count(max_width as nat),
            r@.len() == i,
            forall|j: int| 0 <= j < i ==> r@[j] == step_size(max_width as nat, j as nat),
        decreases count - i,
    {
        r.push(jfa_step_size(max_width, i));
        i = i + 1;
    }
    r
}

/// The buffer that flood pass `pass` reads.
pub fn flood_source(pass: u32) -> (r: SeedBuffer)
    ensures
        r == source_of(pass as nat),
{
    if pass % 2 == 0 {
        SeedBuffer::A
    } else {
        SeedBuffer::B
    }
}

/// The buffer that flood pass `pass` writes.
pub fn flood_target(pass: u32) -> (r: SeedBuffer)
    ensures
        r == target_of(pass as nat),
        r != source_of(pass as nat),
{
    if pass % 2 == 0 {
        SeedBuffer::B
    } else {
        SeedBuffer::A
    }
}

/// The buffer that holds the final seeds once `passes` passes have run.
pub fn final_seed_buffer(passes: u32) -> (r: SeedBuffer)
    ensures
        r == result_of(passes as nat),
        passes >= 1 ==> r == target_of((passes - 1) as nat),
{
    if passes % 2 == 0 {
        SeedBuffer::A
    } else {
        SeedBuffer::B
    }
}

/// One flood pass as the GPU runs it: its jump distance and its two buffers.
#[derive(Clone, Copy, Debug, PartialEq, Eq, Structural)]
pub struct FloodStep {
    pub step_size: u32,
    pub source: SeedBuffer,
    pub target: SeedBuffer,
}

/// The schedule of all flood passes for `max_width`.
pub fn flood_plan(max_width: u32) -> (r: Vec<FloodStep>)
    ensures
        r@.len() == pass_count(max_width as nat),
        forall|i: int|
            0 <= i < r@.len() ==> {
                &&& r@[i].step_size == step_size(max_width as nat, i as nat)
                &&& r@[i].source == source_of(i as nat)
                &&& r@[i].target == target_of(i as nat)
            },
{
    let count = jfa_pass_count(max_width);
    let mut r: Vec<FloodStep> = Vec::new();
    let mut i: u32 = 0;
    while i < count
        invariant
            i <= count <= 32,
            count == pass_count(max_width as nat),
            r@.len() == i,
            forall|j: int|
                0 <= j < i ==> {
                    &&& r@[j].step_size == step_size(max_width as nat, j as nat)
                    &&& r@[j].source == source_of(j as nat)
                    &&& r@[j].target == target_of(j as nat)
                },
        decreases count - i,
    {
        let step = FloodStep {
            step_size: jfa_step_size(max_width, i),
            source: flood_source(i),
            target: flood_target(i),
        };
        r.push(step);
        i = i + 1;
    }
    r
}

} // verus!

//! Offset and read/write streams for one worker.

use crate::config::IoMode;
use rand::rngs::StdRng;
use rand::Rng;
use rand::SeedableRng;
use vstd::prelude::*;

verus! {

#[verifier::external_type_specification]
#[verifier::external_body]
pub struct ExStdRng(StdRng);

/// Calls `SeedableRng::from_entropy` for `StdRng`: a generator seeded from the
/// operating system. Nothing is claimed of its state. The call panics where
/// the system cannot provide entropy.
#[verifier::external_body]
fn entropy_rng() -> (rng: StdRng) {
    StdRng::from_entropy()
}

/// Calls `Rng::gen_range` on the inclusive range from zero to `max`: the draw
/// lies in that range, and nothing else is claimed of it.
#[verifier::external_body]
fn draw_up_to(rng: &mut StdRng, max: u64) -> (draw: u64)
    ensures
        draw <= max,
{
    rng.gen_range(0..=max)
}

/// Calls `Rng::gen_ratio`: a coin that shows `true` with the given odds. The
/// crate documents the two certain cases; nothing else is claimed.
#[verifier::external_body]
fn draw_ratio(rng: &mut StdRng, numerator: u32, denominator: u32) -> (heads: bool)
    requires
        0 < denominator,
        numerator <= denominator,
    ensures
        numerator == denominator ==> heads,
        numerator == 0 ==> !heads,
{
    rng.gen_ratio(numerator, denominator)
}

/// The offset that follows `current` in a sequential stream: one block
/// further, or back to zero once the next block would start at or beyond the
/// end of the device.
pub open spec fn sequential_next(current: u64, block_size: usize, device_size: u64) -> u64 {
    if current + block_size >= device_size {
        0
    } else {
        (current + block_size) as u64
    }
}

/// The largest offset at which a whole block still fits on the device.
pub open spec fn max_offset(block_size: usize, device_size: u64) -> u64 {
    if device_size >= block_size {
        (device_size - block_size) as u64
    } else {
        0
    }
}

/// `x` rounded down to a multiple of `alignment`; `x` itself where the
/// alignment is zero.
pub open spec fn align_down(x: u64, alignment: usize) -> u64 {
    if alignment == 0 {
        x
    } else {
        (x - x % (alignment as u64)) as u64
    }
}

/// Whether `offset` can come out of a random draw: it is block-aligned and a
/// whole block fits behind it.
pub open spec fn is_random_offset(offset: u64, block_size: usize, device_size: u64) -> bool {
    &&& offset <= max_offset(block_size, device_size)
    &&& block_size > 0 ==> offset % (block_size as u64) == 0
}

/// Whether an operation at `offset` is aligned to the block size and lies
/// wholly on the device.
pub open spec fn offset_in_bounds(offset: u64, block_size: usize, device_size: u64) -> bool {
    &&& block_size > 0
    &&& offset % (block_size as u64) == 0
    &&& offset + block_size <= device_size
}

/// The `n`-th offset of the sequential stream that starts at zero.
pub open spec fn sequential_stream(n: nat, block_size: usize, device_size: u64) -> u64
    decreases n,
{
    if n == 0 {
        0
    } else {
        sequential_next(
            sequential_stream((n - 1) as nat, block_size, device_size),
            block_size,
            device_size,
        )
    }
}

/// The offset after `current` in a sequential stream.
pub fn sequential_offset(current: u64, block_size: usize, device_size: u64) -> (next: u64)
    ensures
        next == sequential_next(current, block_size, device_size),
{
    match current.checked_add(block_size as u64) {
        Some(next) => if next >= device_size {
            0
        } else {
            next
        },
        None => 0,
    }
}

/// The random offset that the uniform draw `draw` stands for: the draw,
/// rounded down to a multiple of the block size.
pub fn offset_from_draw(draw: u64, block_size: usize) -> (offset: u64)
    ensures
        offset == align_down(draw, block_size),
{
    if block_size == 0 {
        draw
    } else {
        let rest = draw % (block_size as u64);
        assert(rest <= draw) by {
            vstd::arithmetic::div_mod::lemma_mod_decreases(draw as nat, block_size as nat);
        }
        draw - rest
    }
}

/// Whether an operation is a read, given the percentage of reads and a
/// uniform draw below one hundred.
pub fn read_decision(read_percent: u8, draw: u64) -> (is_read: bool)
    ensures
        is_read == (draw < read_percent),
{
    draw < read_percent as u64
}

/// Generates the offsets and read/write choices of one worker.
pub struct IoPattern {
    mode: IoMode,
    block_size: usize,
    device_size: u64,
    rng: StdRng,
}

impl IoPattern {
    pub closed spec fn spec_mode(&self) -> IoMode {
        self.mode
    }

    pub closed spec fn spec_block_size(&self) -> usize {
        self.block_size
    }

    pub closed spec fn spec_device_size(&self) -> u64 {
        self.device_size
    }

    /// Whether two generators are set up alike, whatever their random state.
    pub open spec fn same_setup(&self, other: &IoPattern) -> bool {
        &&& self.spec_mode() == other.spec_mode()
        &&& self.spec_block_size() == other.spec_block_size()
        &&& self.spec_device_size() == other.spec_device_size()
    }

    /// A generator for a device of `device_size` bytes, seeded from the
    /// operating system.
    pub fn new(mode: IoMode, block_size: usize, device_size: u64) -> (pattern: IoPattern)
        ensures
            pattern.spec_mode() == mode,
            pattern.spec_block_size() == block_size,
            pattern.spec_device_size() == device_size,
    {
        IoPattern { mode, block_size, device_size, rng: entropy_rng() }
    }

    #[verifier::when_used_as_spec(spec_mode)]
    pub fn mode(&self) -> (mode: IoMode)
        ensures
            mode == self.spec_mode(),
    {
        self.mode
    }

    #[verifier::when_used_as_spec(spec_block_size)]
    pub fn block_size(&self) -> (block_size: usize)
        ensures
            block_size == self.spec_block_size(),
    {
        self.block_size
    }

    #[verifier::when_used_as_spec(spec_device_size)]
    pub fn device_size(&self) -> (device_size: u64)
        ensures
            device_size == self.spec_device_size(),
    {
        self.device_size
    }

    /// The offset of the next operation, given the offset of the last one.
    ///
    /// Sequential: one block further, wrapping to zero at the end of the
    /// device, without touching the random source. Random: a uniform draw
    /// among the offsets at which a block fits, rounded down to a multiple of
    /// the block size. Mixed: one or the other, sequential in seven cases out
    /// of ten.
    pub fn next_offset(&mut self, current: u64) -> (next: u64)
        ensures
            final(self).same_setup(old(self)),
            old(self).spec_mode() is Sequential ==> *final(self) == *old(self),
            match old(self).spec_mode() {
                IoMode::Sequential => next == sequential_next(
                    current,
                    old(self).spec_block_size(),
                    old(self).spec_device_size(),
                ),
                IoMode::Random => is_random_offset(
                    next,
                    old(self).spec_block_size(),
                    old(self).spec_device_size(),
                ),
                IoMode::Mixed => {
                    ||| next == sequential_next(
                        current,
                        old(self).spec_block_size(),
                        old(self).spec_device_size(),
                    )
                    ||| is_random_offset(
                        next,
                        old(self).spec_block_size(),
                        old(self).spec_device_size(),
                    )
                },
            },
    {
        let sequential = match self.mode {
            IoMode::Sequential => true,
            IoMode::Random => false,
            IoMode::Mixed => draw_ratio(&mut self.rng, 7, 10),
        };
        if sequential {
            sequential_offset(current, self.block_size, self.device_size)
        } else {
            let limit = self.device_size.saturating_sub(self.block_size as u64);
            let draw = draw_up_to(&mut self.rng, limit);
            let offset = offset_from_draw(draw, self.block_size);
            proof {
                if self.block_size > 0 {
                    lemma_align_down(draw, self.block_size);
                }
            }
            offset
        }
    }

    /// Whether the next operation is a read: `true` with probability
    /// `read_percent / 100`. At 0 and from 100 on the answer is fixed and the
    /// random source is left alone.
    pub fn is_read(&mut self, read_percent: u8) -> (is_read: bool)
        ensures
            final(self).same_setup(old(self)),
            read_percent == 0 ==> !is_read,
            read_percent >= 100 ==> is_read,
            read_percent == 0 || read_percent >= 100 ==> *final(self) == *old(self),
    {
        if read_percent == 0 {
            false
        } else if read_percent >= 100 {
            true
        } else {
            let draw = draw_up_to(&mut self.rng, 99);
            read_decision(read_percent, draw)
        }
    }
}

/// Rounding down gives a multiple of the alignment that is at most the
/// argument and less than one alignment below it.
pub proof fn lemma_align_down(x: u64, alignment: usize)
    requires
        alignment > 0,
    ensures
        align_down(x, alignment) % (alignment as u64) == 0,
        align_down(x, alignment) <= x < align_down(x, alignment) + alignment,
{
    let a = alignment as int;
    let xi = x as int;
    assert(xi == a * (xi / a) + xi % a) by {
        vstd::arithmetic::div_mod::lemma_fundamental_div_mod(xi, a);
    }
    assert((a * (xi / a)) % a == 0) by {
        vstd::arithmetic::div_mod::lemma_mod_multiples_basic(xi / a, a);
        vstd::arithmetic::mul::lemma_mul_is_commutative(a, xi / a);
    }
}

/// An offset that a generator hands out in random mode is aligned to the
/// block size and leaves room for a whole block, on any device that holds at
/// least one block.
pub proof fn lemma_random_offset_in_bounds(offset: u64, block_size: usize, device_size: u64)
    requires
        block_size > 0,
        block_size <= device_size,
        is_random_offset(offset, block_size, device_size),
    ensures
        offset_in_bounds(offset, block_size, device_size),
{
}

/// From an offset that is in bounds, the sequential step stays in bounds on
/// a device whose size is a multiple of the block size.
pub proof fn lemma_sequential_next_in_bounds(current: u64, block_size: usize, device_size: u64)
    requires
        block_size > 0,
        block_size <= device_size,
        device_size % (block_size as u64) == 0,
        current % (block_size as u64) == 0,
    ensures
        offset_in_bounds(sequential_next(current, block_size, device_size), block_size, device_size),
{
    let b = block_size as int;
    let next = current + b;
    if next < device_size {
        assert(next % b == 0) by {
            vstd::arithmetic::div_mod::lemma_mod_adds(current as int, b, b);
        }
        assert(next + b <= device_size) by {
            lemma_multiple_gap(next, device_size as int, b);
        }
    }
}

/// Two multiples of `b`, the first less than the second, lie at least `b`
/// apart.
proof fn lemma_multiple_gap(x: int, y: int, b: int)
    requires
        b > 0,
        0 <= x < y,
        x % b == 0,
        y % b == 0,
    ensures
        x + b <= y,
{
    vstd::arithmetic::div_mod::lemma_fundamental_div_mod(x, b);
    vstd::arithmetic::div_mod::lemma_fundamental_div_mod(y, b);
    let p = x / b;
    let q = y / b;
    assert(x == b * p);
    assert(y == b * q);
    assert(p < q) by (nonlinear_arith)
        requires
            b > 0,
            b * p < b * q,
    ;
    assert(b * p + b <= b * q) by (nonlinear_arith)
        requires
            b > 0,
            p + 1 <= q,
    ;
}

/// The sequential stream from zero visits the multiples of the block size in
/// ascending order, each once, up to the last that starts before the end of
/// the device, and is back at zero at the step after it. On a device of `C`
/// whole blocks it so visits every offset at which a block fits before it
/// returns to zero.
pub proof fn lemma_sequential_wrap(k: nat, block_size: usize, device_size: u64)
    requires
        block_size > 0,
    ensures
        k * block_size < device_size ==> sequential_stream(k, block_size, device_size) == k
            * block_size,
        k > 0 && (k - 1) * block_size < device_size && k * block_size >= device_size
            ==> sequential_stream(k, block_size, device_size) == 0,
    decreases k,
{
    let b = block_size as int;
    if k > 0 {
        assert((k - 1) * b + b == k * b) by (nonlinear_arith);
        assert(0 <= (k - 1) * b) by (nonlinear_arith)
            requires
                b > 0,
                k > 0,
        ;
        lemma_sequential_wrap((k - 1) as nat, block_size, device_size);
    } else {
        assert(k * b == 0) by (nonlinear_arith)
            requires
                k == 0,
        ;
    }
}

} // verus!

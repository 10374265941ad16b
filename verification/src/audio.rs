//! A ring buffer between the emulator and a local audio device. Samples are held as
//! the bits of their 32-bit patterns.

use vstd::arithmetic::power2;
use vstd::prelude::*;

verus! {

/// Audio sample rate (GB outputs at ~44100 Hz)
pub const AUDIO_SAMPLE_RATE: u32 = 44100;

/// Single-producer, single-consumer ring buffer for audio samples. The positions run
/// on, wrapping, and name a cell by their remainder; a producer that runs ahead by
/// more than the capacity overwrites what was not read.
pub struct AudioBuffer {
    samples: Vec<u32>,
    read_pos: usize,
    write_pos: usize,
    last_sample: u32,
}

/// What a ring holds.
#[verifier::ext_equal]
pub struct Ring {
    pub cells: Seq<u32>,
    pub read: int,
    pub write: int,
    /// For smooth underrun handling.
    pub last: u32,
}

impl View for AudioBuffer {
    type V = Ring;

    closed spec fn view(&self) -> Ring {
        Ring {
            cells: self.samples@,
            read: self.read_pos as int,
            write: self.write_pos as int,
            last: self.last_sample,
        }
    }
}

/// The number that positions wrap at.
pub open spec fn wrap() -> int {
    usize::MAX + 1
}

/// The capacity is a power of two, so that positions name the same cell after they
/// wrapped.
pub open spec fn is_valid(r: Ring) -> bool {
    &&& exists|k: nat| k < usize::BITS && r.cells.len() == #[trigger] power2::pow2(k)
    &&& 0 <= r.read < wrap()
    &&& 0 <= r.write < wrap()
}

/// The position that follows.
pub open spec fn step(p: int) -> int {
    if p + 1 == wrap() {
        0
    } else {
        p + 1
    }
}

/// Positions between the reader and the writer.
pub open spec fn ahead(r: Ring) -> int {
    if r.read <= r.write {
        r.write - r.read
    } else {
        r.write - r.read + wrap()
    }
}

/// The ring after a sample.
pub open spec fn put(r: Ring, sample: u32) -> Ring {
    Ring {
        cells: r.cells.update(r.write % r.cells.len() as int, sample),
        write: step(r.write),
        ..r
    }
}

/// The ring after some samples.
pub open spec fn put_all(r: Ring, samples: Seq<u32>) -> Ring
    decreases samples.len(),
{
    if samples.len() == 0 {
        r
    } else {
        put(put_all(r, samples.drop_last()), samples.last())
    }
}

/// The sample that comes next.
pub open spec fn front(r: Ring) -> u32 {
    r.cells[r.read % r.cells.len() as int]
}

/// The ring once that was taken.
pub open spec fn taken(r: Ring) -> Ring {
    Ring { read: step(r.read), last: front(r), ..r }
}

/// The smallest power of two that is not below a number.
pub open spec fn is_rounded_up(capacity: int, n: int) -> bool {
    &&& exists|k: nat| k < usize::BITS && n == #[trigger] power2::pow2(k)
    &&& n >= capacity
    &&& n == 1 || n / 2 < capacity
}

proof fn lemma_machine_words()
    ensures
        wrap() == power2::pow2(usize::BITS as nat),
        isize::MAX == wrap() / 2 - 1,
{
    power2::lemma2_to64();
    power2::lemma2_to64_rest();
    vstd::layout::unsigned_int_max_values();
    vstd::layout::signed_int_min_max_values();
}

proof fn lemma_exponent_is_small(k: nat, n: int)
    requires
        n == power2::pow2(k),
        n < wrap(),
    ensures
        k < usize::BITS,
{
    lemma_machine_words();
    if k > usize::BITS {
        power2::lemma_pow2_strictly_increases(usize::BITS as nat, k);
    }
}

/// Rounded up, as many samples fit in memory: their bytes, four to each, are no more
/// than `isize::MAX`.
pub open spec fn can_hold(capacity: int) -> bool {
    16 * capacity <= wrap()
}

/// Round up to a power of two.
fn round_up(capacity: usize) -> (n: usize)
    requires
        can_hold(capacity as int),
    ensures
        is_rounded_up(capacity as int, n as int),
        4 * n <= isize::MAX,
{
    let mut n: usize = 1;
    let ghost mut k: nat = 0;
    proof {
        power2::lemma2_to64();
        vstd::layout::unsigned_int_max_values();
    }
    while n < capacity
        invariant
            1 <= n,
            n == power2::pow2(k),
            n == 1 || n / 2 < capacity,
            n % 2 == 0 || n == 1,
            can_hold(capacity as int),
        decreases 2 * capacity - n,
    {
        proof {
            power2::lemma_pow2_adds(k, 1);
            power2::lemma2_to64();
            k = k + 1;
        }
        n = n * 2;
    }
    proof {
        lemma_exponent_is_small(k, n as int);
        lemma_machine_words();
    }
    n
}

impl AudioBuffer {
    /// Create a new buffer. Capacity will be rounded up to next power of 2.
    pub fn new(capacity: usize) -> (r: Self)
        requires
            can_hold(capacity as int),
        ensures
            is_valid(r@),
            is_rounded_up(capacity as int, r@.cells.len() as int),
            r@ == (Ring {
                cells: Seq::new(r@.cells.len(), |i: int| 0u32),
                read: 0,
                write: 0,
                last: 0,
            }),
    {
        let n: usize = round_up(capacity);
        let mut samples: Vec<u32> = Vec::new();
        let mut i: usize = 0;
        while i < n
            invariant
                i <= n,
                samples@ == Seq::new(i as nat, |i: int| 0u32),
            decreases n - i,
        {
            samples.push(0);
            i += 1;
        }
        AudioBuffer { samples, read_pos: 0, write_pos: 0, last_sample: 0 }
    }

    /// Get available samples in buffer
    pub fn available(&self) -> (r: usize)
        requires
            is_valid(self@),
        ensures
            r == ahead(self@),
    {
        if self.write_pos >= self.read_pos {
            self.write_pos - self.read_pos
        } else {
            usize::MAX - (self.read_pos - self.write_pos) + 1
        }
    }

    /// Push samples from the producer (main emulation thread)
    pub fn push_samples(&mut self, samples: &[u32])
        requires
            is_valid(old(self)@),
        ensures
            final(self)@ == put_all(old(self)@, samples@),
            is_valid(final(self)@),
    {
        let ghost r = self@;
        let mut i: usize = 0;
        while i < samples.len()
            invariant
                i <= samples@.len(),
                is_valid(self@),
                self@ == put_all(r, samples@.take(i as int)),
            decreases samples.len() - i,
        {
            assert(samples@.take(i + 1).drop_last() =~= samples@.take(i as int));
            proof {
                let k = choose|k: nat| k < usize::BITS && self@.cells.len() == #[trigger] power2::pow2(k);
                power2::lemma_pow2_pos(k);
            }
            let at: usize = self.write_pos % self.samples.len();
            self.samples.set(at, samples[i]);
            self.write_pos = if self.write_pos == usize::MAX {
                0
            } else {
                self.write_pos + 1
            };
            i += 1;
        }
        assert(samples@.take(i as int) =~= samples@);
    }

    /// Pop a single sample from the consumer (audio thread); none when the buffer is
    /// empty, when the last sample is to be faded.
    pub fn pop_sample(&mut self) -> (s: Option<u32>)
        requires
            is_valid(old(self)@),
        ensures
            old(self)@.read == old(self)@.write ==> s is None && final(self)@ == old(self)@,
            old(self)@.read != old(self)@.write ==> s == Some(front(old(self)@)) && final(self)@
                == taken(old(self)@),
            is_valid(final(self)@),
    {
        if self.read_pos == self.write_pos {
            return None;
        }
        proof {
            let k = choose|k: nat| k < usize::BITS && self@.cells.len() == #[trigger] power2::pow2(k);
            power2::lemma_pow2_pos(k);
        }
        let sample: u32 = self.samples[self.read_pos % self.samples.len()];
        self.read_pos = if self.read_pos == usize::MAX {
            0
        } else {
            self.read_pos + 1
        };
        // Store for smooth underrun handling
        self.last_sample = sample;
        Some(sample)
    }

    /// The last sample that was played, to fade from.
    pub fn last_sample(&self) -> (r: u32)
        ensures
            r == self@.last,
    {
        self.last_sample
    }

    /// Remember what was played on an underrun.
    pub fn set_last_sample(&mut self, bits: u32)
        ensures
            final(self)@ == (Ring { last: bits, ..old(self)@ }),
    {
        self.last_sample = bits;
    }
}

// ---------------------------------------------------------------------------
// Laws
// ---------------------------------------------------------------------------

/// What waits in a ring, oldest first.
pub open spec fn waiting(r: Ring) -> Seq<u32> {
    Seq::new(
        ahead(r) as nat,
        |i: int| r.cells[(r.read + i) % r.cells.len() as int],
    )
}

/// The capacity divides the number that positions wrap at.
proof fn lemma_wrap(r: Ring)
    requires
        is_valid(r),
    ensures
        r.cells.len() > 0,
        exists|q: int| wrap() == #[trigger] (q * r.cells.len()),
        wrap() > r.cells.len(),
{
    let k = choose|k: nat| k < usize::BITS && r.cells.len() == #[trigger] power2::pow2(k);
    power2::lemma_pow2_pos(k);
    power2::lemma2_to64();
    power2::lemma2_to64_rest();
    vstd::layout::unsigned_int_max_values();
    let bits: nat = if usize::BITS == 32 {
        32
    } else {
        64
    };
    power2::lemma_pow2_adds((bits - k) as nat, k);
    power2::lemma_pow2_strictly_increases(k, bits);
}

/// A position names one cell before and after it wrapped.
proof fn lemma_cell(r: Ring, p: int)
    requires
        is_valid(r),
    ensures
        r.cells.len() > 0,
        (p - wrap()) % r.cells.len() as int == p % r.cells.len() as int,
{
    lemma_wrap(r);
    let n = r.cells.len() as int;
    let q = choose|q: int| wrap() == #[trigger] (q * r.cells.len());
    vstd::arithmetic::div_mod::lemma_mod_multiples_vanish(q, p - wrap(), n);
    assert(n * q == wrap()) by (nonlinear_arith)
        requires
            wrap() == q * n,
    ;
}

/// The ring is a queue at its writer's end: as long as that stays within the
/// capacity, a sample is put behind what waits.
pub proof fn law_samples_queue_up(r: Ring, sample: u32)
    requires
        is_valid(r),
        ahead(r) < r.cells.len(),
    ensures
        waiting(put(r, sample)) == waiting(r).push(sample),
        is_valid(put(r, sample)),
{
    lemma_wrap(r);
    let n = r.cells.len() as int;
    let s = put(r, sample);
    lemma_cell(r, r.read + ahead(r));
    assert forall|i: int| 0 <= i < ahead(s) implies #[trigger] waiting(s)[i] == waiting(r).push(
        sample,
    )[i] by {
        vstd::arithmetic::div_mod::lemma_mod_bound(r.read + i, n);
        vstd::arithmetic::div_mod::lemma_mod_bound(r.write, n);
        if i < ahead(r) {
            lemma_distinct_cells(r.read, i, ahead(r), n);
        }
    }
}

/// The ring is a queue at its reader's end: what waits comes out oldest first, and
/// an empty ring has nothing to give.
pub proof fn law_samples_leave_in_order(r: Ring)
    requires
        is_valid(r),
    ensures
        0 < ahead(r) ==> front(r) == waiting(r)[0] && waiting(taken(r)) == waiting(r).skip(1)
            && is_valid(taken(r)),
        ahead(r) == 0 <==> r.read == r.write,
{
    lemma_wrap(r);
    if 0 < ahead(r) {
        let s = taken(r);
        assert forall|i: int| 0 <= i < ahead(s) implies #[trigger] waiting(s)[i] == waiting(r).skip(
            1,
        )[i] by {
            lemma_cell(r, r.read + 1 + i);
        }
    }
}

/// Positions less than the capacity apart have cells of their own.
proof fn lemma_distinct_cells(base: int, i: int, j: int, n: int)
    requires
        0 <= base,
        0 <= i < j < n,
    ensures
        (base + i) % n != (base + j) % n,
{
    if (base + i) % n == (base + j) % n {
        vstd::arithmetic::div_mod::lemma_mod_equivalence(base + j, base + i, n);
        assert((j - i) % n == j - i) by {
            vstd::arithmetic::div_mod::lemma_small_mod((j - i) as nat, n as nat);
        }
    }
}

/// Samples that fit behind what waits are queued all, in their order.
pub proof fn law_all_samples_queue_up(r: Ring, samples: Seq<u32>)
    requires
        is_valid(r),
        ahead(r) + samples.len() <= r.cells.len(),
    ensures
        waiting(put_all(r, samples)) == waiting(r) + samples,
        is_valid(put_all(r, samples)),
        put_all(r, samples).cells.len() == r.cells.len(),
    decreases samples.len(),
{
    if samples.len() == 0 {
        assert(waiting(r) + samples =~= waiting(r));
    } else {
        let before = put_all(r, samples.drop_last());
        law_all_samples_queue_up(r, samples.drop_last());
        assert(ahead(before) == waiting(before).len());
        law_samples_queue_up(before, samples.last());
        assert((waiting(r) + samples.drop_last()).push(samples.last()) =~= waiting(r) + samples);
    }
}

/// What is put in comes out: a sample put into an empty ring is the next to leave, and
/// leaves it empty.
pub proof fn law_sample_passes_through(r: Ring, sample: u32)
    requires
        is_valid(r),
        r.read == r.write,
    ensures
        front(put(r, sample)) == sample,
        ahead(put(r, sample)) == 1,
        ahead(taken(put(r, sample))) == 0,
        taken(put(r, sample)).last == sample,
{
    lemma_wrap(r);
    law_samples_queue_up(r, sample);
    let one = put(r, sample);
    assert(waiting(r) =~= Seq::<u32>::empty());
    assert(waiting(one) == waiting(r).push(sample));
    assert(ahead(one) == waiting(one).len());
    law_samples_leave_in_order(one);
    assert(ahead(taken(one)) == waiting(taken(one)).len());
}

/// The capacity is rounded to the next power of two: no smaller one holds what is asked
/// for, so the capacity is the only one of its kind.
pub proof fn law_capacity_is_the_next_power(capacity: int, n: int, k: nat)
    requires
        is_rounded_up(capacity, n),
        capacity <= power2::pow2(k),
    ensures
        n <= power2::pow2(k),
{
    let e = choose|e: nat| e < usize::BITS && n == #[trigger] power2::pow2(e);
    if k < e {
        power2::lemma_pow2_unfold(e);
        if k < e - 1 {
            power2::lemma_pow2_strictly_increases(k, (e - 1) as nat);
        }
        power2::lemma_pow2_pos((e - 1) as nat);
        let half = power2::pow2((e - 1) as nat) as int;
        assert(n == 2 * half && half >= 1 && power2::pow2(k) <= half);
        assert(n / 2 == half);
        assert(half < capacity);
    } else if e < k {
        power2::lemma_pow2_strictly_increases(e, k);
    }
}

} // verus!

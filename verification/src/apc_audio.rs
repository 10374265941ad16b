//! Stream the emulator's PCM to a SyncTERM-APC-capable terminal as a sequence of
//! short clips, kept in sync with wall-clock by a self-correcting timeline.
//!
//! Wire format (per the released cterm SyncTERM:A audio doc):
//!   ESC _ SyncTERM:C;S;<name>;<base64-wav> ESC \         (cache the clip)
//!   ESC _ SyncTERM:A;Load;S=<slot>;<name>  ESC \         (decode into a slot)
//!   ESC _ SyncTERM:A;Queue;C=<chan>;S=<slot> ESC \       (play on a channel)
//!
//! Sync model. The emulator runs locked to wall-clock, so each produced sample
//! already carries a timestamp: its position on the audio timeline *is* the
//! real time it was produced. The terminal drains the channel FIFO at a fixed
//! realtime rate. With a wall-clock producer and a realtime consumer, latency is
//! just the initial buffering delay; it only *grows* if we keep sending audio
//! the saturated link can't clear. So every tick only as much is sent as the
//! schedule asks for, and the rest reconciled:
//!
//!   * the producer drifting a little faster than realtime: declare a slightly
//!     higher WAV sample-rate so the terminal plays the clip back compressed,
//!     absorbing the drift with no gap (the terminal's own resampler does the
//!     work).
//!   * a big surplus from a stall/catch-up burst: compress at the cap and drop
//!     the part that won't fit, so audio skips once to "now" instead of lagging.
//!
//! A tick is two steps: `due` says what the schedule wants, `emit_ready` ships a
//! clip as reconciled with it. The only cushion held is the measured jitter of the
//! emit cadence, not a tuned constant. The terminal's one feedback signal (the
//! `Update;C=` one-shot `CSI = 7 ; <ch> ; 0 n` fired when the channel drains)
//! re-anchors the timeline after an underrun.

use crate::text;
use crate::wire;
use vstd::prelude::*;

verus! {

/// Source rate from the emulator's APU.
pub const SRC_RATE: u32 = 44100;

/// Channel to play on (0-1 are reserved by SyncTERM for internal music/SFX).
pub const CHANNEL: u8 = 2;

/// Number of rotating slot/filename pairs to cycle through.
pub const SLOTS: u8 = 8;

/// Clocks, in ms, stay below this (over two centuries).
pub const CLOCK_LIMIT: u64 = 0x800_0000_0000;

/// Samples that may await emission: a clip's WAV length is a 32-bit number.
pub const ACCUM_LIMIT: usize = 0x7fff_ffed;

pub struct ApcAudio {
    /// output sample rate after decimation (bandwidth lever)
    pub out_rate: u32,
    /// integer SRC_RATE/out_rate decimation factor
    pub decim: u32,
    /// smallest clip worth emitting, ms (avoids tiny WAVs)
    pub min_send: u64,
    /// mono S16 @ out_rate awaiting emission
    pub accum: Vec<i16>,
    pub slot: u8,
    pub primed: bool,
    /// wall-clock anchor for the realtime playback timeline
    pub play_start_ms: u64,
    /// realtime audio handed to the terminal since the anchor
    pub emitted_ms: u64,
    /// Measured cushion: the rolling max gap between emit calls (link jitter).
    pub last_now_ms: u64,
    pub jitter_ms: u64,
    // Diagnostics.
    pub start_ms: u64,
    pub produced_samples: u64,
    /// clips with dropped (skipped) audio
    pub drops: u32,
    /// sample rate declared on the last clip
    pub last_rate: u32,
    pub lead_ms: u32,
}

/// What the schedule asks for at a tick.
#[derive(Clone, Copy, PartialEq, Eq, Debug, Structural)]
pub struct Need {
    /// realtime audio wanted beyond what was sent, ms
    pub need_ms: u64,
    /// samples at hand
    pub avail: usize,
}

/// How the audio at hand is reconciled with the schedule.
#[derive(Clone, Copy, PartialEq, Eq, Debug, Structural)]
pub enum Reconciled {
    /// Keeping up or behind: send everything at its true rate.
    All,
    /// Small drift: declare a faster rate, so that all of it plays in the time
    /// that the schedule asks for.
    Compress { rate: u32 },
    /// Big surplus: keep the newest samples at this rate, drop the oldest.
    Skip { keep: usize, rate: u32 },
}

/// A snapshot of the stream's health, for diagnostics.
#[derive(Clone, Copy, PartialEq, Eq, Debug, Structural)]
pub struct ApcStats {
    /// audio queued ahead of realtime (the live cushion)
    pub lead_ms: u32,
    /// audio produced, and wall-clock passed, since the start
    pub produced_ms: u64,
    pub wall_ms: u64,
    /// sample rate declared on the last clip
    pub last_rate: u32,
    /// cumulative clips with dropped (skipped) audio
    pub drops: u32,
    /// output sample rate in Hz (bandwidth)
    pub rate: u32,
}

// ---------------------------------------------------------------------------
// Model
// ---------------------------------------------------------------------------

/// What a stream knows.
#[verifier::ext_equal]
pub struct Stream {
    pub out_rate: int,
    pub decim: int,
    pub min_send: int,
    pub accum: Seq<i16>,
    pub slot: u8,
    pub primed: bool,
    pub play_start: int,
    pub emitted: int,
    pub last_now: int,
    pub jitter: int,
    pub start: int,
    pub produced: int,
    pub drops: int,
    pub last_rate: int,
    pub lead: int,
}

impl View for ApcAudio {
    type V = Stream;

    open spec fn view(&self) -> Stream {
        Stream {
            out_rate: self.out_rate as int,
            decim: self.decim as int,
            min_send: self.min_send as int,
            accum: self.accum@,
            slot: self.slot,
            primed: self.primed,
            play_start: self.play_start_ms as int,
            emitted: self.emitted_ms as int,
            last_now: self.last_now_ms as int,
            jitter: self.jitter_ms as int,
            start: self.start_ms as int,
            produced: self.produced_samples as int,
            drops: self.drops as int,
            last_rate: self.last_rate as int,
            lead: self.lead_ms as int,
        }
    }
}

pub open spec fn max(a: int, b: int) -> int {
    if a < b {
        b
    } else {
        a
    }
}

/// `a - b`, but not below zero.
pub open spec fn less(a: int, b: int) -> int {
    if a < b {
        0
    } else {
        a - b
    }
}

/// A rate that a clip may declare: the true one, or one above it by at most 2 %,
/// rounded to whole Hz.
pub open spec fn is_declarable(s: Stream, rate: int) -> bool {
    s.out_rate <= rate && 100 * rate <= 102 * s.out_rate + 50
}

/// Clocks and buffers are within their limits.
pub open spec fn is_valid(s: Stream) -> bool {
    &&& 5512 <= s.out_rate <= 44100
    &&& 1 <= s.decim <= 8
    &&& 5 <= s.min_send <= 0xffff_ffff
    &&& s.accum.len() <= ACCUM_LIMIT
    &&& s.slot < SLOTS
    &&& 0 <= s.play_start <= CLOCK_LIMIT
    &&& 0 <= s.last_now <= CLOCK_LIMIT
    &&& 0 <= s.jitter <= CLOCK_LIMIT
    &&& 0 <= s.start <= CLOCK_LIMIT
    &&& 0 <= s.emitted <= 4 * CLOCK_LIMIT
    &&& is_declarable(s, s.last_rate)
}

/// The decimation factor for a wanted rate: the source rate divided by it, as a
/// whole number from 1 to 8.
pub open spec fn decimation(rate_hint: int) -> int {
    let hint = if rate_hint < 5512 {
        5512
    } else if rate_hint > 44100 {
        44100
    } else {
        rate_hint
    };
    44100int / hint
}

/// A fresh stream.
pub open spec fn fresh(min_chunk_ms: int, rate_hint: int) -> Stream {
    Stream {
        out_rate: 44100int / decimation(rate_hint),
        decim: decimation(rate_hint),
        min_send: max(min_chunk_ms, 5),
        accum: Seq::empty(),
        slot: 0,
        primed: false,
        play_start: 0,
        emitted: 0,
        last_now: 0,
        jitter: 0,
        start: 0,
        produced: 0,
        drops: 0,
        last_rate: 44100int / decimation(rate_hint),
        lead: 0,
    }
}

/// The first tick anchors the timeline.
pub open spec fn primed_at(s: Stream, now: int) -> Stream {
    if s.primed {
        s
    } else {
        Stream { play_start: now, start: now, last_now: now, emitted: 0, primed: true, ..s }
    }
}

/// The measured cushion: decaying max of the interval between ticks.
pub open spec fn cushion(s: Stream, now: int) -> int {
    max(s.jitter * 15 / 16, less(now, s.last_now))
}

/// How much realtime audio the schedule wants queued by now: what has been played
/// since the anchor, and a cushion.
pub open spec fn schedule(s: Stream, now: int) -> int {
    less(now, s.play_start) + max(s.min_send, cushion(s, now))
}

/// What the schedule asks for beyond what was sent.
pub open spec fn needed(s: Stream, now: int) -> int {
    less(schedule(s, now), s.emitted)
}

/// Playing time of the audio at hand, ms.
pub open spec fn available_ms(s: Stream) -> int {
    s.accum.len() as int * 1000 / s.out_rate
}

/// The stream after the bookkeeping of a tick.
pub open spec fn ticked(s: Stream, now: int) -> Stream {
    let p = primed_at(s, now);
    Stream {
        last_now: now,
        jitter: cushion(p, now),
        lead: less(p.emitted, less(now, p.play_start)) % 0x1_0000_0000,
        ..p
    }
}

/// What a tick asks to be sent: nothing when the schedule is met or nothing is at
/// hand, nor when only a sliver is buffered (a fuller clip is waited for).
pub open spec fn asked(s: Stream, now: int) -> Option<Need> {
    let p = primed_at(s, now);
    let need = needed(p, now);
    let avail = p.accum.len();
    let ms = available_ms(p);
    if need == 0 || avail == 0 || (ms < need && ms < p.min_send) {
        None
    } else {
        Some(Need { need_ms: need as u64, avail: avail as usize })
    }
}

/// Arm the one-shot drain notification on the channel.
pub open spec fn arm_bytes() -> Seq<u8> {
    text::bytes_of("\x1b_SyncTERM:A;Update;C="@) + text::bytes_of(text::decimal(CHANNEL as nat))
        + text::bytes_of("\x1b\\"@)
}

/// Flush the channel's FIFO.
pub open spec fn flush_bytes() -> Seq<u8> {
    text::bytes_of("\x1b_SyncTERM:A;Flush;C="@) + text::bytes_of(text::decimal(CHANNEL as nat))
        + text::bytes_of("\x1b\\"@)
}

/// Store, load and queue one clip.
pub open spec fn clip_bytes(slot: u8, samples: Seq<i16>, rate: int) -> Seq<u8> {
    let n = text::bytes_of(text::decimal(slot as nat));
    text::bytes_of("\x1b_SyncTERM:C;S;g"@) + n + text::bytes_of(";"@) + wire::base64(
        wire::wav(samples, rate),
    ) + text::bytes_of("\x1b\\"@) + text::bytes_of("\x1b_SyncTERM:A;Load;S="@) + n + text::bytes_of(
        ";g"@,
    ) + n + text::bytes_of("\x1b\\"@) + text::bytes_of("\x1b_SyncTERM:A;Queue;C="@)
        + text::bytes_of(text::decimal(CHANNEL as nat)) + text::bytes_of(";S="@) + n
        + text::bytes_of("\x1b\\"@)
}

pub open spec fn slot_after(slot: u8) -> u8 {
    ((slot + 1) % 8) as u8
}

/// Sample rate to declare.
pub open spec fn rate_of(s: Stream, r: Reconciled) -> int {
    match r {
        Reconciled::All => s.out_rate,
        Reconciled::Compress { rate } => rate as int,
        Reconciled::Skip { keep, rate } => rate as int,
    }
}

/// The samples that are sent: all, or the newest.
pub open spec fn sent(s: Stream, r: Reconciled) -> Seq<i16> {
    match r {
        Reconciled::Skip { keep, rate } => s.accum.skip(s.accum.len() - keep),
        _ => s.accum,
    }
}

/// The stream after a clip: the time it plays is charged to the timeline.
pub open spec fn shipped(s: Stream, r: Reconciled, need_ms: int) -> Stream {
    Stream {
        accum: Seq::empty(),
        slot: slot_after(s.slot),
        emitted: s.emitted + match r {
            Reconciled::All => available_ms(s),
            _ => need_ms,
        },
        drops: match r {
            Reconciled::Skip { keep, rate } => if keep < s.accum.len() {
                s.drops + 1
            } else {
                s.drops
            },
            _ => s.drops,
        },
        last_rate: rate_of(s, r),
        ..s
    }
}

/// More audio is at hand than plays in `need_ms`, at its true rate.
pub open spec fn surplus(s: Stream, need_ms: int) -> bool {
    s.accum.len() * 1000 > need_ms * s.out_rate
}

/// A plan that suits a schedule that asks for `need_ms`. What is at hand goes out as
/// it is unless there is a surplus. One of at most 2 % is sped up: the rate makes it
/// play in the time that is asked for, to within 1 Hz. A greater one is cut: what
/// plays in that time at a rate 2 % faster is kept. The plan is made in floating
/// point, so the 2 % by which a surplus is judged and cut leave room for rounding:
/// they may be off by a hundredth of a percent.
pub open spec fn fits(s: Stream, need_ms: int, r: Reconciled) -> bool {
    // a thousand times the samples at hand, and those asked for
    let at_hand = s.accum.len() * 1000;
    let wanted = need_ms * s.out_rate;
    &&& r is All <==> !surplus(s, need_ms)
    &&& is_declarable(s, rate_of(s, r))
    &&& r matches Reconciled::Compress { rate } ==> {
        &&& 10_000 * at_hand <= 10_201 * wanted
        &&& -need_ms <= rate * need_ms - at_hand <= need_ms
    }
    &&& r matches Reconciled::Skip { keep, rate } ==> {
        &&& 10_000 * at_hand > 10_199 * wanted
        &&& 102 * s.out_rate - 50 <= 100 * rate
        &&& keep <= s.accum.len()
        &&& 10_000 * (keep * 1000 + 1000) > 10_199 * wanted
        &&& 10_000 * (keep * 1000) <= 10_201 * wanted
        &&& s.drops < 0xffff_ffff
    }
}

/// The stream after a tick, with its clip if one was due.
pub open spec fn emitted_at(s: Stream, now: int, r: Reconciled) -> Stream {
    match asked(s, now) {
        Some(n) => shipped(ticked(s, now), r, n.need_ms as int),
        None => ticked(s, now),
    }
}

/// The first tick arms the drain notification.
pub open spec fn arming(s: Stream) -> Seq<u8> {
    if s.primed {
        Seq::empty()
    } else {
        arm_bytes()
    }
}

/// The bytes of a tick.
pub open spec fn emitted_bytes(s: Stream, now: int, r: Reconciled) -> Seq<u8> {
    match asked(s, now) {
        Some(n) => arming(s) + clip_bytes(s.slot, sent(s, r), rate_of(s, r)),
        None => arming(s),
    }
}

/// What a stream reports.
pub struct Report {
    pub lead_ms: int,
    pub produced_ms: int,
    pub wall_ms: int,
    pub last_rate: int,
    pub drops: int,
    pub rate: int,
}

impl View for ApcStats {
    type V = Report;

    open spec fn view(&self) -> Report {
        Report {
            lead_ms: self.lead_ms as int,
            produced_ms: self.produced_ms as int,
            wall_ms: self.wall_ms as int,
            last_rate: self.last_rate as int,
            drops: self.drops as int,
            rate: self.rate as int,
        }
    }
}

/// More samples at hand.
pub open spec fn pushed(s: Stream, samples: Seq<i16>) -> Stream {
    Stream { accum: s.accum + samples, produced: s.produced + samples.len(), ..s }
}

/// What is sent after an underrun.
pub open spec fn drain_bytes() -> Seq<u8> {
    arm_bytes()
}

/// What is sent to start over from what plays now.
pub open spec fn resync_bytes() -> Seq<u8> {
    flush_bytes() + arm_bytes()
}

/// What is sent at the end.
pub open spec fn stop_bytes() -> Seq<u8> {
    flush_bytes()
}

/// The diagnostics at `now`.
pub open spec fn report(s: Stream, now: int) -> Report {
    Report {
        lead_ms: s.lead,
        produced_ms: s.produced * 1000 / s.out_rate,
        wall_ms: max(less(now, s.start), 1),
        last_rate: s.last_rate,
        drops: s.drops,
        rate: s.out_rate,
    }
}

/// The timeline anchored anew: nothing is queued now.
pub open spec fn reanchored(s: Stream, now: int) -> Stream {
    Stream { play_start: now, emitted: 0, lead: 0, ..s }
}

// ---------------------------------------------------------------------------
// Executable side
// ---------------------------------------------------------------------------

fn push_channel(out: &mut Vec<u8>, start: &str)
    ensures
        final(out)@ == old(out)@ + (text::bytes_of(start@) + text::bytes_of(
            text::decimal(CHANNEL as nat),
        ) + text::bytes_of("\x1b\\"@)),
{
    text::push_bytes(out, start);
    text::push_decimal_bytes(out, CHANNEL as u64);
    text::push_bytes(out, "\x1b\\");
}

fn larger(a: u64, b: u64) -> (r: u64)
    ensures
        r == max(a as int, b as int),
{
    if a < b {
        b
    } else {
        a
    }
}

proof fn lemma_product(a: int, b: int)
    requires
        0 <= a <= 0xffff_ffff && 0 <= b <= 0xffff_ffff_ffff_ffff || 0 <= a <= 0xffff_ffff_ffff_ffff
            && 0 <= b <= 0xffff_ffff,
    ensures
        0 <= a * b <= 0xffff_ffff * 0xffff_ffff_ffff_ffff,
{
    assert(0 <= a * b <= 0xffff_ffff * 0xffff_ffff_ffff_ffff) by (nonlinear_arith)
        requires
            0 <= a <= 0xffff_ffff && 0 <= b <= 0xffff_ffff_ffff_ffff || 0 <= a
                <= 0xffff_ffff_ffff_ffff && 0 <= b <= 0xffff_ffff,
    ;
}

impl ApcAudio {
    /// `min_chunk_ms` is the smallest clip to emit (drop granularity / overhead
    /// floor). `out_rate_hint` is the desired output sample rate; it snaps to an
    /// integer divisor of 44100 (lower = less bandwidth, the lever that keeps the
    /// link from saturating in the first place).
    pub fn new(min_chunk_ms: u32, out_rate_hint: u32) -> (r: Self)
        ensures
            r@ == fresh(min_chunk_ms as int, out_rate_hint as int),
            is_valid(r@),
    {
        let hint: u32 = if out_rate_hint < 5512 {
            5512
        } else if out_rate_hint > 44100 {
            44100
        } else {
            out_rate_hint
        };
        let decim: u32 = 44100 / hint;
        assert(1 <= decim <= 8) by (nonlinear_arith)
            requires
                decim == 44100u32 / hint,
                5512 <= hint <= 44100,
        ;
        let out_rate: u32 = 44100 / decim;
        assert(5512 <= out_rate <= 44100) by (nonlinear_arith)
            requires
                out_rate == 44100u32 / decim,
                1 <= decim <= 8,
        ;
        ApcAudio {
            out_rate,
            decim,
            min_send: if min_chunk_ms < 5 {
                5
            } else {
                min_chunk_ms as u64
            },
            accum: Vec::new(),
            slot: 0,
            primed: false,
            play_start_ms: 0,
            emitted_ms: 0,
            last_now_ms: 0,
            jitter_ms: 0,
            start_ms: 0,
            produced_samples: 0,
            drops: 0,
            last_rate: out_rate,
            lead_ms: 0,
        }
    }

    /// Take decimated mono samples, at the output rate. Accumulates only.
    pub fn push_samples(&mut self, samples: &[i16])
        requires
            is_valid(old(self)@),
            old(self).accum@.len() + samples@.len() <= ACCUM_LIMIT,
            old(self).produced_samples + samples@.len() <= u64::MAX,
        ensures
            final(self)@ == (Stream {
                accum: old(self)@.accum + samples@,
                produced: old(self)@.produced + samples@.len(),
                ..old(self)@
            }),
            final(self)@ == pushed(old(self)@, samples@),
            is_valid(final(self)@),
    {
        self.accum.extend_from_slice(samples);
        self.produced_samples = self.produced_samples + samples.len() as u64;
    }

    /// What the schedule asks for at `now_ms`, if anything is to be sent.
    pub fn due(&self, now_ms: u64) -> (r: Option<Need>)
        requires
            is_valid(self@),
            now_ms <= CLOCK_LIMIT,
        ensures
            r == asked(self@, now_ms as int),
    {
        let (play_start, last_now, emitted): (u64, u64, u64) = if self.primed {
            (self.play_start_ms, self.last_now_ms, self.emitted_ms)
        } else {
            (now_ms, now_ms, 0)
        };
        let jitter: u64 = larger(self.jitter_ms * 15 / 16, now_ms.saturating_sub(last_now));
        let target: u64 = larger(self.min_send, jitter);
        let elapsed: u64 = now_ms.saturating_sub(play_start);
        // How much realtime audio the schedule wants queued by now, beyond what
        // was already sent.
        let need_ms: u64 = (elapsed + target).saturating_sub(emitted);
        let avail: usize = self.accum.len();
        let avail_ms: u64 = avail as u64 * 1000 / self.out_rate as u64;
        if need_ms == 0 || avail == 0 {
            return None;
        }
        // Ahead of schedule with only a sliver buffered: wait for a fuller clip.
        if avail_ms < need_ms && avail_ms < self.min_send {
            return None;
        }
        Some(Need { need_ms, avail })
    }

    /// Is more audio at hand than plays in `need_ms`? Worked in samples, not whole
    /// ms: at small tick sizes those are far coarser than the correction band.
    pub fn has_surplus(&self, need_ms: u64) -> (r: bool)
        ensures
            r == surplus(self@, need_ms as int),
    {
        proof {
            lemma_product(need_ms as int, self.out_rate as int);
        }
        self.accum.len() as u128 * 1000 > need_ms as u128 * self.out_rate as u128
    }

    /// Does the plan suit a schedule that asks for `need_ms`?
    pub fn suits(&self, need_ms: u64, plan: Reconciled) -> (r: bool)
        ensures
            r == fits(self@, need_ms as int, plan),
    {
        let at_hand: u128 = self.accum.len() as u128 * 1000;
        let out_rate: u128 = self.out_rate as u128;
        let need: u128 = need_ms as u128;
        proof {
            lemma_product(need as int, out_rate as int);
        }
        let wanted: u128 = need * out_rate;
        let over = at_hand > wanted;
        match plan {
            Reconciled::All => !over,
            Reconciled::Compress { rate } => {
                let rate: u128 = rate as u128;
                proof {
                    lemma_product(rate as int, need as int);
                }
                let plays: u128 = rate * need;
                over && out_rate <= rate && 100 * rate <= 102 * out_rate + 50 && 10_000 * at_hand
                    <= 10_201 * wanted && plays <= at_hand + need && at_hand <= plays + need
            },
            Reconciled::Skip { keep, rate } => {
                let rate: u128 = rate as u128;
                let kept: u128 = keep as u128 * 1000;
                over && out_rate <= rate && 100 * rate <= 102 * out_rate + 50 && 102 * out_rate
                    <= 100 * rate + 50 && 10_000 * at_hand > 10_199 * wanted && keep
                    <= self.accum.len() && 10_000 * (kept + 1000) > 10_199 * wanted && 10_000 * kept
                    <= 10_201 * wanted && self.drops < 0xffff_ffff
            },
        }
    }

    /// The bookkeeping of a tick. The first one arms the drain notification.
    fn tick(&mut self, now_ms: u64) -> (out: Vec<u8>)
        requires
            is_valid(old(self)@),
            now_ms <= CLOCK_LIMIT,
        ensures
            final(self)@ == ticked(old(self)@, now_ms as int),
            is_valid(final(self)@),
            out@ == arming(old(self)@),
    {
        let mut out: Vec<u8> = Vec::new();
        if !self.primed {
            self.play_start_ms = now_ms;
            self.start_ms = now_ms;
            self.last_now_ms = now_ms;
            self.emitted_ms = 0;
            self.primed = true;
            push_channel(&mut out, "\x1b_SyncTERM:A;Update;C=");
        }
        // Measured cushion: decaying max of the interval between emit calls.
        let gap: u64 = now_ms.saturating_sub(self.last_now_ms);
        self.last_now_ms = now_ms;
        self.jitter_ms = larger(self.jitter_ms * 15 / 16, gap);
        let elapsed: u64 = now_ms.saturating_sub(self.play_start_ms);
        self.lead_ms = (self.emitted_ms.saturating_sub(elapsed) % 0x1_0000_0000) as u32;
        out
    }

    /// Send one reconciled clip for this tick, if one is due. `now_ms` is a
    /// monotonic wall clock (e.g. session-start elapsed); `plan` reconciles what is
    /// at hand with what `due` asks for, and is not used when nothing is due. It
    /// is the caller's, within `fits`, as it is made in floating point. Call once per
    /// frame.
    pub fn emit_ready(&mut self, now_ms: u64, plan: Reconciled) -> (out: Vec<u8>)
        requires
            is_valid(old(self)@),
            now_ms <= CLOCK_LIMIT,
            asked(old(self)@, now_ms as int) matches Some(need) ==> fits(
                old(self)@,
                need.need_ms as int,
                plan,
            ),
        ensures
            final(self)@ == emitted_at(old(self)@, now_ms as int, plan),
            is_valid(final(self)@),
            out@ == emitted_bytes(old(self)@, now_ms as int, plan),
    {
        let need = self.due(now_ms);
        let mut out = self.tick(now_ms);
        if let Some(n) = need {
            let mut clip = self.send(plan, n.need_ms);
            out.append(&mut clip);
        }
        out
    }

    /// Send the audio at hand, as reconciled with the schedule's `need_ms`: the
    /// bytes of one clip.
    fn send(&mut self, r: Reconciled, need_ms: u64) -> (out: Vec<u8>)
        requires
            is_valid(old(self)@),
            old(self).emitted_ms + need_ms <= 3 * CLOCK_LIMIT,
            fits(old(self)@, need_ms as int, r),
        ensures
            final(self)@ == shipped(old(self)@, r, need_ms as int),
            is_valid(final(self)@),
            out@ == clip_bytes(
                old(self)@.slot,
                sent(old(self)@, r),
                rate_of(old(self)@, r),
            ),
    {
        let avail: usize = self.accum.len();
        let avail_ms: u64 = avail as u64 * 1000 / self.out_rate as u64;
        assert(avail_ms <= 0x1000_0000_0000) by (nonlinear_arith)
            requires
                avail_ms == avail as int * 1000 / self.out_rate as int,
                avail <= 0x7fff_ffed,
                self.out_rate >= 5512,
        ;
        let (send, rate, played_ms): (usize, u32, u64) = match r {
            Reconciled::All => (avail, self.out_rate, avail_ms),
            Reconciled::Compress { rate } => (avail, rate, need_ms),
            Reconciled::Skip { keep, rate } => (keep, rate, need_ms),
        };
        if send < avail {
            self.drops = self.drops + 1;
        }
        let clip = &self.accum.as_slice()[avail - send..avail];
        assert(clip@ =~= sent(old(self)@, r));
        let b64 = wire::base64_encode(wire::encode_wav_mono(clip, rate).as_slice());
        let slot: u64 = self.slot as u64;
        let mut out: Vec<u8> = Vec::new();
        text::push_bytes(&mut out, "\x1b_SyncTERM:C;S;g");
        text::push_decimal_bytes(&mut out, slot);
        text::push_bytes(&mut out, ";");
        out.extend_from_slice(b64.as_slice());
        text::push_bytes(&mut out, "\x1b\\");
        text::push_bytes(&mut out, "\x1b_SyncTERM:A;Load;S=");
        text::push_decimal_bytes(&mut out, slot);
        text::push_bytes(&mut out, ";g");
        text::push_decimal_bytes(&mut out, slot);
        text::push_bytes(&mut out, "\x1b\\");
        text::push_bytes(&mut out, "\x1b_SyncTERM:A;Queue;C=");
        text::push_decimal_bytes(&mut out, CHANNEL as u64);
        text::push_bytes(&mut out, ";S=");
        text::push_decimal_bytes(&mut out, slot);
        text::push_bytes(&mut out, "\x1b\\");
        self.accum.clear();
        self.slot = (self.slot + 1) % SLOTS;
        self.last_rate = rate;
        self.emitted_ms = self.emitted_ms + played_ms;
        out
    }

    /// Handle the terminal's `CSI = 7 ; <ch> ; 0 n` drain notification: the FIFO
    /// emptied, so the playback timeline is stale. Re-anchor to "queued == 0 now"
    /// and re-arm the one-shot notification.
    pub fn notify_drain(&mut self, now_ms: u64) -> (out: Vec<u8>)
        requires
            is_valid(old(self)@),
            now_ms <= CLOCK_LIMIT,
        ensures
            final(self)@ == reanchored(old(self)@, now_ms as int),
            is_valid(final(self)@),
            out@ == arm_bytes(),
            out@ == drain_bytes(),
    {
        self.play_start_ms = now_ms;
        self.emitted_ms = 0;
        self.lead_ms = 0;
        let mut out: Vec<u8> = Vec::new();
        push_channel(&mut out, "\x1b_SyncTERM:A;Update;C=");
        out
    }

    /// Hard resync: flush the terminal's FIFO, re-anchor the timeline and re-arm the
    /// notification, dropping the latency that piled up there.
    pub fn resync(&mut self, now_ms: u64) -> (out: Vec<u8>)
        requires
            is_valid(old(self)@),
            now_ms <= CLOCK_LIMIT,
        ensures
            final(self)@ == reanchored(old(self)@, now_ms as int),
            is_valid(final(self)@),
            out@ == flush_bytes() + arm_bytes(),
            out@ == resync_bytes(),
    {
        let mut out = self.stop();
        let arm = self.notify_drain(now_ms);
        out.extend_from_slice(arm.as_slice());
        out
    }

    /// On exit, flush the channel FIFO so no queued audio plays after the door
    /// returns to the menu (the latency "tail").
    pub fn stop(&self) -> (out: Vec<u8>)
        ensures
            out@ == flush_bytes(),
            out@ == stop_bytes(),
    {
        let mut out: Vec<u8> = Vec::new();
        push_channel(&mut out, "\x1b_SyncTERM:A;Flush;C=");
        out
    }

    /// Current stream health for diagnostics. `now_ms` matches `tick`.
    pub fn stats(&self, now_ms: u64) -> (r: ApcStats)
        requires
            is_valid(self@),
            self.produced_samples <= 0x3f_ffff_ffff_ffff,
        ensures
            r.lead_ms == self.lead_ms,
            r.produced_ms == self.produced_samples * 1000 / (self.out_rate as int),
            r.wall_ms == max(less(now_ms as int, self.start_ms as int), 1),
            r.last_rate == self.last_rate,
            r.drops == self.drops,
            r.rate == self.out_rate,
            r@ == report(self@, now_ms as int),
    {
        ApcStats {
            lead_ms: self.lead_ms,
            produced_ms: self.produced_samples * 1000 / self.out_rate as u64,
            wall_ms: larger(now_ms.saturating_sub(self.start_ms), 1),
            last_rate: self.last_rate,
            drops: self.drops,
            rate: self.out_rate,
        }
    }
}

// ---------------------------------------------------------------------------
// Laws
// ---------------------------------------------------------------------------

/// The output rate divides the source rate by a whole number, and a rate that
/// divides it is taken as it is.
pub proof fn law_rate_snaps_to_a_divisor(min_chunk_ms: int, rate_hint: int)
    ensures
        1 <= fresh(min_chunk_ms, rate_hint).decim <= 8,
        fresh(min_chunk_ms, rate_hint).out_rate == 44100int / fresh(min_chunk_ms, rate_hint).decim,
        forall|d: int|
            1 <= d <= 8 && rate_hint == #[trigger] (44100int / d) ==> fresh(
                min_chunk_ms,
                rate_hint,
            ).out_rate == rate_hint,
{
    let hint = if rate_hint < 5512 {
        5512
    } else if rate_hint > 44100 {
        44100
    } else {
        rate_hint
    };
    assert(1 <= 44100int / hint <= 8) by (nonlinear_arith)
        requires
            5512 <= hint <= 44100,
    ;
    assert forall|d: int| 1 <= d <= 8 && rate_hint == #[trigger] (44100int / d) implies fresh(
        min_chunk_ms,
        rate_hint,
    ).out_rate == rate_hint by {
        assert(d == 1 || d == 2 || d == 3 || d == 4 || d == 5 || d == 6 || d == 7 || d == 8);
        assert(44100int / 22050 == 2 && 44100int / 14700 == 3 && 44100int / 11025 == 4 && 44100int
            / 8820 == 5 && 44100int / 7350 == 6 && 44100int / 6300 == 7 && 44100int / 5512 == 8);
    }
}

/// Audio is never queued further ahead than the cushion: a clip brings the timeline
/// no further than the schedule, and exactly to it where there was a surplus.
pub proof fn law_latency_is_bounded(s: Stream, now: int, r: Reconciled)
    requires
        asked(s, now) matches Some(need) && fits(s, need.need_ms as int, r),
        is_valid(s),
        0 <= now <= CLOCK_LIMIT,
    ensures
        ({
            let after = emitted_at(s, now, r);
            &&& after.emitted <= schedule(primed_at(s, now), now)
            &&& r !is All ==> after.emitted == schedule(primed_at(s, now), now)
        }),
{
    let p = primed_at(s, now);
    let need = needed(p, now);
    let ms = s.accum.len() as int * 1000;
    if r is All {
        assert(ms / s.out_rate <= need) by (nonlinear_arith)
            requires
                ms <= need * s.out_rate,
                s.out_rate >= 1,
        ;
    }
}

/// Whatever the drift, a clip is declared at its true rate or at most 2 % faster,
/// and at its true rate unless there is a surplus. The clip's header holds that
/// rate, and it is the one that diagnostics report.
pub proof fn law_speed_up_is_bounded(s: Stream, now: int, r: Reconciled)
    requires
        asked(s, now) matches Some(need) && fits(s, need.need_ms as int, r),
        is_valid(s),
    ensures
        s.out_rate <= rate_of(s, r) <= (102 * s.out_rate + 50) / 100,
        asked(s, now) matches Some(need) ==> !surplus(s, need.need_ms as int) ==> rate_of(s, r)
            == s.out_rate,
        emitted_bytes(s, now, r) == arming(s) + clip_bytes(s.slot, sent(s, r), rate_of(s, r)),
        emitted_at(s, now, r).last_rate == rate_of(s, r),
{
}

/// Whatever the reconciliation, nothing is held back: a clip takes all the audio at
/// hand, and only a surplus is dropped, the oldest part of it.
pub proof fn law_surplus_is_dropped_oldest_first(s: Stream, r: Reconciled, need_ms: int)
    requires
        r matches Reconciled::Skip { keep, rate } ==> keep <= s.accum.len(),
    ensures
        shipped(s, r, need_ms).accum == Seq::<i16>::empty(),
        r !is Skip ==> sent(s, r) == s.accum && shipped(s, r, need_ms).drops == s.drops,
        r matches Reconciled::Skip { keep, rate } ==> sent(s, r).len() == keep && s.accum
            == s.accum.take(s.accum.len() - keep) + sent(s, r),
{
    if let Reconciled::Skip { keep, rate } = r {
    }
}

/// A small drift loses nothing: all of it is sent, and where it is a surplus at a
/// rate that makes it play in the time that is asked for, to within 1 Hz.
pub proof fn law_small_drift_loses_nothing(s: Stream, need_ms: int, r: Reconciled)
    requires
        fits(s, need_ms, r),
        10_000 * (s.accum.len() * 1000) <= 10_199 * (need_ms * s.out_rate),
    ensures
        sent(s, r) == s.accum,
        shipped(s, r, need_ms).drops == s.drops,
        surplus(s, need_ms) ==> -need_ms <= rate_of(s, r) * need_ms - s.accum.len() * 1000
            <= need_ms,
{
}

/// A big surplus is cut, and counted, to what plays in the time that is asked for at
/// the fastest rate: never to less than what the schedule asks for.
pub proof fn law_big_surplus_is_cut_to_the_schedule(s: Stream, need_ms: int, r: Reconciled)
    requires
        fits(s, need_ms, r),
        need_ms >= 0,
        s.out_rate >= 0,
        10_000 * (s.accum.len() * 1000) > 10_201 * (need_ms * s.out_rate),
    ensures
        shipped(s, r, need_ms).drops == s.drops + 1,
        102 * s.out_rate - 50 <= 100 * rate_of(s, r) <= 102 * s.out_rate + 50,
        sent(s, r) == s.accum.skip(s.accum.len() - sent(s, r).len()),
        need_ms * s.out_rate < sent(s, r).len() * 1000 + 1000,
        10_000 * (sent(s, r).len() * 1000) <= 10_201 * (need_ms * s.out_rate),
{
    assert(0 <= need_ms * s.out_rate) by (nonlinear_arith)
        requires
            need_ms >= 0,
            s.out_rate >= 0,
    ;
}

/// After an underrun the timeline starts at "nothing queued now": the next tick
/// asks for a cushion, whatever was sent before.
pub proof fn law_drain_reanchors(s: Stream, now: int)
    requires
        is_valid(s),
        s.primed,
        0 <= now,
        s.last_now <= now,
    ensures
        reanchored(s, now).emitted == 0,
        less(now, reanchored(s, now).play_start) == 0,
        needed(reanchored(s, now), now) == max(s.min_send, cushion(s, now)),
{
}

/// The slot that is `n` clips on.
pub open spec fn slot_on(slot: u8, n: nat) -> u8
    decreases n,
{
    if n == 0 {
        slot
    } else {
        slot_after(slot_on(slot, (n - 1) as nat))
    }
}

/// Slots are used in turn: a slot comes again after all the others, and not before.
pub proof fn law_slots_rotate(slot: u8, n: nat)
    requires
        slot < SLOTS,
    ensures
        slot_on(slot, n) == (slot as int + n) % 8,
        0 < n < 8 ==> slot_on(slot, n) != slot,
        n == 8 ==> slot_on(slot, n) == slot,
    decreases n,
{
    if n > 0 {
        law_slots_rotate(slot, (n - 1) as nat);
    }
}

/// A new stream: nothing at hand, nothing sent, its clock not started. The output rate is
/// the slowest of the whole fractions of 44100 that isn't under the rate asked for, from
/// an eighth up; a clip is worth sending from 5 ms on.
pub proof fn law_new_stream(min_chunk_ms: int, rate_hint: int)
    ensures
        ({
            let s = fresh(min_chunk_ms, rate_hint);
            &&& rate_hint <= 5512 ==> s.out_rate == 5512 && s.decim == 8
            &&& rate_hint >= 44100 ==> s.out_rate == 44100 && s.decim == 1
            &&& 5512 <= rate_hint <= 44100 ==> s.out_rate >= rate_hint && 44100 < (s.decim + 1)
                * rate_hint
            &&& min_chunk_ms >= 5 ==> s.min_send == min_chunk_ms
            &&& min_chunk_ms <= 5 ==> s.min_send == 5
            &&& s.accum.len() == 0 && s.slot == 0 && !s.primed && s.drops == 0
            &&& s.emitted == 0 && s.produced == 0 && s.jitter == 0 && s.lead == 0
            &&& s.last_rate == s.out_rate
        }),
{
    assert(44100int / 5512 == 8 && 44100int / 8 == 5512 && 44100int / 1 == 44100);
    if rate_hint <= 5512 {
        assert(decimation(rate_hint) == 8);
    }
    if rate_hint >= 44100 {
        assert(decimation(rate_hint) == 1);
    }
    if 5512 <= rate_hint <= 44100 {
        let d = 44100int / rate_hint;
        assert(d * rate_hint <= 44100 < (d + 1) * rate_hint) by (nonlinear_arith)
            requires
                d == 44100int / rate_hint,
                rate_hint >= 5512,
        ;
        assert(1 <= d <= 8) by (nonlinear_arith)
            requires
                d * rate_hint <= 44100 < (d + 1) * rate_hint,
                5512 <= rate_hint <= 44100,
        ;
        assert(44100int / d >= rate_hint) by (nonlinear_arith)
            requires
                d * rate_hint <= 44100,
                d >= 1,
        ;
    }
}

/// The first tick starts the clock, with nothing sent and nothing ahead, and arms the
/// report of an underrun; a later one leaves the clock as it is.
pub proof fn law_first_tick_starts_the_clock(s: Stream, now: int)
    requires
        0 <= now,
    ensures
        ticked(s, now).primed,
        ticked(s, now).last_now == now,
        !s.primed ==> ticked(s, now).play_start == now && ticked(s, now).start == now && ticked(
            s,
            now,
        ).emitted == 0 && ticked(s, now).lead == 0 && arming(s) == arm_bytes(),
        s.primed ==> ticked(s, now).play_start == s.play_start && ticked(s, now).start == s.start
            && ticked(s, now).emitted == s.emitted && arming(s) == Seq::<u8>::empty(),
        ticked(s, now).accum == s.accum && ticked(s, now).slot == s.slot && ticked(s, now).drops
            == s.drops && ticked(s, now).produced == s.produced && ticked(s, now).out_rate
            == s.out_rate && ticked(s, now).min_send == s.min_send,
{
}

/// The cushion follows the link: it is never less than the latest gap between ticks, and
/// forgets a longer one by a sixteenth a tick.
pub proof fn law_cushion_follows_the_link(s: Stream, now: int)
    requires
        s.primed,
        0 <= s.jitter,
        0 <= s.last_now <= now,
    ensures
        ({
            let gap = now - s.last_now;
            let j = ticked(s, now).jitter;
            &&& gap <= j
            &&& gap >= s.jitter ==> j == gap
            &&& j == gap || 16 * j <= 15 * s.jitter
            &&& 15 * s.jitter < 16 * j + 16
        }),
{
}

/// **What a tick asks for**: the time since the start and a cushion (the longest recent
/// gap, or the smallest clip), less what was sent. Nothing is sent where that is covered,
/// where nothing is at hand, or where what is at hand is both too little and too short a
/// clip.
pub proof fn law_tick_asks_for_the_shortfall(s: Stream, now: int)
    requires
        is_valid(s),
        s.primed,
        s.play_start <= now,
        s.last_now <= now <= 0x800_0000_0000,
    ensures
        ({
            let j = ticked(s, now).jitter;
            let wanted = now - s.play_start + (if j > s.min_send {
                j
            } else {
                s.min_send
            }) - s.emitted;
            let at_hand = s.accum.len() as int * 1000 / s.out_rate;
            &&& asked(s, now) is None <==> wanted <= 0 || s.accum.len() == 0 || (at_hand < wanted
                && at_hand < s.min_send)
            &&& asked(s, now) matches Some(n) ==> n.need_ms == wanted && n.avail == s.accum.len()
            &&& ticked(s, now).lead == (if s.emitted <= now - s.play_start {
                0
            } else {
                (s.emitted - (now - s.play_start)) % 0x1_0000_0000
            })
        }),
{
}

/// What a clip adds to the timeline: all that is at hand, at its true rate, adds the time
/// it plays; a surplus adds just what was asked for. The next clip takes the next slot.
pub proof fn law_clip_is_charged(s: Stream, now: int, r: Reconciled)
    requires
        asked(s, now) is Some,
        s.slot < 8,
        s.primed,
    ensures
        ({
            let after = emitted_at(s, now, r);
            &&& r is All ==> after.emitted == s.emitted + s.accum.len() as int * 1000 / s.out_rate
            &&& r !is All ==> (asked(s, now) matches Some(n) ==> after.emitted == s.emitted
                + n.need_ms)
            &&& after.accum.len() == 0
            &&& after.slot == (if s.slot == 7 {
                0
            } else {
                s.slot + 1
            })
            &&& after.produced == s.produced && after.play_start == s.play_start
            &&& after.jitter == ticked(s, now).jitter && after.lead == ticked(s, now).lead
        }),
{
}

/// A tick that sends no clip sends nothing, but for the first, which arms the report of
/// an underrun.
pub proof fn law_idle_tick_is_silent(s: Stream, now: int, r: Reconciled)
    requires
        asked(s, now) is None,
    ensures
        s.primed ==> emitted_bytes(s, now, r) == Seq::<u8>::empty(),
        !s.primed ==> emitted_bytes(s, now, r) == arm_bytes(),
        emitted_at(s, now, r) == ticked(s, now),
{
}

/// The commands of a stream, which plays on channel 2: arm the report of an underrun, drop
/// what is queued, and (in a slot and a cached file of the same number) store a clip, load
/// it and queue it.
pub proof fn law_commands_read_as(slot: u8, samples: Seq<i16>, rate: int)
    requires
        slot < 8,
    ensures
        arm_bytes() == text::bytes_of("\x1b_SyncTERM:A;Update;C=2\x1b\\"@),
        flush_bytes() == text::bytes_of("\x1b_SyncTERM:A;Flush;C=2\x1b\\"@),
        ({
            let n = seq![(48 + slot) as u8];
            clip_bytes(slot, samples, rate) == text::bytes_of("\x1b_SyncTERM:C;S;g"@) + n
                + text::bytes_of(";"@) + wire::base64(wire::wav(samples, rate)) + text::bytes_of(
                "\x1b\\\x1b_SyncTERM:A;Load;S="@,
            ) + n + text::bytes_of(";g"@) + n + text::bytes_of(
                "\x1b\\\x1b_SyncTERM:A;Queue;C=2;S="@,
            ) + n + text::bytes_of("\x1b\\"@)
        }),
{
    reveal_strlit("\x1b_SyncTERM:A;Update;C=");
    reveal_strlit("\x1b_SyncTERM:A;Update;C=2\x1b\\");
    reveal_strlit("\x1b_SyncTERM:A;Flush;C=");
    reveal_strlit("\x1b_SyncTERM:A;Flush;C=2\x1b\\");
    reveal_strlit("\x1b\\");
    reveal_strlit("\x1b_SyncTERM:A;Load;S=");
    reveal_strlit("\x1b\\\x1b_SyncTERM:A;Load;S=");
    reveal_strlit("\x1b_SyncTERM:A;Queue;C=");
    reveal_strlit(";S=");
    reveal_strlit("\x1b\\\x1b_SyncTERM:A;Queue;C=2;S=");
    assert(text::decimal(2) =~= seq!['2']);
    assert(text::decimal(slot as nat) =~= seq![text::digit(slot as nat)]);
    let n = seq![(48 + slot) as u8];
    assert(text::bytes_of(text::decimal(slot as nat)) =~= n);
    assert(arm_bytes() =~= text::bytes_of("\x1b_SyncTERM:A;Update;C=2\x1b\\"@));
    assert(flush_bytes() =~= text::bytes_of("\x1b_SyncTERM:A;Flush;C=2\x1b\\"@));
    let load = text::bytes_of("\x1b\\\x1b_SyncTERM:A;Load;S="@);
    let queue = text::bytes_of("\x1b\\\x1b_SyncTERM:A;Queue;C=2;S="@);
    let end = text::bytes_of("\x1b\\"@);
    assert(load =~= end + text::bytes_of("\x1b_SyncTERM:A;Load;S="@));
    assert(queue =~= end + text::bytes_of("\x1b_SyncTERM:A;Queue;C="@) + text::bytes_of(
        text::decimal(CHANNEL as nat),
    ) + text::bytes_of(";S="@));
    lemma_clip_parts(
        text::bytes_of("\x1b_SyncTERM:C;S;g"@) + n + text::bytes_of(";"@) + wire::base64(
            wire::wav(samples, rate),
        ),
        end,
        text::bytes_of("\x1b_SyncTERM:A;Load;S="@),
        n,
        text::bytes_of(";g"@),
        text::bytes_of("\x1b_SyncTERM:A;Queue;C="@),
        text::bytes_of(text::decimal(CHANNEL as nat)),
        text::bytes_of(";S="@),
    );
}

proof fn lemma_clip_parts(
    head: Seq<u8>,
    end: Seq<u8>,
    load: Seq<u8>,
    n: Seq<u8>,
    file: Seq<u8>,
    queue: Seq<u8>,
    channel: Seq<u8>,
    at: Seq<u8>,
)
    ensures
        head + end + load + n + file + n + end + queue + channel + at + n + end == head + (end
            + load) + n + file + n + (end + queue + channel + at) + n + end,
{
    assert(head + end + load + n + file + n + end + queue + channel + at + n + end =~= head + (end
        + load) + n + file + n + (end + queue + channel + at) + n + end);
}

/// What an underrun, a resync and the end send: the report is armed again, after what is
/// queued is dropped where a resync asks for that; at the end it is dropped for good.
pub proof fn law_resync_drops_what_is_queued(s: Stream, now: int)
    ensures
        drain_bytes() == arm_bytes(),
        resync_bytes() == flush_bytes() + arm_bytes(),
        stop_bytes() == flush_bytes(),
        reanchored(s, now).play_start == now && reanchored(s, now).emitted == 0 && reanchored(
            s,
            now,
        ).lead == 0,
        reanchored(s, now).accum == s.accum && reanchored(s, now).slot == s.slot && reanchored(
            s,
            now,
        ).jitter == s.jitter && reanchored(s, now).primed == s.primed && reanchored(s, now).drops
            == s.drops && reanchored(s, now).start == s.start && reanchored(s, now).produced
            == s.produced && reanchored(s, now).last_rate == s.last_rate && reanchored(
            s,
            now,
        ).last_now == s.last_now,
{
}

/// What the diagnostics say: the audio produced, in ms, the time since the first tick (1 ms
/// at least), and the figures of the latest clip as they are.
pub proof fn law_diagnostics(s: Stream, now: int)
    requires
        s.out_rate > 0,
        s.produced >= 0,
    ensures
        report(s, now).produced_ms * s.out_rate <= s.produced * 1000 < (report(s, now).produced_ms
            + 1) * s.out_rate,
        s.start < now ==> report(s, now).wall_ms == now - s.start,
        now <= s.start ==> report(s, now).wall_ms == 1,
        report(s, now).lead_ms == s.lead && report(s, now).last_rate == s.last_rate && report(
            s,
            now,
        ).drops == s.drops && report(s, now).rate == s.out_rate,
{
    let p = s.produced * 1000;
    assert(p / s.out_rate * s.out_rate <= p < (p / s.out_rate + 1) * s.out_rate)
        by (nonlinear_arith)
        requires
            s.out_rate > 0,
            p >= 0,
    ;
}

/// Samples wait behind those at hand, and are counted.
pub proof fn law_samples_wait_in_order(s: Stream, a: Seq<i16>, b: Seq<i16>)
    ensures
        pushed(s, a).accum.take(s.accum.len() as int) == s.accum,
        pushed(s, a).accum.skip(s.accum.len() as int) == a,
        pushed(s, a).produced == s.produced + a.len(),
        pushed(pushed(s, a), b) == pushed(s, a + b),
{
    assert(pushed(s, a).accum.take(s.accum.len() as int) =~= s.accum);
    assert(pushed(s, a).accum.skip(s.accum.len() as int) =~= a);
    assert(s.accum + a + b =~= s.accum + (a + b));
}

/// Whatever is at hand and whatever is asked for, there is a plan: a surplus is one by the
/// samples that play longer than what is asked for, and up to 2 % of it can be compressed
/// away, the rest skipped.
pub proof fn law_there_is_a_plan(s: Stream, need_ms: int) -> (r: Reconciled)
    requires
        is_valid(s),
        0 < need_ms,
        s.drops < 0xffff_ffff,
    ensures
        fits(s, need_ms, r),
        s.accum.len() * 1000 > need_ms * s.out_rate <==> r !is All,
        r is Skip <==> 100 * (s.accum.len() * 1000) > 102 * (need_ms * s.out_rate),
{
    let at_hand = s.accum.len() as int * 1000;
    let wanted = need_ms * s.out_rate;
    let out = s.out_rate;
    assert(wanted > 0) by (nonlinear_arith)
        requires
            wanted == need_ms * out,
            need_ms > 0,
            out > 0,
    ;
    if at_hand <= wanted {
        Reconciled::All
    } else if 100 * at_hand <= 102 * wanted {
        let rate = at_hand / need_ms;
        assert(rate * need_ms <= at_hand < rate * need_ms + need_ms) by (nonlinear_arith)
            requires
                rate == at_hand / need_ms,
                need_ms > 0,
        ;
        assert(rate >= out) by (nonlinear_arith)
            requires
                at_hand < rate * need_ms + need_ms,
                at_hand > need_ms * out,
                need_ms > 0,
        ;
        assert(100 * rate <= 102 * out) by (nonlinear_arith)
            requires
                rate * need_ms <= at_hand,
                100 * at_hand <= 102 * (need_ms * out),
                need_ms > 0,
        ;
        Reconciled::Compress { rate: rate as u32 }
    } else {
        let rate = (102 * out + 50) / 100;
        let keep = 102 * wanted / 100_000;
        Reconciled::Skip { keep: keep as usize, rate: rate as u32 }
    }
}

} // verus!

//! Streamed audio, ANSI music and the local ring buffer.

use terminal_gameboy::ansi_music::{lead_notenum, midi_to_notenum, AnsiMusic, Voice, TICK_NS};
use terminal_gameboy::apc_audio::{ApcAudio, ApcStats, Need, Reconciled, SRC_RATE};
use terminal_gameboy::audio::AudioBuffer;
use terminal_gameboy::wire::{base64_encode, encode_wav_mono};

const MAX_CORRECTION_PCT: f32 = 2.0;

fn count(haystack: &[u8], needle: &[u8]) -> usize {
    haystack.windows(needle.len()).filter(|w| *w == needle).count()
}

/// Decimate interleaved stereo and hand the samples on.
fn push_stereo(a: &mut ApcAudio, samples: &[f32]) {
    let (mut sum, mut n) = (0.0f32, 0u32);
    let mut out = Vec::new();
    for frame in samples.chunks(2) {
        sum += 0.5 * (frame[0] + frame[1]);
        n += 1;
        if n >= a.decim {
            out.push(((sum / a.decim as f32).clamp(-1.0, 1.0) * 32767.0) as i16);
            sum = 0.0;
            n = 0;
        }
    }
    a.push_samples(&out);
}

/// Push `ms` of stereo @ SRC_RATE.
fn push_ms(a: &mut ApcAudio, ms: u32) {
    let frames = (SRC_RATE * ms / 1000) as usize;
    push_stereo(a, &vec![0.2f32; frames * 2]);
}

fn reconcile(a: &ApcAudio, need: Need) -> Reconciled {
    if !a.has_surplus(need.need_ms) {
        return Reconciled::All;
    }
    let need_samples = need.need_ms as f32 * a.out_rate as f32 / 1000.0;
    let max_ratio = 1.0 + MAX_CORRECTION_PCT / 100.0;
    let ratio = (need.avail as f32 / need_samples).max(1.0);
    if ratio <= max_ratio {
        Reconciled::Compress { rate: (a.out_rate as f32 * ratio).round() as u32 }
    } else {
        Reconciled::Skip {
            keep: ((need_samples * max_ratio) as usize).min(need.avail),
            rate: (a.out_rate as f32 * max_ratio).round() as u32,
        }
    }
}

fn emit_ready(a: &mut ApcAudio, out: &mut Vec<u8>, now_ms: u64) {
    let plan = match a.due(now_ms) {
        Some(need) => reconcile(a, need),
        None => Reconciled::All,
    };
    out.extend(a.emit_ready(now_ms, plan));
}

fn correction_pct(s: &ApcStats) -> f32 {
    (s.last_rate as f32 / s.rate as f32 - 1.0) * 100.0
}

#[test]
fn base64_matches_known_vectors() {
    assert_eq!(base64_encode(b""), b"");
    assert_eq!(base64_encode(b"f"), b"Zg==");
    assert_eq!(base64_encode(b"fo"), b"Zm8=");
    assert_eq!(base64_encode(b"foo"), b"Zm9v");
    assert_eq!(base64_encode(b"foobar"), b"Zm9vYmFy");
}

#[test]
fn wav_header_is_canonical() {
    let w = encode_wav_mono(&[0, 1, -1, 100], 22050);
    assert_eq!(&w[0..4], b"RIFF");
    assert_eq!(&w[8..12], b"WAVE");
    assert_eq!(&w[36..40], b"data");
    // Declared rate lands in the fmt chunk's sample-rate field (offset 24).
    assert_eq!(u32::from_le_bytes(w[24..28].try_into().unwrap()), 22050);
    assert_eq!(w.len(), 44 + 4 * 2);
}

#[test]
fn wav_fields_are_little_endian() {
    let w = encode_wav_mono(&[0x0102, -2], 11025);
    assert_eq!(u32::from_le_bytes(w[4..8].try_into().unwrap()), 36 + 4);
    assert_eq!(u32::from_le_bytes(w[28..32].try_into().unwrap()), 22050);
    assert_eq!(&w[44..], &[0x02, 0x01, 0xfe, 0xff]);
}

#[test]
fn rate_hint_snaps_to_integer_divisor() {
    assert_eq!(ApcAudio::new(40, 22050).out_rate, 22050); // 2:1
    assert_eq!(ApcAudio::new(40, 11025).out_rate, 11025); // 4:1
    assert_eq!(ApcAudio::new(40, 11025).decim, 4);
}

#[test]
fn rate_hint_is_bounded() {
    assert_eq!(ApcAudio::new(40, 0).out_rate, 5512);
    assert_eq!(ApcAudio::new(40, 0).decim, 8);
    assert_eq!(ApcAudio::new(40, 1_000_000).out_rate, 44100);
    assert_eq!(ApcAudio::new(40, 30000).out_rate, 44100);
    assert_eq!(ApcAudio::new(1, 22050).min_send, 5);
}

#[test]
fn emits_and_arms_drain_notify_on_first_tick() {
    let mut a = ApcAudio::new(40, 22050);
    push_ms(&mut a, 60);
    let mut out = Vec::new();
    emit_ready(&mut a, &mut out, 0);
    assert!(count(&out, b"A;Queue;C=2") >= 1, "queued a clip");
    assert_eq!(count(&out, b"A;Update;C=2"), 1, "armed the drain notify once");
}

#[test]
fn small_drift_speeds_up_without_dropping() {
    // Compression only acts once the cushion is full, so set up that steady
    // state directly: emitted sits right at the cushion edge (elapsed+target),
    // a small emit gap keeps target at min_send, and we then produce a clip
    // ~1.4% longer than the schedule's per-tick need.
    let mut a = ApcAudio::new(40, 22050);
    let mut out = Vec::new();
    emit_ready(&mut a, &mut out, 0); // prime
    a.last_now_ms = 980;
    a.jitter_ms = 20; // target = min_send(40).max(20) = 40
    a.emitted_ms = 1020; // = elapsed(1000) + target(40) - need(20)
    // need = 20ms = 441 samples @22050; push 448 (~1.6% over) so it compresses.
    push_stereo(&mut a, &vec![0.2f32; 896 * 2]);
    emit_ready(&mut a, &mut out, 1000);
    let s = a.stats(1000);
    assert_eq!(s.drops, 0, "no drops for sub-2% drift");
    let correction = correction_pct(&s);
    assert!(
        correction > 0.5 && correction <= MAX_CORRECTION_PCT + 0.01,
        "applied a small speed-up, got {}",
        correction
    );
}

#[test]
fn big_surplus_is_dropped_and_capped() {
    // A stall dumps 1s of audio at once with the clock barely advanced.
    let mut a = ApcAudio::new(40, 22050);
    let mut out = Vec::new();
    emit_ready(&mut a, &mut out, 0); // prime
    push_ms(&mut a, 1000);
    emit_ready(&mut a, &mut out, 60);
    let s = a.stats(60);
    assert_eq!(s.drops, 1, "dropped the un-absorbable surplus once");
    assert!(
        correction_pct(&s) <= MAX_CORRECTION_PCT + 0.01,
        "speed-up stayed within the cap"
    );
    // Lead is bounded to the measured cushion, not the 1s we produced.
    assert!(s.lead_ms < 200, "lead {} should be bounded", s.lead_ms);
}

#[test]
fn drain_notification_reanchors_and_rearms() {
    let mut a = ApcAudio::new(40, 22050);
    let out = a.notify_drain(1234);
    assert_eq!(a.play_start_ms, 1234, "re-anchored to drain time");
    assert_eq!(a.emitted_ms, 0, "queued-ahead reset to zero");
    assert_eq!(count(&out, b"A;Update;C=2"), 1, "re-armed the drain notify");
}

#[test]
fn stop_flushes_channel() {
    let a = ApcAudio::new(40, 22050);
    let out = a.stop();
    assert_eq!(count(&out, b"A;Flush;C=2"), 1, "flushed the channel on exit");
}

#[test]
fn resync_flushes_then_rearms() {
    let mut a = ApcAudio::new(40, 22050);
    let out = a.resync(500);
    assert_eq!(out, b"\x1b_SyncTERM:A;Flush;C=2\x1b\\\x1b_SyncTERM:A;Update;C=2\x1b\\");
    assert_eq!((a.play_start_ms, a.emitted_ms, a.lead_ms), (500, 0, 0));
}

#[test]
fn a_clip_is_stored_loaded_and_queued() {
    let mut a = ApcAudio::new(40, 22050);
    a.push_samples(&vec![0i16; 882]);
    assert_eq!(a.due(0), Some(Need { need_ms: 40, avail: 882 }));
    let out = a.emit_ready(0, Reconciled::All);
    let wav = base64_encode(&encode_wav_mono(&vec![0i16; 882], 22050));
    let mut expected = b"\x1b_SyncTERM:A;Update;C=2\x1b\\\x1b_SyncTERM:C;S;g0;".to_vec();
    expected.extend(wav);
    expected.extend(b"\x1b\\\x1b_SyncTERM:A;Load;S=0;g0\x1b\\\x1b_SyncTERM:A;Queue;C=2;S=0\x1b\\");
    assert_eq!(out, expected);
    assert_eq!(a.slot, 1);
    assert_eq!(a.emitted_ms, 40);
    assert!(a.accum.is_empty());
}

#[test]
fn slots_rotate_and_latency_follows_the_schedule() {
    let mut a = ApcAudio::new(40, 22050);
    let mut out = Vec::new();
    for tick in 0..20u64 {
        push_ms(&mut a, 100);
        let now = tick * 100;
        emit_ready(&mut a, &mut out, now);
        // Never further ahead than the cushion: the emit cadence or the least clip.
        assert!(a.emitted_ms <= now + 100, "{} at {}", a.emitted_ms, now);
    }
    assert_eq!(a.slot, 20 % 8);
    assert!(count(&out, b"A;Queue;C=2;S=7") >= 2);
}

#[test]
fn surplus_is_dropped_oldest_first() {
    let mut a = ApcAudio::new(40, 44100);
    let samples: Vec<i16> = (0..4410).collect();
    a.push_samples(&samples);
    // 1764 samples are asked for, and 2 % more are kept.
    let plan = Reconciled::Skip { keep: 1799, rate: 44982 };
    assert!(a.suits(40, plan));
    let out = a.emit_ready(0, plan);
    let wav = base64_encode(&encode_wav_mono(&samples[4410 - 1799..], 44982));
    assert_eq!(count(&out, &wav), 1);
    assert_eq!(a.drops, 1);
    assert_eq!(a.stats(0).last_rate, 44982);
}

#[test]
fn a_surplus_begins_with_one_sample_too_many() {
    let mut a = ApcAudio::new(40, 22050);
    a.push_samples(&vec![0i16; 882]);
    assert!(!a.has_surplus(40));
    assert!(a.has_surplus(39));
    a.push_samples(&[0]);
    assert!(a.has_surplus(40));
    assert!(!a.has_surplus(u64::MAX));
}

#[test]
fn only_a_fitting_plan_suits() {
    let mut a = ApcAudio::new(40, 44100);
    // 40 ms are 1764 samples.
    a.push_samples(&vec![0i16; 1764]);
    assert!(a.suits(40, Reconciled::All));
    assert!(!a.suits(40, Reconciled::Compress { rate: 44100 }));
    a.push_samples(&[0]);
    // One sample too many is sped up, by 25 Hz, and never cut.
    assert!(a.suits(40, Reconciled::Compress { rate: 44125 }));
    for rate in [44099, 44100, 44123, 44127, 44982] {
        assert!(!a.suits(40, Reconciled::Compress { rate }));
    }
    assert!(!a.suits(40, Reconciled::All));
    assert!(!a.suits(40, Reconciled::Skip { keep: 0, rate: 44982 }));
    assert!(!a.suits(40, Reconciled::Skip { keep: 1764, rate: 44982 }));
    // Twice as many are cut, to 2 % more than is asked for.
    a.push_samples(&vec![0i16; 1763]);
    assert!(a.suits(40, Reconciled::Skip { keep: 1799, rate: 44982 }));
    for (keep, rate) in [(0, 44982), (1764, 44982), (1797, 44982), (1800, 44982), (1799, 44100)] {
        assert!(!a.suits(40, Reconciled::Skip { keep, rate }), "{keep} at {rate}");
    }
    assert!(!a.suits(40, Reconciled::Compress { rate: 44982 }));
    a.drops = u32::MAX;
    assert!(!a.suits(40, Reconciled::Skip { keep: 1799, rate: 44982 }));
}

#[test]
fn reconciled_plans_suit() {
    for hint in [44100, 22050, 14700, 11025, 8820, 7350, 6300, 5512] {
        let mut a = ApcAudio::new(40, hint);
        let mut cut = (false, false);
        for need_ms in (1..400).chain([1000, 4321, 10_007]) {
            let wanted = need_ms as usize * a.out_rate as usize;
            // Around the schedule, around 2 % above it, and far above.
            for avail in [wanted / 1000, wanted * 102 / 100_000, wanted / 333] {
                for avail in avail.saturating_sub(1)..avail + 3 {
                    a.accum = vec![0; avail];
                    let plan = reconcile(&a, Need { need_ms, avail });
                    assert!(a.suits(need_ms, plan), "{plan:?}: {avail} for {need_ms} ms");
                    match plan {
                        Reconciled::Skip { .. } => cut.0 = true,
                        _ => cut.1 = true,
                    }
                }
            }
        }
        assert_eq!(cut, (true, true));
    }
}

#[test]
fn speed_up_is_at_most_two_percent() {
    for hint in [44100, 22050, 14700, 11025, 8820, 7350, 6300, 5512] {
        for extra in [0, 1, 2, 5, 20, 300] {
            let mut a = ApcAudio::new(40, hint);
            let (rate, mut out) = (a.out_rate, Vec::new());
            push_ms(&mut a, 40 + extra);
            emit_ready(&mut a, &mut out, 0);
            let declared = a.stats(0).last_rate;
            assert!(rate <= declared && 100 * declared <= 102 * rate + 50, "{declared} at {rate}");
            assert!(extra > 0 || declared == rate);
        }
    }
}

#[test]
fn a_sliver_waits_for_a_fuller_clip() {
    let mut a = ApcAudio::new(40, 22050);
    a.push_samples(&[1, 2, 3]);
    assert_eq!(a.due(0), None);
    let out = a.emit_ready(0, Reconciled::All);
    assert_eq!(out, b"\x1b_SyncTERM:A;Update;C=2\x1b\\");
    assert_eq!(a.accum.len(), 3);
    let s = a.stats(1000);
    assert_eq!((s.produced_ms, s.wall_ms, s.rate), (0, 1000, 22050));
}

/// The nearest MIDI semitone of a frequency.
fn midi_of(hz: f64) -> Option<i32> {
    if hz <= 0.0 {
        None
    } else {
        Some((69.0 + 12.0 * (hz / 440.0).log2()).round() as i32)
    }
}

fn freq_to_notenum(hz: f64) -> u8 {
    match midi_of(hz) {
        Some(midi) => midi_to_notenum(midi),
        None => lead_notenum(voice(15, None), silent()),
    }
}

fn voice(volume: u8, midi: Option<i32>) -> Voice {
    Voice { voiced: true, volume, midi }
}

fn silent() -> Voice {
    Voice { voiced: false, volume: 0, midi: None }
}

#[test]
fn maps_reference_pitches_to_cterm_indices() {
    assert_eq!(freq_to_notenum(440.0), 38); // A4
    assert_eq!(freq_to_notenum(65.41), 3); // C2 (bottom of table)
    assert_eq!(freq_to_notenum(261.63), 29); // C4 (middle C)
    assert_eq!(freq_to_notenum(880.0), 51); // A5
}

#[test]
fn never_lands_on_a_zero_separator() {
    // Sweep the audible range; every result must be a real-note index, not one
    // of cterm's 0-Hz separator slots (15, 28, 41, 54, 67) or out of range.
    let seps = [0u8, 1, 2, 15, 28, 41, 54, 67];
    let mut hz = 60.0;
    while hz < 2600.0 {
        let n = freq_to_notenum(hz);
        assert!((3..=71).contains(&n), "out of range at {hz}Hz -> {n}");
        assert!(!seps.contains(&n), "hit separator at {hz}Hz -> {n}");
        hz *= 1.01;
    }
}

#[test]
fn silence_is_rest() {
    assert_eq!(freq_to_notenum(0.0), 0);
    assert_eq!(freq_to_notenum(-5.0), 0);
}

#[test]
fn notes_clamp_to_the_table() {
    assert_eq!(midi_to_notenum(i32::MIN), 3);
    assert_eq!(midi_to_notenum(i32::MAX), 71);
    assert_eq!(midi_to_notenum(69 + 12), midi_to_notenum(69) + 13);
}

#[test]
fn the_louder_voice_leads() {
    assert_eq!(lead_notenum(voice(5, Some(69)), voice(6, Some(60))), 29);
    assert_eq!(lead_notenum(voice(5, Some(69)), voice(5, Some(60))), 38);
    assert_eq!(lead_notenum(silent(), voice(1, Some(36))), 3);
    assert_eq!(lead_notenum(voice(1, Some(36)), silent()), 3);
    assert_eq!(lead_notenum(silent(), silent()), 0);
}

#[test]
fn tones_are_restruck_each_tick_and_silence_announced_once() {
    let mut m = AnsiMusic::new(true);
    let a4 = voice(9, Some(69));
    assert_eq!(m.update(a4, silent(), 0), "\x1b[|MBMLT200L8N38\x0e");
    assert_eq!(m.update(a4, silent(), TICK_NS - 1), "");
    assert_eq!(m.update(a4, silent(), TICK_NS), "\x1b[|MBMLT200L8N38\x0e");
    assert_eq!(m.update(silent(), silent(), 2 * TICK_NS), "\x1b[|MBN0\x0e");
    assert_eq!(m.update(silent(), silent(), 3 * TICK_NS), "");
    assert_eq!(m.last, Some(0));
    assert_eq!(AnsiMusic::new(false).update(a4, a4, 0), "");
}

#[test]
fn ring_is_a_queue() {
    let mut b = AudioBuffer::new(5); // rounded up to 8
    assert_eq!(b.available(), 0);
    assert_eq!(b.pop_sample(), None);
    b.push_samples(&[1, 2, 3, 4, 5, 6]);
    assert_eq!(b.available(), 6);
    assert_eq!((b.pop_sample(), b.pop_sample()), (Some(1), Some(2)));
    b.push_samples(&[7, 8, 9, 10]);
    let rest: Vec<u32> = std::iter::from_fn(|| b.pop_sample()).collect();
    assert_eq!(rest, [3, 4, 5, 6, 7, 8, 9, 10]);
    assert_eq!(b.last_sample(), 10);
    b.set_last_sample(77);
    assert_eq!(b.last_sample(), 77);
}

#[test]
fn ring_capacity_is_the_next_power_of_two() {
    for (asked, held) in [(0, 1), (1, 1), (2, 2), (3, 4), (4096, 4096), (4097, 8192)] {
        let mut b = AudioBuffer::new(asked);
        let samples: Vec<u32> = (1..=held).collect();
        b.push_samples(&samples);
        // One more overwrites the first.
        b.push_samples(&[99_999]);
        assert_eq!(b.pop_sample(), Some(99_999), "{asked}");
        assert_eq!(b.available(), held as usize);
    }
}

#[test]
fn ring_overruns_overwrite_the_oldest() {
    let mut b = AudioBuffer::new(4);
    b.push_samples(&[1, 2, 3, 4, 5]);
    assert_eq!(b.available(), 5);
    assert_eq!(b.pop_sample(), Some(5));
    assert_eq!(b.pop_sample(), Some(2));
}

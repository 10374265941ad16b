//! Translate the Game Boy's lead pulse channel into ANSI music.
//!
//! Real audio is impossible on a headless BBS host, so instead of playing PCM the
//! door emits ANSI-music (MML) sequences that SyncTERM renders with its beeper. It is
//! a monophonic, lossy approximation (one channel, no percussion), but it carries
//! the melody.
//!
//! Wire format (consumed by cterm.c): `ESC [ |` introduces SyncTERM ANSI music,
//! then an MML body, terminated by a raw `0x0E`. `MB` (background) is always emitted
//! because cterm defaults to foreground music, which would block the terminal until
//! each note finished. Notes are addressed by number with `N<n>`, indexing cterm's
//! `note_frequency[]` table (index 3 = C2, 38 = A4/440Hz, octave blocks of 13).
//!
//! cterm queues notes in a FIFO drained at each note's duration. Notes go out at a
//! fixed ~150ms cadence and are sized to ~150ms (T200 L8, legato) so the queue drains
//! as fast as it is filled, without backlog drift, while a held tone is re-struck
//! each tick to sustain it.

use crate::text;
use vstd::prelude::*;

verus! {

/// How often the APU is sampled and a note (re)emitted, ns. Notes are sized to match
/// this so the cterm note FIFO neither starves nor backs up.
pub const TICK_NS: u64 = 150_000_000;

/// Tempo + default length chosen so 240000/TEMPO/NOTELEN == ~150ms (one tick).
pub const TEMPO: u32 = 200;

pub const NOTELEN: u32 = 8;

/// A pulse channel, as the music hears it.
#[derive(Clone, Copy, PartialEq, Eq, Debug, Structural)]
pub struct Voice {
    pub voiced: bool,
    pub volume: u8,
    /// The nearest MIDI semitone of its tone; none for a non-positive frequency.
    pub midi: Option<i32>,
}

#[derive(Clone, Copy, PartialEq, Eq, Debug, Structural)]
pub struct AnsiMusic {
    pub enabled: bool,
    /// Last note emitted: Some(0) == rest, Some(n) == tone index, None == nothing yet.
    pub last: Option<u8>,
    /// When the APU was last sampled.
    pub last_tick: Option<u64>,
}

/// The cterm note number of a MIDI semitone, clamped to the table's playable range
/// C2..D#7: octave blocks of 13 (12 notes + a 0 separator), the first at 3 = C2.
pub open spec fn notenum(midi: int) -> int {
    let m = if midi < 36 {
        36
    } else if midi > 99 {
        99
    } else {
        midi
    };
    3 + (m / 12 - 3) * 13 + m % 12
}

/// The cterm `note_frequency[]` index, in 3..=71, of a MIDI semitone.
pub fn midi_to_notenum(midi: i32) -> (r: u8)
    ensures
        r == notenum(midi as int),
        3 <= r <= 71,
{
    let m: i32 = if midi < 36 {
        36
    } else if midi > 99 {
        99
    } else {
        midi
    };
    let octave: i32 = m / 12 - 1;  // scientific octave: C2 is in 2
    let semitone: i32 = m % 12;  // 0=C .. 11=B
    (3 + (octave - 2) * 13 + semitone) as u8
}

/// The lead voice: the louder of the two voiced pulse channels.
pub open spec fn lead(p1: Voice, p2: Voice) -> Option<Voice> {
    if p1.voiced && p2.voiced {
        if p2.volume > p1.volume {
            Some(p2)
        } else {
            Some(p1)
        }
    } else if p1.voiced {
        Some(p1)
    } else if p2.voiced {
        Some(p2)
    } else {
        None
    }
}

/// The note of the lead voice; 0 is a rest.
pub open spec fn lead_note(p1: Voice, p2: Voice) -> int {
    match lead(p1, p2) {
        Some(v) => match v.midi {
            Some(m) => notenum(m as int),
            None => 0,
        },
        None => 0,
    }
}

/// Choose the lead voice (the louder of the two voiced pulse channels) and return
/// its cterm note number, or 0 (rest) when neither is sounding.
pub fn lead_notenum(p1: Voice, p2: Voice) -> (r: u8)
    ensures
        r == lead_note(p1, p2),
{
    let chosen = if p1.voiced && p2.voiced {
        if p2.volume > p1.volume {
            Some(p2)
        } else {
            Some(p1)
        }
    } else if p1.voiced {
        Some(p1)
    } else if p2.voiced {
        Some(p2)
    } else {
        None
    };
    match chosen {
        Some(v) => match v.midi {
            Some(m) => midi_to_notenum(m),
            None => 0,
        },
        None => 0,
    }
}

/// A tick has come.
pub open spec fn ticks(m: AnsiMusic, now: u64) -> bool {
    m.enabled && match m.last_tick {
        Some(t) => now >= t && now - t >= TICK_NS,
        None => true,
    }
}

pub open spec fn rest_text() -> Seq<char> {
    "\x1b[|MBN0\x0e"@
}

pub open spec fn tone_text(note: int) -> Seq<char> {
    "\x1b[|MBMLT"@ + text::decimal(TEMPO as nat) + "L"@ + text::decimal(NOTELEN as nat) + "N"@
        + text::decimal(note as nat) + "\x0e"@
}

/// What a tick sends for a note: a tone is (re)struck so a held note sustains; a
/// rest goes out once, on the transition into silence.
pub open spec fn struck(m: AnsiMusic, note: int) -> Seq<char> {
    if note != 0 {
        tone_text(note)
    } else if m.last != Some(0u8) {
        rest_text()
    } else {
        Seq::empty()
    }
}

/// What an update sends.
pub open spec fn played(m: AnsiMusic, p1: Voice, p2: Voice, now: u64) -> Seq<char> {
    if ticks(m, now) {
        struck(m, lead_note(p1, p2))
    } else {
        Seq::empty()
    }
}

/// The music after an update.
pub open spec fn updated(m: AnsiMusic, p1: Voice, p2: Voice, now: u64) -> AnsiMusic {
    if ticks(m, now) {
        AnsiMusic { last: Some(lead_note(p1, p2) as u8), last_tick: Some(now), ..m }
    } else {
        m
    }
}

impl AnsiMusic {
    pub fn new(enabled: bool) -> (r: Self)
        ensures
            r == (AnsiMusic { enabled, last: None, last_tick: None }),
    {
        AnsiMusic { enabled, last: None, last_tick: None }
    }

    /// Sample the APU and play. Cheap to call every frame; internally rate limited to
    /// one tick. No-op when disabled. Returns the text to send.
    pub fn update(&mut self, p1: Voice, p2: Voice, now: u64) -> (s: String)
        ensures
            *final(self) == updated(*old(self), p1, p2, now),
            s@ == played(*old(self), p1, p2, now),
    {
        let due = match self.last_tick {
            Some(t) => now >= t && now - t >= TICK_NS,
            None => true,
        };
        let mut s = String::new();
        assert(s@ =~= Seq::empty());
        if !self.enabled || !due {
            return s;
        }
        self.last_tick = Some(now);
        let note: u8 = lead_notenum(p1, p2);
        if note == 0 {
            // Silence: emit a single rest on the transition into silence; nothing
            // to sustain while quiet.
            if self.last != Some(0u8) {
                s = "\x1b[|MBN0\x0e".to_owned();
            }
        } else {
            // Tone: (re)strike every tick so a held note sustains.
            s = "\x1b[|MBMLT".to_owned();
            text::push_decimal(&mut s, TEMPO as u64);
            s.append("L");
            text::push_decimal(&mut s, NOTELEN as u64);
            s.append("N");
            text::push_decimal(&mut s, note as u64);
            s.append("\x0e");
        }
        self.last = Some(note);
        s
    }
}

// ---------------------------------------------------------------------------
// Laws
// ---------------------------------------------------------------------------

/// No semitone lands on one of cterm's 0-Hz separator slots (every thirteenth, from
/// 2 on) or out of the table.
pub proof fn law_notes_are_never_separators(midi: int)
    ensures
        3 <= notenum(midi) <= 71,
        notenum(midi) % 13 != 2,
{
}

/// An octave up is one block of the table up, a semitone up is the next note; A4 is
/// 38 and C2 is 3.
pub proof fn law_notes_follow_the_scale(midi: int)
    ensures
        36 <= midi <= 87 ==> notenum(midi + 12) == notenum(midi) + 13,
        36 <= midi <= 98 ==> notenum(midi) < notenum(midi + 1) <= notenum(midi) + 2,
        notenum(69) == 38,
        notenum(36) == 3,
{
}

/// A note lasts one tick, so the terminal's queue drains as fast as it is filled:
/// two notes are never sent less than a tick apart.
pub proof fn law_queue_never_backs_up(
    m: AnsiMusic,
    p1: Voice,
    p2: Voice,
    t: u64,
    q1: Voice,
    q2: Voice,
    now: u64,
)
    requires
        played(m, p1, p2, t).len() > 0,
        now >= t,
    ensures
        played(updated(m, p1, p2, t), q1, q2, now).len() > 0 ==> now - t >= TICK_NS,
        240000u32 / TEMPO / NOTELEN * 1_000_000 == TICK_NS,
{
}

/// Silence is announced once: as long as nothing sounds, nothing more is sent.
pub proof fn law_silence_is_one_rest(m: AnsiMusic, p1: Voice, p2: Voice, t: u64, now: u64)
    requires
        ticks(m, t),
        !p1.voiced,
        !p2.voiced,
    ensures
        played(m, p1, p2, t) == (if m.last == Some(0u8) {
            Seq::<char>::empty()
        } else {
            rest_text()
        }),
        played(updated(m, p1, p2, t), p1, p2, now) == Seq::<char>::empty(),
{
}

/// The louder of two sounding voices leads, the first when they are as loud; one that
/// sounds alone leads; a silent one never does.
pub proof fn law_louder_voice_leads(p1: Voice, p2: Voice)
    ensures
        lead(p1, p2) == Some(p2) || !(p2.voiced && (!p1.voiced || p2.volume > p1.volume)),
        lead(p1, p2) == Some(p1) || !(p1.voiced && (!p2.voiced || p1.volume >= p2.volume)),
        lead(p1, p2) is None <==> !p1.voiced && !p2.voiced,
        lead(p1, p2) matches Some(v) ==> v.voiced,
        lead(p1, p2) is None ==> lead_note(p1, p2) == 0,
        lead(p1, p2) matches Some(v) ==> (match v.midi {
            Some(m) => lead_note(p1, p2) == notenum(m as int),
            None => lead_note(p1, p2) == 0,
        }),
{
}

/// Notes below C2 are C2 and notes above D#7 are that.
pub proof fn law_notes_are_held_to_the_table(midi: int)
    ensures
        midi <= 36 ==> notenum(midi) == 3,
        midi >= 99 ==> notenum(midi) == notenum(99) && notenum(midi) == 71,
{
}

/// What is sent: nothing where music is off, nor before 150 ms have passed; at a tick a
/// tone is struck anew in the background, legato, at tempo 200 in eighth notes, and the
/// first silent tick is a rest.
pub proof fn law_what_is_sent(m: AnsiMusic, p1: Voice, p2: Voice, now: u64)
    ensures
        !m.enabled ==> played(m, p1, p2, now) == Seq::<char>::empty() && updated(m, p1, p2, now)
            == m,
        m.last_tick matches Some(t) ==> now < t + 150_000_000 ==> played(m, p1, p2, now) == Seq::<
            char,
        >::empty() && updated(m, p1, p2, now) == m,
        m.enabled && (match m.last_tick {
            Some(t) => now >= t + 150_000_000,
            None => true,
        }) ==> {
            let note = lead_note(p1, p2);
            &&& updated(m, p1, p2, now).last_tick == Some(now)
            &&& updated(m, p1, p2, now).last == Some(note as u8)
            &&& note != 0 ==> played(m, p1, p2, now) == "\x1b[|MBMLT200L8N"@ + text::decimal(
                note as nat,
            ) + seq!['\x0e']
            &&& note == 0 && m.last != Some(0u8) ==> played(m, p1, p2, now)
                == "\x1b[|MBN0"@ + seq!['\x0e']
        },
{
    reveal_strlit("\x1b[|MBMLT200L8N");
    reveal_strlit("\x1b[|MBMLT");
    reveal_strlit("\x1b[|MBN0");
    reveal_strlit("\x1b[|MBN0\x0e");
    reveal_strlit("L");
    reveal_strlit("N");
    reveal_strlit("\x0e");
    reveal_with_fuel(text::decimal, 4);
    assert(text::decimal(200) == seq!['2', '0', '0']);
    assert(text::decimal(8) == seq!['8']);
    let note = lead_note(p1, p2);
    assert(tone_text(note) =~= "\x1b[|MBMLT200L8N"@ + text::decimal(note as nat) + seq!['\x0e']);
    assert(rest_text() =~= "\x1b[|MBN0"@ + seq!['\x0e']);
}

} // verus!

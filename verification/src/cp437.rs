//! UTF-8 -> CP437 output adapter.
//!
//! Synchronet ships external-program (door) output to the user as CP437: bytes
//! pass through unchanged to CP437 clients and are mapped up to Unicode for
//! UTF-8 clients. A door that emits raw UTF-8 therefore garbles on every client.
//!
//! The in-game renderer already emits the single CP437 half-block byte (0xDF),
//! but the menu draws Unicode text. Its output goes through `Cp437Writer`, which
//! converts UTF-8 text to CP437 on the fly. Cursor and color commands are pure
//! ASCII and pass through untouched; only Unicode glyphs are remapped.

use vstd::prelude::*;
use vstd::utf8;

verus! {

/// The closest CP437 byte of a character. Covers exactly the glyphs the menu uses;
/// anything else falls back to '?'. ASCII (with ESC and the rest of the C0 controls
/// used by ANSI sequences) maps to itself.
pub open spec fn cp437_of(c: char) -> u8 {
    match c {
        // Double-line box drawing
        '═' => 0xCD,
        '║' => 0xBA,
        '╔' => 0xC9,
        '╗' => 0xBB,
        '╚' => 0xC8,
        '╝' => 0xBC,
        // Single-line / blocks
        '─' => 0xC4,
        '█' => 0xDB,
        '▀' => 0xDF,
        '▄' => 0xDC,
        // Arrows / triangles
        '▲' => 0x1E,
        '▼' => 0x1F,
        '◄' => 0x11,
        '►' => 0x10,
        '▶' => 0x10,
        '↑' => 0x18,
        '↓' => 0x19,
        // Punctuation with no exact CP437 equivalent
        '…' => 0x2E,
        '✓' => 0xFB,
        '—' => 0x2D,
        '≈' => 0xF7,
        _ => if '\u{80}' > c {
            c as u8
        } else {
            0x3F
        },
    }
}

/// What a stretch of bytes starts with.
#[derive(Clone, Copy, PartialEq, Eq, Debug, Structural)]
pub enum Head {
    /// A well-formed character: its code point and length.
    Char(u32, usize),
    /// This many bytes that no character starts with.
    Bad(usize),
    /// The start of a character whose end is not there yet.
    Partial,
}

pub open spec fn is_tail(b: u8) -> bool {
    0x80 <= b <= 0xBF
}

/// May `b` follow `a` as the second byte of a three-byte character? (Neither an
/// overlong form nor a surrogate.)
pub open spec fn second_of_three(a: u8, b: u8) -> bool {
    is_tail(b) && (a == 0xE0 ==> b >= 0xA0) && (a == 0xED ==> b <= 0x9F)
}

/// May `b` follow `a` as the second byte of a four-byte character? (Neither an
/// overlong form nor past the last code point.)
pub open spec fn second_of_four(a: u8, b: u8) -> bool {
    is_tail(b) && (a == 0xF0 ==> b >= 0x90) && (a == 0xF4 ==> b <= 0x8F)
}

/// What `s` (not empty) starts with.
pub open spec fn head(s: Seq<u8>) -> Head {
    let a = s[0];
    if a < 0x80 {
        Head::Char(a as u32, 1)
    } else if 0xC2 <= a <= 0xDF {
        if s.len() < 2 {
            Head::Partial
        } else if !is_tail(s[1]) {
            Head::Bad(1)
        } else {
            Head::Char(((a - 0xC0) * 64 + (s[1] - 0x80)) as u32, 2)
        }
    } else if 0xE0 <= a <= 0xEF {
        if s.len() < 2 {
            Head::Partial
        } else if !second_of_three(a, s[1]) {
            Head::Bad(1)
        } else if s.len() < 3 {
            Head::Partial
        } else if !is_tail(s[2]) {
            Head::Bad(2)
        } else {
            Head::Char(((a - 0xE0) * 4096 + (s[1] - 0x80) * 64 + (s[2] - 0x80)) as u32, 3)
        }
    } else if 0xF0 <= a <= 0xF4 {
        if s.len() < 2 {
            Head::Partial
        } else if !second_of_four(a, s[1]) {
            Head::Bad(1)
        } else if s.len() < 3 {
            Head::Partial
        } else if !is_tail(s[2]) {
            Head::Bad(2)
        } else if s.len() < 4 {
            Head::Partial
        } else if !is_tail(s[3]) {
            Head::Bad(3)
        } else {
            Head::Char(
                ((a - 0xF0) * 262144 + (s[1] - 0x80) * 4096 + (s[2] - 0x80) * 64 + (s[3]
                    - 0x80)) as u32,
                4,
            )
        }
    } else {
        Head::Bad(1)
    }
}

/// The CP437 form of `s`, and what is left of it: an incomplete trailing
/// character. Every maximal ill-formed stretch becomes one `?`.
pub open spec fn converted(s: Seq<u8>) -> (Seq<u8>, Seq<u8>)
    decreases s.len(),
{
    if s.len() == 0 {
        (Seq::empty(), Seq::empty())
    } else {
        match head(s) {
            Head::Char(c, n) => {
                let (out, rest) = converted(s.skip(n as int));
                (seq![cp437_of(c as char)] + out, rest)
            },
            Head::Bad(n) => {
                let (out, rest) = converted(s.skip(n as int));
                (seq![0x3Fu8] + out, rest)
            },
            Head::Partial => (Seq::empty(), s),
        }
    }
}

/// Map a Unicode code point to its closest CP437 byte.
fn unicode_to_cp437(c: u32) -> (r: u8)
    requires
        utf8::is_scalar(c),
    ensures
        r == cp437_of(c as char),
{
    match c {
        // ═ ║ ╔ ╗ ╚ ╝
        0x2550 => 0xCD,
        0x2551 => 0xBA,
        0x2554 => 0xC9,
        0x2557 => 0xBB,
        0x255A => 0xC8,
        0x255D => 0xBC,
        // ─ █ ▀ ▄
        0x2500 => 0xC4,
        0x2588 => 0xDB,
        0x2580 => 0xDF,
        0x2584 => 0xDC,
        // ▲ ▼ ◄ ► ▶ ↑ ↓
        0x25B2 => 0x1E,
        0x25BC => 0x1F,
        0x25C4 => 0x11,
        0x25BA => 0x10,
        0x25B6 => 0x10,
        0x2191 => 0x18,
        0x2193 => 0x19,
        // … ✓ — ≈
        0x2026 => 0x2E,
        0x2713 => 0xFB,
        0x2014 => 0x2D,
        0x2248 => 0xF7,
        _ => if c < 0x80 {
            c as u8
        } else {
            0x3F
        },
    }
}

fn tail(b: u8) -> (r: bool)
    ensures
        r == is_tail(b),
{
    0x80 <= b && b <= 0xBF
}

/// What the bytes start with.
fn first(s: &[u8]) -> (r: Head)
    requires
        s@.len() > 0,
    ensures
        r == head(s@),
        match r {
            Head::Char(c, n) => utf8::is_scalar(c) && 1 <= n <= s@.len(),
            Head::Bad(n) => 1 <= n <= s@.len(),
            Head::Partial => s@.len() <= 3,
        },
{
    let a: u8 = s[0];
    let len: usize = s.len();
    if a < 0x80 {
        Head::Char(a as u32, 1)
    } else if 0xC2 <= a && a <= 0xDF {
        if len < 2 {
            Head::Partial
        } else if !tail(s[1]) {
            Head::Bad(1)
        } else {
            Head::Char((a as u32 - 0xC0) * 64 + (s[1] as u32 - 0x80), 2)
        }
    } else if 0xE0 <= a && a <= 0xEF {
        if len < 2 {
            Head::Partial
        } else if !tail(s[1]) || (a == 0xE0 && s[1] < 0xA0) || (a == 0xED && s[1] > 0x9F) {
            Head::Bad(1)
        } else if len < 3 {
            Head::Partial
        } else if !tail(s[2]) {
            Head::Bad(2)
        } else {
            Head::Char(
                (a as u32 - 0xE0) * 4096 + (s[1] as u32 - 0x80) * 64 + (s[2] as u32 - 0x80),
                3,
            )
        }
    } else if 0xF0 <= a && a <= 0xF4 {
        if len < 2 {
            Head::Partial
        } else if !tail(s[1]) || (a == 0xF0 && s[1] < 0x90) || (a == 0xF4 && s[1] > 0x8F) {
            Head::Bad(1)
        } else if len < 3 {
            Head::Partial
        } else if !tail(s[2]) {
            Head::Bad(2)
        } else if len < 4 {
            Head::Partial
        } else if !tail(s[3]) {
            Head::Bad(3)
        } else {
            Head::Char(
                (a as u32 - 0xF0) * 262144 + (s[1] as u32 - 0x80) * 4096 + (s[2] as u32 - 0x80) * 64
                    + (s[3] as u32 - 0x80),
                4,
            )
        }
    } else {
        Head::Bad(1)
    }
}

/// Converts UTF-8 input to CP437 bytes, write by write.
pub struct Cp437Writer {
    /// Holds an incomplete trailing UTF-8 sequence between writes.
    pending: Vec<u8>,
}

impl View for Cp437Writer {
    type V = Seq<u8>;

    closed spec fn view(&self) -> Seq<u8> {
        self.pending@
    }
}

impl Cp437Writer {
    pub fn new() -> (r: Self)
        ensures
            r@ == Seq::<u8>::empty(),
    {
        Cp437Writer { pending: Vec::new() }
    }

    /// Take a chunk of UTF-8 and give the CP437 bytes to forward. All of the chunk
    /// is consumed: an incomplete trailing character waits for the next write.
    pub fn write(&mut self, buf: &[u8]) -> (out: Vec<u8>)
        ensures
            (out@, final(self)@) == converted(old(self)@ + buf@),
            final(self)@.len() <= 3,
    {
        self.pending.extend_from_slice(buf);
        let ghost all = self.pending@;
        assert(all == old(self)@ + buf@);
        let mut out: Vec<u8> = Vec::new();
        let mut consumed: usize = 0;
        let mut stuck = false;
        assert(all.skip(0) == all);
        while consumed < self.pending.len() && !stuck
            invariant
                self.pending@ == all,
                consumed <= all.len(),
                converted(all).0 == out@ + converted(all.skip(consumed as int)).0,
                converted(all).1 == converted(all.skip(consumed as int)).1,
                stuck ==> consumed < all.len() && head(all.skip(consumed as int)) == Head::Partial
                    && all.len() - consumed <= 3,
            decreases
                    all.len() - consumed,
                    if stuck {
                        0int
                    } else {
                        1int
                    },
        {
            let ghost here = all.skip(consumed as int);
            let rest = &self.pending[consumed..self.pending.len()];
            assert(rest@ == here);
            let ghost before = out@;
            match first(rest) {
                Head::Char(c, n) => {
                    let b: u8 = unicode_to_cp437(c);
                    out.push(b);
                    consumed = consumed + n;
                    assert(here.skip(n as int) == all.skip(consumed as int));
                    assert(before + (seq![b] + converted(here.skip(n as int)).0) == before.push(b)
                        + converted(here.skip(n as int)).0);
                },
                Head::Bad(n) => {
                    // Genuinely invalid bytes: emit a placeholder and skip.
                    out.push(0x3F);
                    consumed = consumed + n;
                    assert(here.skip(n as int) == all.skip(consumed as int));
                    assert(before + (seq![0x3Fu8] + converted(here.skip(n as int)).0)
                        == before.push(0x3Fu8) + converted(here.skip(n as int)).0);
                },
                Head::Partial => {
                    // Incomplete trailing sequence; keep for next write.
                    stuck = true;
                },
            }
        }
        assert(out@ + Seq::<u8>::empty() == out@);
        assert(!stuck ==> all.skip(consumed as int) == Seq::<u8>::empty());
        let kept = self.pending.split_off(consumed);
        assert(kept@ == all.skip(consumed as int));
        self.pending = kept;
        out
    }
}

// ---------------------------------------------------------------------------
// Laws
// ---------------------------------------------------------------------------

proof fn lemma_head_is_settled(s: Seq<u8>, more: Seq<u8>)
    requires
        s.len() > 0,
        head(s) != Head::Partial,
    ensures
        head(s + more) == head(s),
        match head(s) {
            Head::Char(c, n) => 1 <= n <= s.len(),
            Head::Bad(n) => 1 <= n <= s.len(),
            Head::Partial => false,
        },
{
}

/// How the text is cut into writes makes no difference: two writes give the
/// output of one write of both chunks, and leave the same bytes pending.
pub proof fn law_writes_concatenate(a: Seq<u8>, b: Seq<u8>)
    ensures
        converted(a + b).0 == converted(a).0 + converted(converted(a).1 + b).0,
        converted(a + b).1 == converted(converted(a).1 + b).1,
    decreases a.len(),
{
    if a.len() == 0 {
        assert(a + b == b);
        assert(Seq::<u8>::empty() + b == b);
        assert(Seq::<u8>::empty() + converted(b).0 == converted(b).0);
    } else if head(a) == Head::Partial {
        assert(Seq::<u8>::empty() + converted(a + b).0 == converted(a + b).0);
    } else {
        lemma_head_is_settled(a, b);
        let n: int = match head(a) {
            Head::Char(c, n) => n as int,
            Head::Bad(n) => n as int,
            Head::Partial => 0,
        };
        law_writes_concatenate(a.skip(n), b);
        assert((a + b).skip(n) == a.skip(n) + b);
        let x = converted(a.skip(n)).0;
        let y = converted(converted(a.skip(n)).1 + b).0;
        let g: u8 = match head(a) {
            Head::Char(c, n) => cp437_of(c as char),
            _ => 0x3F,
        };
        assert(seq![g] + (x + y) == (seq![g] + x) + y);
    }
}

proof fn lemma_two_bytes(a: u8, b: u8)
    requires
        0xC0 <= a <= 0xDF,
        0x80 <= b <= 0xBF,
    ensures
        utf8::codepoint_width_2(a, b) == (a - 0xC0) * 64 + (b - 0x80),
{
    assert(((((a & 0x1F) as u32) << 6) | ((b & 0x3f) as u32)) == (a as u32 - 0xC0u32) * 64u32 + (
    b as u32 - 0x80u32)) by (bit_vector)
        requires
            0xC0 <= a <= 0xDF,
            0x80 <= b <= 0xBF,
    ;
}

proof fn lemma_three_bytes(a: u8, b: u8, c: u8)
    requires
        0xE0 <= a <= 0xEF,
        0x80 <= b <= 0xBF,
        0x80 <= c <= 0xBF,
    ensures
        utf8::codepoint_width_3(a, b, c) == (a - 0xE0) * 4096 + (b - 0x80) * 64 + (c - 0x80),
{
    assert(((((a & 0x0F) as u32) << 12) | (((b & 0x3f) as u32) << 6) | ((c & 0x3f) as u32)) == (
    a as u32 - 0xE0u32) * 4096u32 + (b as u32 - 0x80u32) * 64u32 + (c as u32 - 0x80u32))
        by (bit_vector)
        requires
            0xE0 <= a <= 0xEF,
            0x80 <= b <= 0xBF,
            0x80 <= c <= 0xBF,
    ;
}

proof fn lemma_four_bytes(a: u8, b: u8, c: u8, d: u8)
    requires
        0xF0 <= a <= 0xF7,
        0x80 <= b <= 0xBF,
        0x80 <= c <= 0xBF,
        0x80 <= d <= 0xBF,
    ensures
        utf8::codepoint_width_4(a, b, c, d) == (a - 0xF0) * 262144 + (b - 0x80) * 4096 + (c - 0x80)
            * 64 + (d - 0x80),
{
    assert(((((a & 0x07) as u32) << 18) | (((b & 0x3f) as u32) << 12) | (((c & 0x3f) as u32) << 6) | (
    (d & 0x3f) as u32)) == (a as u32 - 0xF0u32) * 262144u32 + (b as u32 - 0x80u32) * 4096u32 + (
    c as u32 - 0x80u32) * 64u32 + (d as u32 - 0x80u32)) by (bit_vector)
        requires
            0xF0 <= a <= 0xF7,
            0x80 <= b <= 0xBF,
            0x80 <= c <= 0xBF,
            0x80 <= d <= 0xBF,
    ;
}

proof fn lemma_one_byte(a: u8)
    requires
        a < 0x80,
    ensures
        utf8::codepoint_width_1(a) == a,
{
    assert((a & 0x7F) as u32 == a as u32) by (bit_vector)
        requires
            a < 0x80,
    ;
}

/// A well-formed first character is recognized, with its code point and length.
pub proof fn law_characters_are_recognized(s: Seq<u8>)
    requires
        s.len() > 0,
        utf8::valid_first_scalar(s),
    ensures
        head(s) == Head::Char(
            utf8::decode_first_scalar(s),
            utf8::length_of_first_scalar(s) as usize,
        ),
{
    let a = s[0];
    if a < 0x80 {
        lemma_one_byte(a);
    } else if a <= 0xDF {
        lemma_two_bytes(a, s[1]);
    } else if a <= 0xEF {
        lemma_three_bytes(a, s[1], s[2]);
    } else {
        lemma_four_bytes(a, s[1], s[2], s[3]);
    }
}

/// Well-formed UTF-8 is converted character by character, and nothing is left.
pub proof fn law_text_converts_character_by_character(s: Seq<u8>)
    requires
        utf8::valid_utf8(s),
    ensures
        converted(s).0 == utf8::decode_utf8(s).map_values(|c: char| cp437_of(c)),
        converted(s).1 == Seq::<u8>::empty(),
    decreases s.len(),
{
    let f = |c: char| cp437_of(c);
    if s.len() == 0 {
        assert(utf8::decode_utf8(s).map_values(f) == Seq::<u8>::empty());
    } else {
        law_characters_are_recognized(s);
        let rest = utf8::pop_first_scalar(s);
        let n = utf8::length_of_first_scalar(s);
        assert(s.skip(n) == rest);
        law_text_converts_character_by_character(rest);
        let c = utf8::decode_first_scalar(s) as char;
        assert(utf8::decode_utf8(s) == seq![c] + utf8::decode_utf8(rest));
        assert(utf8::decode_utf8(s).map_values(f) == seq![cp437_of(c)] + utf8::decode_utf8(
            rest,
        ).map_values(f));
    }
}

/// Writing a text gives one CP437 byte per character: no multi-byte sequence
/// leaks.
pub proof fn law_one_byte_per_character(text: Seq<char>)
    ensures
        converted(utf8::encode_utf8(text)).0 == text.map_values(|c: char| cp437_of(c)),
        converted(utf8::encode_utf8(text)).1 == Seq::<u8>::empty(),
{
    utf8::encode_utf8_valid_utf8(text);
    utf8::encode_utf8_decode_utf8(text);
    law_text_converts_character_by_character(utf8::encode_utf8(text));
}

/// ASCII, escape sequences and all, passes through unchanged.
pub proof fn law_ascii_passes_through(s: Seq<u8>)
    requires
        forall|i: int| 0 <= i < s.len() ==> #[trigger] s[i] < 0x80,
    ensures
        converted(s) == (s, Seq::<u8>::empty()),
    decreases s.len(),
{
    if s.len() > 0 {
        assert(s[0] < 0x80);
        let rest = s.skip(1);
        assert forall|i: int| 0 <= i < rest.len() implies #[trigger] rest[i] < 0x80 by {
            assert(rest[i] == s[i + 1]);
        }
        law_ascii_passes_through(rest);
        assert(seq![s[0]] + rest == s);
    }
}

/// The glyphs of the menus and their places in code page 437.
pub proof fn law_glyphs(i: int)
    requires
        0 <= i < 21,
    ensures
        cp437_of("═║╔╗╚╝─█▀▄▲▼◄►▶↑↓…✓—≈"@[i]) == seq![
            205u8,
            186,
            201,
            187,
            200,
            188,
            196,
            219,
            223,
            220,
            30,
            31,
            17,
            16,
            16,
            24,
            25,
            46,
            251,
            45,
            247,
        ][i],
{
    reveal_strlit("═║╔╗╚╝─█▀▄▲▼◄►▶↑↓…✓—≈");
}

/// ASCII is itself, and a character that is neither ASCII nor one of those glyphs is a
/// question mark, as is a byte that no character begins with.
pub proof fn law_other_characters(c: char, s: Seq<u8>)
    requires
        s.len() > 0,
    ensures
        c < '\u{80}' ==> cp437_of(c) == c as u8,
        c >= '\u{80}' && (forall|k: int|
            0 <= k < 21 ==> c != #[trigger] "═║╔╗╚╝─█▀▄▲▼◄►▶↑↓…✓—≈"@[k]) ==> cp437_of(c) == 63,
        0x80 <= s[0] < 0xC2 || s[0] > 0xF4 ==> converted(s).0 == seq![63u8] + converted(
            s.skip(1),
        ).0,
{
    reveal_strlit("═║╔╗╚╝─█▀▄▲▼◄►▶↑↓…✓—≈");
    if c >= '\u{80}' && (forall|k: int|
        0 <= k < 21 ==> c != #[trigger] "═║╔╗╚╝─█▀▄▲▼◄►▶↑↓…✓—≈"@[k]) {
        let g = "═║╔╗╚╝─█▀▄▲▼◄►▶↑↓…✓—≈"@;
        assert(c != g[0] && c != g[1] && c != g[2] && c != g[3] && c != g[4] && c != g[5] && c
            != g[6] && c != g[7] && c != g[8] && c != g[9] && c != g[10] && c != g[11] && c != g[12]
            && c != g[13] && c != g[14] && c != g[15] && c != g[16] && c != g[17] && c != g[18] && c
            != g[19] && c != g[20]);
    }
}

} // verus!

//! Bytes on the wire: base64 and WAV.

use crate::text;
use vstd::prelude::*;

verus! {

// ---------------------------------------------------------------------------
// Base64
// ---------------------------------------------------------------------------

/// The character of a 6-bit value, in the standard alphabet.
pub open spec fn symbol(v: int) -> u8 {
    if v < 26 {
        (65 + v) as u8
    } else if v < 52 {
        (71 + v) as u8
    } else if v < 62 {
        (v - 4) as u8
    } else if v == 62 {
        43
    } else {
        47
    }
}

/// The value of a character of the alphabet.
pub open spec fn symbol_value(c: u8) -> int {
    if 65 <= c <= 90 {
        c - 65
    } else if 97 <= c <= 122 {
        c - 71
    } else if 48 <= c <= 57 {
        c + 4
    } else if c == 43 {
        62
    } else {
        63
    }
}

/// Padding.
pub const PAD: u8 = 61;

/// Standard base64, with `=` padding.
pub open spec fn base64(data: Seq<u8>) -> Seq<u8>
    decreases data.len(),
{
    let (a, b, c) = (data[0] as int, data[1] as int, data[2] as int);
    if data.len() == 0 {
        Seq::empty()
    } else if data.len() == 1 {
        seq![symbol(a / 4), symbol(a % 4 * 16), PAD, PAD]
    } else if data.len() == 2 {
        seq![
            symbol(a / 4),
            symbol(a % 4 * 16 + b / 16),
            symbol(b % 16 * 4),
            PAD,
        ]
    } else {
        seq![
            symbol(a / 4),
            symbol(a % 4 * 16 + b / 16),
            symbol(b % 16 * 4 + c / 64),
            symbol(c % 64),
        ] + base64(data.skip(3))
    }
}

/// What a decoder makes of base64 text.
pub open spec fn unbase64(s: Seq<u8>) -> Seq<u8>
    decreases s.len(),
{
    if s.len() < 4 {
        Seq::empty()
    } else {
        let (a, b) = (symbol_value(s[0]), symbol_value(s[1]));
        let (c, d) = (symbol_value(s[2]), symbol_value(s[3]));
        let first = (a * 4 + b / 16) as u8;
        let second = (b % 16 * 16 + c / 4) as u8;
        let third = (c % 4 * 64 + d) as u8;
        (if s[2] == PAD {
            seq![first]
        } else if s[3] == PAD {
            seq![first, second]
        } else {
            seq![first, second, third]
        }) + unbase64(s.skip(4))
    }
}

fn base64_symbol(v: u8) -> (r: u8)
    requires
        v < 64,
    ensures
        r == symbol(v as int),
{
    if v < 26 {
        65 + v
    } else if v < 52 {
        71 + v
    } else if v < 62 {
        v - 4
    } else if v == 62 {
        43
    } else {
        47
    }
}

/// Standard base64 (with `=` padding): what the terminal's decoder expects.
pub fn base64_encode(data: &[u8]) -> (out: Vec<u8>)
    ensures
        out@ == base64(data@),
{
    let mut out: Vec<u8> = Vec::new();
    let mut i: usize = 0;
    assert(data@.skip(0) == data@);
    while i < data.len()
        invariant
            i <= data.len(),
            out@ + base64(data@.skip(i as int)) == base64(data@),
        decreases data.len() - i,
    {
        let ghost rest = data@.skip(i as int);
        let ghost before = out@;
        let left: usize = data.len() - i;
        let b0: u8 = data[i];
        let b1: u8 = if left > 1 {
            data[i + 1]
        } else {
            0
        };
        let b2: u8 = if left > 2 {
            data[i + 2]
        } else {
            0
        };
        out.push(base64_symbol(b0 / 4));
        out.push(base64_symbol(b0 % 4 * 16 + b1 / 16));
        out.push(
            if left > 1 {
                base64_symbol(b1 % 16 * 4 + b2 / 64)
            } else {
                PAD
            },
        );
        out.push(
            if left > 2 {
                base64_symbol(b2 % 64)
            } else {
                PAD
            },
        );
        if left > 3 {
            i += 3;
            assert(rest.skip(3) == data@.skip(i as int));
        } else {
            if left == 3 {
                assert(rest.skip(3) == Seq::<u8>::empty());
                assert(base64(rest.skip(3)) == Seq::<u8>::empty());
            }
            i = data.len();
            assert(data@.skip(i as int) == Seq::<u8>::empty());
            assert(base64(data@.skip(i as int)) == Seq::<u8>::empty());
        }
        assert(out@ + base64(data@.skip(i as int)) =~= before + base64(rest));
    }
    assert(base64(data@.skip(i as int)) == Seq::<u8>::empty());
    assert(out@ + Seq::<u8>::empty() == out@);
    out
}

proof fn lemma_symbol(v: int)
    requires
        0 <= v < 64,
    ensures
        symbol_value(symbol(v)) == v,
        symbol(v) != PAD,
{
}

/// A base64 decoder gets back what was encoded.
pub proof fn law_base64_decodes(data: Seq<u8>)
    ensures
        unbase64(base64(data)) == data,
    decreases data.len(),
{
    let s = base64(data);
    if data.len() > 0 {
        let a = data[0];
        let b = if data.len() > 1 {
            data[1]
        } else {
            0
        };
        let c = if data.len() > 2 {
            data[2]
        } else {
            0
        };
        lemma_symbol(a as int / 4);
        lemma_symbol(a as int % 4 * 16 + b as int / 16);
        lemma_symbol(b as int % 16 * 4 + c as int / 64);
        lemma_symbol(c as int % 64);
        if data.len() <= 3 {
            if data.len() == 3 {
                assert(data.skip(3) == Seq::<u8>::empty());
                assert(base64(data.skip(3)) == Seq::<u8>::empty());
            }
            assert(s.len() == 4);
            assert(s.skip(4) == Seq::<u8>::empty());
            assert(unbase64(s.skip(4)) == Seq::<u8>::empty());
            assert(unbase64(s) =~= data);
        } else {
            law_base64_decodes(data.skip(3));
            assert(s.skip(4) == base64(data.skip(3)));
            assert(seq![a, b, c] + data.skip(3) =~= data);
        }
    }
}

// ---------------------------------------------------------------------------
// WAV
// ---------------------------------------------------------------------------

/// A 16-bit number, low byte first.
pub open spec fn le16(n: int) -> Seq<u8> {
    seq![(n % 256) as u8, (n / 256 % 256) as u8]
}

/// A 32-bit number, low byte first.
pub open spec fn le32(n: int) -> Seq<u8> {
    seq![
        (n % 256) as u8,
        (n / 256 % 256) as u8,
        (n / 65536 % 256) as u8,
        (n / 16777216 % 256) as u8,
    ]
}

/// Samples, low byte first; a negative one in two's complement.
pub open spec fn pcm(samples: Seq<i16>) -> Seq<u8>
    decreases samples.len(),
{
    if samples.len() == 0 {
        Seq::empty()
    } else {
        pcm(samples.drop_last()) + le16(samples.last() as int % 65536)
    }
}

/// Minimal canonical PCM WAV (RIFF/WAVE, S16) for one mono buffer.
pub open spec fn wav(samples: Seq<i16>, rate: int) -> Seq<u8> {
    let data_len = samples.len() as int * 2;
    text::bytes_of("RIFF"@) + le32(36 + data_len) + text::bytes_of("WAVE"@) + text::bytes_of(
        "fmt "@,
    ) + le32(16) + le16(1) + le16(1) + le32(rate) + le32(rate * 2) + le16(2) + le16(16)
        + text::bytes_of("data"@) + le32(data_len) + pcm(samples)
}

fn push_le16(out: &mut Vec<u8>, n: u16)
    ensures
        final(out)@ == old(out)@ + le16(n as int),
{
    out.push((n % 256) as u8);
    out.push((n / 256) as u8);
    assert(out@ == old(out)@ + le16(n as int));
}

fn push_le32(out: &mut Vec<u8>, n: u32)
    ensures
        final(out)@ == old(out)@ + le32(n as int),
{
    out.push((n % 256) as u8);
    out.push((n / 256 % 256) as u8);
    out.push((n / 65536 % 256) as u8);
    out.push((n / 16777216) as u8);
    assert(out@ == old(out)@ + le32(n as int));
}

/// Encode one mono buffer as a WAV file. The declared rate is the resample knob: a
/// higher one makes the player play the clip back faster.
pub fn encode_wav_mono(samples: &[i16], rate: u32) -> (v: Vec<u8>)
    requires
        36 + 2 * samples@.len() <= u32::MAX,
        2 * rate <= u32::MAX,
    ensures
        v@ == wav(samples@, rate as int),
{
    let data_len: u32 = samples.len() as u32 * 2;
    let mut v: Vec<u8> = Vec::new();
    text::push_bytes(&mut v, "RIFF");
    assert(v@ =~= text::bytes_of("RIFF"@));
    push_le32(&mut v, 36 + data_len);
    text::push_bytes(&mut v, "WAVE");
    text::push_bytes(&mut v, "fmt ");
    push_le32(&mut v, 16);
    push_le16(&mut v, 1);  // PCM
    push_le16(&mut v, 1);  // mono
    push_le32(&mut v, rate);
    push_le32(&mut v, rate * 2);
    push_le16(&mut v, 2);  // block align
    push_le16(&mut v, 16);  // bits
    text::push_bytes(&mut v, "data");
    push_le32(&mut v, data_len);
    let ghost header = v@;
    let mut i: usize = 0;
    assert(header + pcm(samples@.take(0)) =~= header);
    while i < samples.len()
        invariant
            i <= samples.len(),
            v@ == header + pcm(samples@.take(i as int)),
        decreases samples.len() - i,
    {
        let s: i32 = samples[i] as i32;
        let word: u16 = (if s < 0 {
            s + 65536
        } else {
            s
        }) as u16;
        push_le16(&mut v, word);
        assert(samples@.take(i + 1).drop_last() == samples@.take(i as int));
        assert(word as int == samples@[i as int] as int % 65536);
        i += 1;
        assert(v@ =~= header + pcm(samples@.take(i as int)));
    }
    assert(samples@.take(i as int) == samples@);
    v
}

proof fn lemma_pcm_len(samples: Seq<i16>)
    ensures
        pcm(samples).len() == 2 * samples.len(),
    decreases samples.len(),
{
    if samples.len() > 0 {
        lemma_pcm_len(samples.drop_last());
    }
}

/// The header is canonical: 44 bytes before the samples, the tags and the declared
/// rate at their offsets.
pub proof fn law_wav_is_canonical(samples: Seq<i16>, rate: int)
    ensures
        wav(samples, rate).len() == 44 + 2 * samples.len(),
        wav(samples, rate).take(4) == text::bytes_of("RIFF"@),
        wav(samples, rate).subrange(8, 12) == text::bytes_of("WAVE"@),
        wav(samples, rate).subrange(24, 28) == le32(rate),
        wav(samples, rate).subrange(36, 40) == text::bytes_of("data"@),
        wav(samples, rate).skip(44) == pcm(samples),
{
    reveal_strlit("RIFF");
    reveal_strlit("WAVE");
    reveal_strlit("fmt ");
    reveal_strlit("data");
    lemma_pcm_len(samples);
    let w = wav(samples, rate);
    assert(w.take(4) =~= text::bytes_of("RIFF"@));
    assert(w.subrange(8, 12) =~= text::bytes_of("WAVE"@));
    assert(w.subrange(24, 28) =~= le32(rate));
    assert(w.subrange(36, 40) =~= text::bytes_of("data"@));
    assert(w.skip(44) =~= pcm(samples));
}

/// The alphabet of base64.
pub proof fn law_base64_alphabet(v: int)
    requires
        0 <= v < 64,
    ensures
        symbol(v) == "ABCDEFGHIJKLMNOPQRSTUVWXYZabcdefghijklmnopqrstuvwxyz0123456789+/"@[v] as u8,
        PAD == '=' as u8,
{
    reveal_strlit("ABCDEFGHIJKLMNOPQRSTUVWXYZabcdefghijklmnopqrstuvwxyz0123456789+/");
}

/// Base64 has four characters for every three bytes, and for what is left over.
pub proof fn law_base64_length(data: Seq<u8>)
    ensures
        base64(data).len() == (data.len() + 2) / 3 * 4,
    decreases data.len(),
{
    if data.len() > 3 {
        law_base64_length(data.skip(3));
    } else if data.len() == 3 {
        assert(data.skip(3) == Seq::<u8>::empty());
        assert(base64(data.skip(3)) == Seq::<u8>::empty());
    }
}

/// A number in bytes, low byte first.
pub open spec fn little_endian(s: Seq<u8>) -> int
    decreases s.len(),
{
    if s.len() == 0 {
        0
    } else {
        s[0] + 256 * little_endian(s.drop_first())
    }
}

proof fn lemma_little_endian(n: int)
    ensures
        0 <= n < 0x1_0000 ==> little_endian(le16(n)) == n,
        0 <= n < 0x1_0000_0000 ==> little_endian(le32(n)) == n,
{
    reveal_with_fuel(little_endian, 5);
    let (a, b) = (le16(n), le32(n));
    assert(a.drop_first() =~= seq![a[1]]);
    assert(seq![a[1]].drop_first() =~= Seq::<u8>::empty());
    assert(b.drop_first() =~= seq![b[1], b[2], b[3]]);
    assert(seq![b[1], b[2], b[3]].drop_first() =~= seq![b[2], b[3]]);
    assert(seq![b[2], b[3]].drop_first() =~= seq![b[3]]);
    assert(seq![b[3]].drop_first() =~= Seq::<u8>::empty());
}

/// **What a player reads in the header:** the file's length less eight, PCM (1), one
/// channel, the rate, bytes a second, bytes a sample (2), bits (16), and the samples'
/// length.
pub proof fn law_wav_header_reads_back(samples: Seq<i16>, rate: int)
    requires
        36 + 2 * samples.len() < 0x1_0000_0000,
        0 <= 2 * rate < 0x1_0000_0000,
    ensures
        ({
            let w = wav(samples, rate);
            &&& little_endian(w.subrange(4, 8)) == w.len() - 8
            &&& w.subrange(12, 16) == text::bytes_of("fmt "@)
            &&& little_endian(w.subrange(16, 20)) == 16
            &&& little_endian(w.subrange(20, 22)) == 1
            &&& little_endian(w.subrange(22, 24)) == 1
            &&& little_endian(w.subrange(24, 28)) == rate
            &&& little_endian(w.subrange(28, 32)) == 2 * rate
            &&& little_endian(w.subrange(32, 34)) == 2
            &&& little_endian(w.subrange(34, 36)) == 16
            &&& little_endian(w.subrange(40, 44)) == 2 * samples.len()
        }),
{
    reveal_strlit("RIFF");
    reveal_strlit("WAVE");
    reveal_strlit("fmt ");
    reveal_strlit("data");
    lemma_pcm_len(samples);
    let w = wav(samples, rate);
    let n = samples.len() as int * 2;
    assert(w.subrange(4, 8) =~= le32(36 + n));
    assert(w.subrange(12, 16) =~= text::bytes_of("fmt "@));
    assert(w.subrange(16, 20) =~= le32(16));
    assert(w.subrange(20, 22) =~= le16(1));
    assert(w.subrange(22, 24) =~= le16(1));
    assert(w.subrange(24, 28) =~= le32(rate));
    assert(w.subrange(28, 32) =~= le32(rate * 2));
    assert(w.subrange(32, 34) =~= le16(2));
    assert(w.subrange(34, 36) =~= le16(16));
    assert(w.subrange(40, 44) =~= le32(n));
    lemma_little_endian(36 + n);
    lemma_little_endian(16);
    lemma_little_endian(1);
    lemma_little_endian(rate);
    lemma_little_endian(rate * 2);
    lemma_little_endian(2);
    lemma_little_endian(n);
}

/// The samples follow in their order, two bytes each; a negative one counts from 65536
/// down.
pub proof fn law_wav_samples_read_back(samples: Seq<i16>, i: int)
    requires
        0 <= i < samples.len(),
    ensures
        pcm(samples).len() == 2 * samples.len(),
        little_endian(pcm(samples).subrange(2 * i, 2 * i + 2)) == (if samples[i] < 0 {
            samples[i] + 65536
        } else {
            samples[i] as int
        }),
    decreases samples.len(),
{
    lemma_pcm_len(samples);
    let head = samples.drop_last();
    lemma_pcm_len(head);
    let all = pcm(samples);
    let last = samples.last() as int % 65536;
    if i == samples.len() - 1 {
        assert(all.subrange(2 * i, 2 * i + 2) =~= le16(last));
        lemma_little_endian(last);
    } else {
        law_wav_samples_read_back(head, i);
        assert(all.subrange(2 * i, 2 * i + 2) =~= pcm(head).subrange(2 * i, 2 * i + 2));
    }
}

} // verus!

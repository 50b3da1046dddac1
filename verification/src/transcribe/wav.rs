//! A recording as the bytes of a WAV file.
use vstd::prelude::*;

verus! {

/// `x` in two bytes, the low one first.
pub open spec fn le16(x: int) -> Seq<u8> {
    seq![(x % 256) as u8, (x / 256 % 256) as u8]
}

/// `x` in four bytes, the low one first.
pub open spec fn le32(x: int) -> Seq<u8> {
    le16(x % 65536) + le16(x / 65536)
}

/// The 44 bytes in front of `len` bytes of 16-bit mono samples.
pub open spec fn header(len: int, sample_rate: int) -> Seq<u8> {
    // "RIFF", the length of what follows, "WAVE"
    seq![0x52u8, 0x49, 0x46, 0x46] + le32(len + 36) + seq![0x57u8, 0x41, 0x56, 0x45]
    // "fmt ", its length, integer samples, one channel
        + seq![0x66u8, 0x6d, 0x74, 0x20] + le32(16) + le16(1) + le16(1)
    // samples and bytes per second, bytes and bits per sample
        + le32(sample_rate) + le32(sample_rate * 2) + le16(2) + le16(16)
    // "data", its length
        + seq![0x64u8, 0x61, 0x74, 0x61] + le32(len)
}

/// The bytes of 16-bit samples.
pub open spec fn sample_bytes(samples: Seq<i16>) -> Seq<u8>
    decreases samples.len(),
{
    if samples.len() == 0 {
        Seq::empty()
    } else {
        sample_bytes(samples.drop_last()) + le16(samples.last() as int)
    }
}

/// The whole file.
pub open spec fn wav(samples: Seq<i16>, sample_rate: int) -> Seq<u8> {
    header(2 * samples.len() as int, sample_rate) + sample_bytes(samples)
}

/// A recording that fits into a file, at a rate that can be written down.
pub open spec fn fits_wav(len: int, sample_rate: int) -> bool {
    0 < sample_rate <= 0x7fff_ffff && len * 2 + 36 <= 0xffff_ffff
}

/// Writes a WAV file into memory with `hound`: `WavWriter::new` writes the header
/// of one 16-bit integer channel, `write_sample` appends each sample in two bytes,
/// the low one first, and `finalize` fills in the two lengths. Writing into
/// memory does not fail. A rate of zero would be divided by, and lengths or a byte
/// rate past 32 bits would overflow, so those are left out.
#[verifier::external_body]
fn hound_encode(samples: &Vec<i16>, sample_rate: u32) -> (r: Option<Vec<u8>>)
    requires
        fits_wav(samples@.len() as int, sample_rate as int),
    ensures
        r is Some,
        r.unwrap()@ == wav(samples@, sample_rate as int),
{
    let sample_format = hound::SampleFormat::Int;
    let spec = hound::WavSpec { channels: 1, sample_rate, bits_per_sample: 16, sample_format };
    let mut buf: Vec<u8> = Vec::new();
    let mut w = hound::WavWriter::new(std::io::Cursor::new(&mut buf), spec).ok()?;
    for s in samples {
        w.write_sample(*s).ok()?;
    }
    w.finalize().ok()?;
    Some(buf)
}

/// The WAV file that holds `samples`, or `None` where they do not fit into one.
pub fn samples_to_wav_bytes(samples: &Vec<i16>, sample_rate: u32) -> (r: Option<Vec<u8>>)
    ensures
        r is Some <==> fits_wav(samples@.len() as int, sample_rate as int),
        r matches Some(b) ==> b@ == wav(samples@, sample_rate as int),
{
    if sample_rate == 0 || sample_rate > 0x7fff_ffff || samples.len() > 0x7fff_ffed {
        return None;
    }
    hound_encode(samples, sample_rate)
}

/// The sample that two bytes hold.
pub open spec fn sample_at(b: Seq<u8>, at: int) -> int {
    let raw = b[at] + b[at + 1] * 256;
    if raw < 32768 {
        raw
    } else {
        raw - 65536
    }
}

/// What was recorded can be read back: behind the header stand the samples, two
/// bytes each, and nothing else.
pub proof fn law_samples_can_be_read_back(samples: Seq<i16>, sample_rate: int, i: int)
    requires
        0 <= i < samples.len(),
    ensures
        wav(samples, sample_rate).len() == 44 + 2 * samples.len(),
        sample_at(wav(samples, sample_rate), 44 + 2 * i) == samples[i],
{
    let b = sample_bytes(samples);
    lemma_sample_bytes(samples, i);
    assert(header(2 * samples.len() as int, sample_rate).len() == 44);
    assert(wav(samples, sample_rate)[44 + 2 * i] == b[2 * i]);
    assert(wav(samples, sample_rate)[44 + 2 * i + 1] == b[2 * i + 1]);
}

proof fn lemma_sample_bytes(samples: Seq<i16>, i: int)
    requires
        0 <= i < samples.len(),
    ensures
        sample_bytes(samples).len() == 2 * samples.len(),
        sample_at(sample_bytes(samples), 2 * i) == samples[i],
    decreases samples.len(),
{
    let before = sample_bytes(samples.drop_last());
    if i < samples.len() - 1 {
        lemma_sample_bytes(samples.drop_last(), i);
        assert(sample_bytes(samples)[2 * i] == before[2 * i]);
        assert(sample_bytes(samples)[2 * i + 1] == before[2 * i + 1]);
    } else {
        lemma_sample_bytes_len(samples.drop_last());
        let x = samples.last() as int;
        assert(sample_bytes(samples)[2 * i] == (x % 256) as u8);
        assert(sample_bytes(samples)[2 * i + 1] == (x / 256 % 256) as u8);
    }
}

proof fn lemma_sample_bytes_len(samples: Seq<i16>)
    ensures
        sample_bytes(samples).len() == 2 * samples.len(),
    decreases samples.len(),
{
    if samples.len() > 0 {
        lemma_sample_bytes_len(samples.drop_last());
    }
}

/// The number that two bytes hold, the low one first.
pub open spec fn word_at(b: Seq<u8>, at: int) -> int {
    b[at] + b[at + 1] * 256
}

/// The number that four bytes hold, the low one first.
pub open spec fn dword_at(b: Seq<u8>, at: int) -> int {
    word_at(b, at) + word_at(b, at + 2) * 65536
}

/// What the header says can be read back: the file is as long as it says, and holds one
/// channel of 16-bit samples, two bytes each, at the rate it was recorded with.
pub proof fn law_the_header_tells_the_truth(samples: Seq<i16>, sample_rate: int)
    requires
        fits_wav(samples.len() as int, sample_rate),
    ensures
        ({
            let b = wav(samples, sample_rate);
            &&& dword_at(b, 4) == b.len() - 8
            &&& dword_at(b, 16) == 16
            &&& word_at(b, 20) == 1
            &&& word_at(b, 22) == 1
            &&& dword_at(b, 24) == sample_rate
            &&& dword_at(b, 28) == 2 * sample_rate
            &&& word_at(b, 32) == 2
            &&& word_at(b, 34) == 16
            &&& dword_at(b, 40) == 2 * samples.len()
            &&& b.subrange(0, 4) == seq!['R' as u8, 'I' as u8, 'F' as u8, 'F' as u8]
            &&& b.subrange(8, 12) == seq!['W' as u8, 'A' as u8, 'V' as u8, 'E' as u8]
            &&& b.subrange(12, 16) == seq!['f' as u8, 'm' as u8, 't' as u8, ' ' as u8]
            &&& b.subrange(36, 40) == seq!['d' as u8, 'a' as u8, 't' as u8, 'a' as u8]
        }),
{
    let len = 2 * samples.len() as int;
    let h = header(len, sample_rate);
    let b = wav(samples, sample_rate);
    lemma_sample_bytes_len(samples);
    assert(h.len() == 44);
    assert forall|i: int| 0 <= i < 44 implies b[i] == h[i] by {}
    lemma_dword(len + 36);
    lemma_dword(16);
    lemma_dword(sample_rate);
    lemma_dword(sample_rate * 2);
    lemma_dword(len);
    assert(b.subrange(4, 8) =~= le32(len + 36));
    assert(b.subrange(16, 20) =~= le32(16));
    assert(b.subrange(24, 28) =~= le32(sample_rate));
    assert(b.subrange(28, 32) =~= le32(sample_rate * 2));
    assert(b.subrange(40, 44) =~= le32(len));
    lemma_dword_within(b, 4);
    lemma_dword_within(b, 16);
    lemma_dword_within(b, 24);
    lemma_dword_within(b, 28);
    lemma_dword_within(b, 40);
}

proof fn lemma_dword(x: int)
    requires
        0 <= x <= 0xffff_ffff,
    ensures
        dword_at(le32(x), 0) == x,
{
    let (lo, hi) = (x % 65536, x / 65536);
    let b = le32(x);
    assert(b[0] == lo % 256 && b[1] == lo / 256 % 256);
    assert(b[2] == hi % 256 && b[3] == hi / 256 % 256);
}

proof fn lemma_dword_within(b: Seq<u8>, at: int)
    requires
        0 <= at,
        at + 4 <= b.len(),
    ensures
        dword_at(b, at) == dword_at(b.subrange(at, at + 4), 0),
{
}

/// What fits: any recording short enough for its length to be written in 32 bits with the
/// header's, at any rate that is not zero and whose double fits into 32 bits.
pub proof fn law_what_fits_into_a_file(len: int, sample_rate: int)
    requires
        0 <= len,
        0 <= sample_rate,
    ensures
        fits_wav(len, sample_rate) <==> sample_rate != 0 && 2 * sample_rate < 0x1_0000_0000 && 2
            * len + 36 < 0x1_0000_0000,
{
}

} // verus!

//! WAV (RIFF, 16-bit PCM) container header.
use vstd::prelude::*;

verus! {

/// Writes PCM audio into a WAV container.
#[derive(Debug)]
pub struct WavEncoder {
    pub sample_rate: u32,
    pub channels: u16,
}

/// Little-endian bytes of a 32-bit value (`u32::to_le_bytes`).
pub open spec fn le32(x: nat) -> Seq<u8> {
    seq![(x % 256) as u8, ((x / 256) % 256) as u8, ((x / 65536) % 256) as u8, ((x / 16777216) % 256) as u8]
}

/// Little-endian bytes of a 16-bit value (`u16::to_le_bytes`).
pub open spec fn le16(x: nat) -> Seq<u8> {
    seq![(x % 256) as u8, ((x / 256) % 256) as u8]
}

pub fn push_le32(out: &mut Vec<u8>, x: u32)
    ensures
        final(out)@ == old(out)@ + le32(x as nat),
{
    out.push((x % 256) as u8);
    out.push(((x / 256) % 256) as u8);
    out.push(((x / 65536) % 256) as u8);
    out.push(((x / 16777216) % 256) as u8);
    proof {
        assert(out@ =~= old(out)@ + le32(x as nat));
    }
}

pub fn push_le16(out: &mut Vec<u8>, x: u16)
    ensures
        final(out)@ == old(out)@ + le16(x as nat),
{
    out.push((x % 256) as u8);
    out.push(((x / 256) % 256) as u8);
    proof {
        assert(out@ =~= old(out)@ + le16(x as nat));
    }
}

/// The four ASCII bytes of a chunk tag.
pub open spec fn tag(a: u8, b: u8, c: u8, d: u8) -> Seq<u8> {
    seq![a, b, c, d]
}

/// Size of the PCM payload for `num_samples` 16-bit samples, as stored (32 bits).
pub open spec fn data_size(num_samples: nat) -> nat {
    (num_samples * 2) % 0x1_0000_0000
}

/// The 44-byte header: RIFF size, `fmt ` chunk for 16-bit PCM, `data` size.
pub open spec fn wav_header(sample_rate: nat, channels: nat, num_samples: nat) -> Seq<u8> {
    tag(82, 73, 70, 70) + le32(36 + data_size(num_samples)) + tag(87, 65, 86, 69) + tag(
        102,
        109,
        116,
        32,
    ) + le32(16) + le16(1) + le16(channels) + le32(sample_rate) + le32(sample_rate * channels * 2)
        + le16(channels * 2) + le16(16) + tag(100, 97, 116, 97) + le32(data_size(num_samples))
}

impl WavEncoder {
    pub fn new(sample_rate: u32, channels: u16) -> (e: Self)
        ensures
            e.sample_rate == sample_rate,
            e.channels == channels,
    {
        WavEncoder { sample_rate, channels }
    }

    /// Header for `num_samples` samples. The byte rate, block alignment and
    /// RIFF size must fit their fields.
    pub fn generate_header(&self, num_samples: usize) -> (h: Vec<u8>)
        requires
            self.sample_rate * self.channels * 2 <= u32::MAX,
            self.channels * 2 <= u16::MAX,
            num_samples * 2 <= usize::MAX,
            36 + data_size(num_samples as nat) <= u32::MAX,
        ensures
            h@ == wav_header(self.sample_rate as nat, self.channels as nat, num_samples as nat),
            h@.len() == 44,
    {
        let bits_per_sample: u16 = 16;
        let byte_rate: u32 = self.sample_rate * (self.channels as u32) * 2;
        let block_align: u16 = self.channels * 2;
        let doubled: u64 = (num_samples as u64) * 2;
        let data_size_v: u32 = (doubled % 0x1_0000_0000u64) as u32;
        let file_size: u32 = 36 + data_size_v;
        let mut h: Vec<u8> = Vec::new();
        h.push(82u8);
        h.push(73u8);
        h.push(70u8);
        h.push(70u8);
        push_le32(&mut h, file_size);
        h.push(87u8);
        h.push(65u8);
        h.push(86u8);
        h.push(69u8);
        h.push(102u8);
        h.push(109u8);
        h.push(116u8);
        h.push(32u8);
        push_le32(&mut h, 16);
        push_le16(&mut h, 1);
        push_le16(&mut h, self.channels);
        push_le32(&mut h, self.sample_rate);
        push_le32(&mut h, byte_rate);
        push_le16(&mut h, block_align);
        push_le16(&mut h, bits_per_sample);
        h.push(100u8);
        h.push(97u8);
        h.push(116u8);
        h.push(97u8);
        push_le32(&mut h, data_size_v);
        proof {
            assert(h@ =~= wav_header(
                self.sample_rate as nat,
                self.channels as nat,
                num_samples as nat,
            ));
        }
        h
    }
}

impl Default for WavEncoder {
    fn default() -> (e: Self)
        ensures
            e.sample_rate == 16000,
            e.channels == 1,
    {
        WavEncoder::new(16000, 1)
    }
}

} // verus!

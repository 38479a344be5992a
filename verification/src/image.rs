//! Image length validation and the header-relocation layout.
//!
//! The device's flash is a fixed 2 MiB address space transferred as 2048
//! packets of 1024 bytes. A ROM image may be shorter (any power of two in
//! (16 KiB, 2 MiB]); its trailing 544-byte header block (512 bytes of ROM
//! metadata plus 32 bytes of interrupt vectors) must nevertheless land in the
//! final 544 bytes of the 2 MiB space. Packets past the image are blank
//! (0xFF) filler, except that the last packet carries the relocated header.

use vstd::prelude::*;

verus! {

/// Bytes carried by one flash packet.
pub const CHUNK_LEN: usize = 1024;

/// Number of flash packets in the full 2 MiB address space.
pub const TOTAL_PACKETS: usize = 2048;

/// ROM metadata (512 bytes) + interrupt vectors (32 bytes).
pub const HEADER_LEN: usize = 512 + 32;

/// Whether `n` is a power of two.
pub open spec fn is_pow2(n: int) -> bool
    decreases n,
{
    if n <= 0 {
        false
    } else if n == 1 {
        true
    } else {
        n % 2 == 0 && is_pow2(n / 2)
    }
}

/// The lengths the device geometry accepts: more than 16 KiB, at most 2 MiB,
/// and an exact power of two.
pub open spec fn valid_image_len(len: int) -> bool {
    16384 < len <= 2097152 && is_pow2(len)
}

/// Index of the last packet that carries real image data: `len / 1024 - 1`.
pub open spec fn header_packet_of(len: int) -> int {
    len / 1024 - 1
}

/// A packet of blank flash filler: 1024 bytes of 0xFF, the erased state.
pub open spec fn blank_chunk() -> Seq<u8> {
    Seq::new(1024, |i: int| 0xFFu8)
}

/// The image's own header block: its trailing 544 bytes.
pub open spec fn image_header(img: Seq<u8>) -> Seq<u8>
    recommends
        img.len() >= 544,
{
    img.subrange(img.len() - 544, img.len() as int)
}

/// The 1024 raw image bytes addressed by packet `p`.
pub open spec fn raw_chunk(img: Seq<u8>, p: int) -> Seq<u8>
    recommends
        0 <= p,
        (p + 1) * 1024 <= img.len(),
{
    img.subrange(p * 1024, (p + 1) * 1024)
}

/// The 1024 bytes that packet `p` of the 2048-packet transfer must carry for
/// image `img`: raw data up to the image's last packet, blank filler above it,
/// and in the final packet the relocated header over blank filler. For a full
/// 2 MiB image every packet is raw data and no relocation occurs.
pub open spec fn chunk_spec(img: Seq<u8>, p: int) -> Seq<u8>
    recommends
        valid_image_len(img.len() as int),
        0 <= p < 2048,
{
    let hp = header_packet_of(img.len() as int);
    if p <= hp {
        raw_chunk(img, p)
    } else if p == 2047 {
        Seq::new(480, |i: int| 0xFFu8) + image_header(img)
    } else {
        blank_chunk()
    }
}

/// A power of two strictly above another power of two is at least its double.
proof fn lemma_pow2_le_half(k: int, n: int)
    requires
        is_pow2(k),
        is_pow2(n),
        k < n,
    ensures
        2 * k <= n,
    decreases k,
{
    if k == 1 {
        assert(n % 2 == 0);
    } else {
        assert(k % 2 == 0 && is_pow2(k / 2));
        assert(n % 2 == 0 && is_pow2(n / 2));
        lemma_pow2_le_half(k / 2, n / 2);
    }
}

/// A power of two divides every power of two at or above it.
proof fn lemma_pow2_divides(n: int, k: int)
    requires
        is_pow2(n),
        is_pow2(k),
        k <= n,
    ensures
        n % k == 0,
    decreases n,
{
    if n == k {
        assert(n % k == 0) by (nonlinear_arith)
            requires n == k && k >= 1,
        ;
    } else {
        assert(n % 2 == 0 && is_pow2(n / 2));
        lemma_pow2_le_half(k, n);
        lemma_pow2_divides(n / 2, k);
        assert(n % k == 0) by (nonlinear_arith)
            requires (n / 2) % k == 0 && n == 2 * (n / 2) && k >= 1,
        ;
    }
}

/// A valid image length is a whole number of 1024-byte packets, between 17
/// and 2048 of them.
pub proof fn lemma_valid_len_packets(len: int)
    requires
        valid_image_len(len),
    ensures
        len % 1024 == 0,
        len == 1024 * (len / 1024),
        17 <= len / 1024 <= 2048,
{
    reveal_with_fuel(is_pow2, 12);
    assert(is_pow2(1024));
    lemma_pow2_divides(len, 1024);
    assert(len == 1024 * (len / 1024));
}

/// Checks the device's geometry constraint on an image length.
pub fn validate_image_len(len: u64) -> (r: bool)
    ensures
        r == valid_image_len(len as int),
{
    if len <= 16 * 1024 || len > 2 * 1024 * 1024 {
        return false;
    }
    is_power_of_two(len)
}

fn is_power_of_two(n: u64) -> (r: bool)
    ensures
        r == is_pow2(n as int),
{
    if n == 0 {
        return false;
    }
    let mut m: u64 = n;
    while m > 1
        invariant
            m >= 1,
            is_pow2(n as int) == is_pow2(m as int),
        decreases m,
    {
        if m % 2 == 1 {
            return false;
        }
        m = m / 2;
    }
    true
}

/// Appends `count` copies of `val` to `r`.
fn push_fill(r: &mut Vec<u8>, val: u8, count: usize)
    ensures
        final(r)@ == old(r)@ + Seq::new(count as nat, |j: int| val),
{
    let mut i: usize = 0;
    while i < count
        invariant
            i <= count,
            r@ == old(r)@ + Seq::new(i as nat, |j: int| val),
        decreases count - i,
    {
        r.push(val);
        proof {
            assert(r@ =~= old(r)@ + Seq::new((i + 1) as nat, |j: int| val));
        }
        i += 1;
    }
}

/// Appends `src[start .. start + count]` to `r`.
fn push_from(r: &mut Vec<u8>, src: &Vec<u8>, start: usize, count: usize)
    requires
        start + count <= src@.len(),
    ensures
        final(r)@ == old(r)@ + src@.subrange(start as int, start + count),
{
    let n: usize = src.len();
    let mut i: usize = 0;
    while i < count
        invariant
            n == src@.len(),
            start + count <= n,
            i <= count,
            r@ == old(r)@ + src@.subrange(start as int, start + i),
        decreases count - i,
    {
        let b = src[start + i];
        r.push(b);
        proof {
            assert(r@ =~= old(r)@ + src@.subrange(start as int, start + i + 1));
        }
        i += 1;
    }
}

/// Builds the 1024 bytes that packet `p` must carry for `img`, applying the
/// header relocation where the image is shorter than the full 2 MiB space.
pub fn chunk_at(img: &Vec<u8>, p: usize) -> (r: Vec<u8>)
    requires
        valid_image_len(img@.len() as int),
        p < 2048,
    ensures
        r@ == chunk_spec(img@, p as int),
{
    proof {
        lemma_valid_len_packets(img@.len() as int);
    }
    let hp: usize = img.len() / 1024 - 1;
    let mut r: Vec<u8> = Vec::new();
    if p <= hp {
        proof {
            assert((p as int + 1) * 1024 <= 1024 * (img@.len() as int / 1024));
        }
        push_from(&mut r, img, p * 1024, 1024);
        proof {
            assert(r@ =~= chunk_spec(img@, p as int));
        }
    } else if p == 2047 {
        push_fill(&mut r, 0xFF, 480);
        push_from(&mut r, img, img.len() - 544, 544);
        proof {
            assert(r@ =~= chunk_spec(img@, p as int));
        }
    } else {
        push_fill(&mut r, 0xFF, 1024);
        proof {
            assert(r@ =~= chunk_spec(img@, p as int));
        }
    }
    r
}

/// For a full 2 MiB image the header packet is 2047 and no relocation
/// occurs: the final packet is raw image data, so its trailing 544 bytes are
/// the image's own trailing 544 bytes, unmodified.
pub proof fn lemma_full_image_header_in_place(img: Seq<u8>)
    requires
        valid_image_len(img.len() as int),
        img.len() == 2097152,
    ensures
        header_packet_of(img.len() as int) == 2047,
        chunk_spec(img, 2047) == raw_chunk(img, 2047),
        chunk_spec(img, 2047).subrange(480, 1024) == image_header(img),
{
    assert(chunk_spec(img, 2047).subrange(480, 1024) =~= image_header(img));
}

/// For a full 2 MiB image every one of the 2048 packets carries raw image
/// data: no padding and no relocation step triggers.
pub proof fn lemma_full_image_no_relocation(img: Seq<u8>)
    requires
        valid_image_len(img.len() as int),
        img.len() == 2097152,
    ensures
        forall|p: int| 0 <= p < 2048 ==> chunk_spec(img, p) == raw_chunk(img, p),
{
}

/// Layout for a 32 KiB image (header packet 31): packets 0..=31 carry raw
/// image bytes; packets 32..=2046 are blank 0xFF filler; packet 2047 is 0xFF
/// in its first 480 bytes and carries the image's trailing 544 bytes — the
/// header block saved aside from packet 31 — in its last 544 bytes.
pub proof fn lemma_small_image_layout(img: Seq<u8>)
    requires
        valid_image_len(img.len() as int),
        img.len() == 32768,
    ensures
        header_packet_of(img.len() as int) == 31,
        forall|p: int| 0 <= p <= 31 ==> chunk_spec(img, p) == raw_chunk(img, p),
        forall|p: int| 32 <= p <= 2046 ==> chunk_spec(img, p) == blank_chunk(),
        chunk_spec(img, 2047).subrange(0, 480) == Seq::new(480, |i: int| 0xFFu8),
        chunk_spec(img, 2047).subrange(480, 1024) == image_header(img),
        image_header(img) == raw_chunk(img, 31).subrange(480, 1024),
{
    assert(chunk_spec(img, 2047).subrange(0, 480) =~= Seq::new(480, |i: int| 0xFFu8));
    assert(chunk_spec(img, 2047).subrange(480, 1024) =~= image_header(img));
    assert(image_header(img) =~= raw_chunk(img, 31).subrange(480, 1024));
}

} // verus!

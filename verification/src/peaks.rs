//! The `.peaks` waveform cache file format.
//!
//! A file is the eight bytes `PEAKv001`, then the points per second (an `f32`), the
//! total duration (an `f64`), the number of peak pairs (a `u32`), and each pair as two
//! `f32`s (minimum, maximum), all little-endian. The numbers are carried here as their
//! IEEE bit patterns (`f32::to_bits` / `f64::to_bits`), so framing never rounds them.
use vstd::prelude::*;

verus! {

/// The eight header bytes, `PEAKv001`.
pub open spec fn magic() -> Seq<u8> {
    seq![0x50u8, 0x45u8, 0x41u8, 0x4bu8, 0x76u8, 0x30u8, 0x30u8, 0x31u8]
}

/// Little-endian bytes of a `u32`.
pub open spec fn le32(x: u32) -> Seq<u8> {
    seq![
        (x & 0xff) as u8,
        ((x >> 8u32) & 0xff) as u8,
        ((x >> 16u32) & 0xff) as u8,
        ((x >> 24u32) & 0xff) as u8,
    ]
}

/// Little-endian bytes of a `u64`.
pub open spec fn le64(x: u64) -> Seq<u8> {
    le32((x & 0xffff_ffff) as u32) + le32((x >> 32u64) as u32)
}

/// The `u32` whose little-endian bytes start at `at` in `b`.
pub open spec fn read32(b: Seq<u8>, at: int) -> u32 {
    (b[at] as u32) | ((b[at + 1] as u32) << 8u32) | ((b[at + 2] as u32) << 16u32) | ((b[at
        + 3] as u32) << 24u32)
}

/// The `u64` whose little-endian bytes start at `at` in `b`.
pub open spec fn read64(b: Seq<u8>, at: int) -> u64 {
    (read32(b, at) as u64) | ((read32(b, at + 4) as u64) << 32u64)
}

/// The bytes of the peak pairs, each as its minimum then its maximum.
pub open spec fn pairs_bytes(p: Seq<(u32, u32)>) -> Seq<u8>
    decreases p.len(),
{
    if p.len() == 0 {
        Seq::empty()
    } else {
        pairs_bytes(p.drop_last()) + le32(p.last().0) + le32(p.last().1)
    }
}

/// The whole file for the given points per second, duration and peak pairs (the count
/// field holds the number of pairs, cut to 32 bits).
pub open spec fn peak_file_bytes(points_per_sec: u32, duration: u64, p: Seq<(u32, u32)>) -> Seq<u8> {
    magic() + le32(points_per_sec) + le64(duration) + le32(p.len() as u32) + pairs_bytes(p)
}

/// Why a byte string is not a peak file.
#[derive(Clone, Copy, Debug, PartialEq, Eq, Structural)]
pub enum PeakFileError {
    /// The bytes end before the header, the fixed fields or the announced pairs do.
    UnexpectedEnd,
    /// The first eight bytes are not `PEAKv001`.
    BadHeader,
}

/// Waveform peaks as stored in a `.peaks` file: bit patterns of the points per second
/// (`f32`), the total duration in seconds (`f64`), and each (minimum, maximum) pair of
/// `f32` samples.
#[derive(Clone, Debug)]
pub struct PeakFile {
    pub points_per_sec_bits: u32,
    pub total_duration_bits: u64,
    pub peak_bits: Vec<(u32, u32)>,
}

/// What reading the bytes `b` gives: too short for the header, a wrong header, too short
/// for the fixed fields or for the announced pairs, or the fields and the announced
/// number of pairs (bytes after them are ignored).
pub open spec fn parse_peak_file(b: Seq<u8>) -> Result<(u32, u64, Seq<(u32, u32)>), PeakFileError> {
    if b.len() < 8 {
        Err(PeakFileError::UnexpectedEnd)
    } else if b.take(8) != magic() {
        Err(PeakFileError::BadHeader)
    } else if b.len() < 24 {
        Err(PeakFileError::UnexpectedEnd)
    } else if b.len() < 24 + 8 * read32(b, 20) {
        Err(PeakFileError::UnexpectedEnd)
    } else {
        Ok(
            (
                read32(b, 8),
                read64(b, 12),
                Seq::new(
                    read32(b, 20) as nat,
                    |i: int| (read32(b, 24 + 8 * i), read32(b, 28 + 8 * i)),
                ),
            ),
        )
    }
}

/// Reading back the little-endian bytes of a `u32` gives the number.
pub proof fn lemma_le32_read(x: u32)
    ensures
        read32(le32(x), 0) == x,
{
    let b0 = (x & 0xff) as u8;
    let b1 = ((x >> 8u32) & 0xff) as u8;
    let b2 = ((x >> 16u32) & 0xff) as u8;
    let b3 = ((x >> 24u32) & 0xff) as u8;
    assert((b0 as u32) | ((b1 as u32) << 8u32) | ((b2 as u32) << 16u32) | ((b3 as u32) << 24u32)
        == x) by (bit_vector)
        requires
            b0 == (x & 0xff) as u8,
            b1 == ((x >> 8u32) & 0xff) as u8,
            b2 == ((x >> 16u32) & 0xff) as u8,
            b3 == ((x >> 24u32) & 0xff) as u8,
    ;
}

/// Reading back the little-endian bytes of a `u64` gives the number.
pub proof fn lemma_le64_read(x: u64)
    ensures
        read64(le64(x), 0) == x,
{
    let lo = (x & 0xffff_ffff) as u32;
    let hi = (x >> 32u64) as u32;
    let b = le64(x);
    lemma_le32_read(lo);
    lemma_le32_read(hi);
    assert(read32(b, 0) == read32(le32(lo), 0));
    assert(read32(b, 4) == read32(le32(hi), 0));
    assert(((lo as u64) | ((hi as u64) << 32u64)) == x) by (bit_vector)
        requires
            lo == (x & 0xffff_ffff) as u32,
            hi == (x >> 32u64) as u32,
    ;
}

/// Where each pair sits in `pairs_bytes`.
pub proof fn lemma_pairs_bytes(p: Seq<(u32, u32)>)
    ensures
        pairs_bytes(p).len() == 8 * p.len(),
        forall|i: int, k: int|
            0 <= i < p.len() && 0 <= k < 4 ==> #[trigger] pairs_bytes(p)[8 * i + k] == le32(
                p[i].0,
            )[k] && pairs_bytes(p)[8 * i + 4 + k] == le32(p[i].1)[k],
    decreases p.len(),
{
    if p.len() > 0 {
        let d = p.drop_last();
        lemma_pairs_bytes(d);
        assert forall|i: int, k: int| 0 <= i < p.len() && 0 <= k < 4 implies #[trigger] pairs_bytes(
            p,
        )[8 * i + k] == le32(p[i].0)[k] && pairs_bytes(p)[8 * i + 4 + k] == le32(p[i].1)[k] by {
            if i < d.len() {
                assert(pairs_bytes(d)[8 * i + k] == le32(d[i].0)[k]);
                assert(pairs_bytes(d)[8 * i + 4 + k] == le32(d[i].1)[k]);
            }
        }
    }
}

/// Reading the bytes written for a peak file gives back what was written, when the
/// number of pairs fits in the 32-bit count.
pub proof fn lemma_peak_file_round_trip(points_per_sec: u32, duration: u64, p: Seq<(u32, u32)>)
    requires
        p.len() <= u32::MAX,
    ensures
        parse_peak_file(peak_file_bytes(points_per_sec, duration, p)) == Ok::<
            (u32, u64, Seq<(u32, u32)>),
            PeakFileError,
        >((points_per_sec, duration, p)),
{
    let b = peak_file_bytes(points_per_sec, duration, p);
    let n = p.len() as u32;
    lemma_pairs_bytes(p);
    lemma_le32_read(points_per_sec);
    lemma_le64_read(duration);
    lemma_le32_read(n);
    assert(b.take(8) =~= magic());
    assert(read32(b, 8) == read32(le32(points_per_sec), 0));
    assert(read32(b, 12) == read32(le64(duration), 0));
    assert(read32(b, 16) == read32(le64(duration), 4));
    assert(read64(b, 12) == read64(le64(duration), 0));
    assert(read32(b, 20) == read32(le32(n), 0));
    assert(n == p.len());
    let q = Seq::new(n as nat, |i: int| (read32(b, 24 + 8 * i), read32(b, 28 + 8 * i)));
    assert forall|i: int| 0 <= i < p.len() implies q[i] == p[i] by {
        let pb = pairs_bytes(p);
        assert(pb[8 * i + 0] == le32(p[i].0)[0]);
        assert(pb[8 * i + 1] == le32(p[i].0)[1]);
        assert(pb[8 * i + 2] == le32(p[i].0)[2]);
        assert(pb[8 * i + 3] == le32(p[i].0)[3]);
        assert(pb[8 * i + 4 + 0] == le32(p[i].1)[0]);
        assert(pb[8 * i + 4 + 1] == le32(p[i].1)[1]);
        assert(pb[8 * i + 4 + 2] == le32(p[i].1)[2]);
        assert(pb[8 * i + 4 + 3] == le32(p[i].1)[3]);
        lemma_le32_read(p[i].0);
        lemma_le32_read(p[i].1);
        assert(read32(b, 24 + 8 * i) == read32(le32(p[i].0), 0));
        assert(read32(b, 28 + 8 * i) == read32(le32(p[i].1), 0));
    }
    assert(q =~= p);
}

/// Appends the little-endian bytes of `x`.
fn push_le32(out: &mut Vec<u8>, x: u32)
    ensures
        final(out)@ == old(out)@ + le32(x),
{
    out.push((x & 0xff) as u8);
    out.push(((x >> 8) & 0xff) as u8);
    out.push(((x >> 16) & 0xff) as u8);
    out.push(((x >> 24) & 0xff) as u8);
    assert(final(out)@ =~= old(out)@ + le32(x));
}

/// Reads the little-endian `u32` at `at`.
fn get_le32(b: &[u8], at: usize) -> (x: u32)
    requires
        at + 4 <= b@.len(),
    ensures
        x == read32(b@, at as int),
{
    (b[at] as u32) | ((b[at + 1] as u32) << 8) | ((b[at + 2] as u32) << 16) | ((b[at + 3] as u32)
        << 24)
}

impl PeakFile {
    /// The bytes of the file.
    pub fn to_bytes(&self) -> (b: Vec<u8>)
        ensures
            b@ == peak_file_bytes(self.points_per_sec_bits, self.total_duration_bits, self.peak_bits@),
    {
        let mut out: Vec<u8> = Vec::new();
        out.push(0x50);
        out.push(0x45);
        out.push(0x41);
        out.push(0x4b);
        out.push(0x76);
        out.push(0x30);
        out.push(0x30);
        out.push(0x31);
        assert(out@ =~= magic());
        push_le32(&mut out, self.points_per_sec_bits);
        let d = self.total_duration_bits;
        push_le32(&mut out, (d & 0xffff_ffff) as u32);
        push_le32(&mut out, (d >> 32) as u32);
        assert(out@ =~= magic() + le32(self.points_per_sec_bits) + le64(d));
        let n = self.peak_bits.len();
        #[verifier::truncate]
        let count = n as u32;
        push_le32(&mut out, count);
        let ghost head = out@;
        let ghost p = self.peak_bits@;
        let mut i: usize = 0;
        assert(p.take(0) =~= Seq::<(u32, u32)>::empty());
        while i < n
            invariant
                n == p.len(),
                p == self.peak_bits@,
                i <= n,
                out@ == head + pairs_bytes(p.take(i as int)),
            decreases n - i,
        {
            let (lo, hi) = self.peak_bits[i];
            proof {
                assert(p.take(i as int + 1).drop_last() =~= p.take(i as int));
                assert(p.take(i as int + 1).last() == (lo, hi));
            }
            push_le32(&mut out, lo);
            push_le32(&mut out, hi);
            assert(out@ =~= head + pairs_bytes(p.take(i as int + 1)));
            i = i + 1;
        }
        assert(p.take(n as int) =~= p);
        assert(count == p.len() as u32);
        out
    }

    /// Reads a peak file (see `parse_peak_file`).
    pub fn from_bytes(b: &[u8]) -> (r: Result<PeakFile, PeakFileError>)
        ensures
            match parse_peak_file(b@) {
                Ok((pps, dur, p)) => r matches Ok(f) && f.points_per_sec_bits == pps
                    && f.total_duration_bits == dur && f.peak_bits@ == p,
                Err(e) => r == Err::<PeakFile, PeakFileError>(e),
            },
    {
        if b.len() < 8 {
            return Err(PeakFileError::UnexpectedEnd);
        }
        if !(b[0] == 0x50 && b[1] == 0x45 && b[2] == 0x41 && b[3] == 0x4b && b[4] == 0x76 && b[5]
            == 0x30 && b[6] == 0x30 && b[7] == 0x31) {
            proof {
                assert(b@.take(8) != magic()) by {
                    if b@.take(8) == magic() {
                        assert(b@.take(8)[0] == b@[0]);
                        assert(b@.take(8)[1] == b@[1]);
                        assert(b@.take(8)[2] == b@[2]);
                        assert(b@.take(8)[3] == b@[3]);
                        assert(b@.take(8)[4] == b@[4]);
                        assert(b@.take(8)[5] == b@[5]);
                        assert(b@.take(8)[6] == b@[6]);
                        assert(b@.take(8)[7] == b@[7]);
                    }
                }
            }
            return Err(PeakFileError::BadHeader);
        }
        assert(b@.take(8) =~= magic());
        if b.len() < 24 {
            return Err(PeakFileError::UnexpectedEnd);
        }
        let pps = get_le32(b, 8);
        let lo = get_le32(b, 12);
        let hi = get_le32(b, 16);
        let dur: u64 = (lo as u64) | ((hi as u64) << 32);
        let count = get_le32(b, 20);
        if (b.len() as u64) < 24 + 8 * (count as u64) {
            return Err(PeakFileError::UnexpectedEnd);
        }
        let mut peaks: Vec<(u32, u32)> = Vec::new();
        let mut i: usize = 0;
        assert(b@.len() == b.len());
        let ghost want = Seq::new(
            count as nat,
            |j: int| (read32(b@, 24 + 8 * j), read32(b@, 28 + 8 * j)),
        );
        while i < count as usize
            invariant
                i <= count,
                24 + 8 * count <= b@.len(),
                b@.len() == b.len(),
                count == read32(b@, 20),
                want == Seq::new(
                    count as nat,
                    |j: int| (read32(b@, 24 + 8 * j), read32(b@, 28 + 8 * j)),
                ),
                peaks@ == want.take(i as int),
            decreases count - i,
        {
            let at = 24 + 8 * i;
            let mn = get_le32(b, at);
            let mx = get_le32(b, at + 4);
            peaks.push((mn, mx));
            assert(peaks@ =~= want.take(i as int + 1));
            i = i + 1;
        }
        assert(want.take(count as int) =~= want);
        Ok(PeakFile { points_per_sec_bits: pps, total_duration_bits: dur, peak_bits: peaks })
    }
}

} // verus!

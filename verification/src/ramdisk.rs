//! The RAM-disk container format.
//!
//! A container is a little-endian binary blob:
//!
//! ```text
//!  [ 0..8 )   total length in bytes (including this header)
//!  [ 8..16)   CRC-32 over everything from offset 16 onward
//!  [16..24)   file count N
//!  [24..24+8N) region-end offsets E_0 ... E_{N-1}, relative to the payload
//!  [24+8N..)  payload: file 0 bytes, file 1 bytes, ...
//! ```
//!
//! File `i` spans payload offsets `E_{i-1} .. E_i` (with `E_{-1} = 0`). The
//! host-side `Image` builder assembles a container from file contents; the
//! kernel-side functions read one, after `assert_soundness` has checked the
//! length, the checksum and the file-count bound.

use vstd::prelude::*;
use vstd::string::StringSliceAdditionalSpecFns;

verus! {

/// Byte offset of the file-count field.
pub const COUNT_OFFSET: u64 = 16;
/// Byte offset of the first region-end entry.
pub const ENDS_OFFSET: u64 = 24;

/// The CRC-32 digest (Ethernet variant) of a byte sequence.
pub uninterp spec fn crc32_of(data: Seq<u8>) -> u64;

/// Relies on pruefung's `Crc32` hasher (`Default::default`,
/// `Hasher::write`, `Hasher::finish`): the digest is a pure function of the
/// byte sequence, and `finish` widens a 32-bit state, so the result fits in
/// 32 bits.
#[verifier::external_body]
fn crc32(data: &[u8]) -> (r: u64)
    ensures
        r == crc32_of(data@),
        r <= u32::MAX,
{
    let mut h = pruefung::crc::crc32::Crc32::default();
    core::hash::Hasher::write(&mut h, data);
    core::hash::Hasher::finish(&h)
}

/// The eight little-endian bytes of `v`.
pub open spec fn le64(v: u64) -> Seq<u8> {
    seq![
        (v & 0xff) as u8,
        ((v >> 8) & 0xff) as u8,
        ((v >> 16) & 0xff) as u8,
        ((v >> 24) & 0xff) as u8,
        ((v >> 32) & 0xff) as u8,
        ((v >> 40) & 0xff) as u8,
        ((v >> 48) & 0xff) as u8,
        ((v >> 56) & 0xff) as u8,
    ]
}

/// The value of eight little-endian bytes.
pub open spec fn le64_val(b: Seq<u8>) -> u64 {
    (b[0] as u64) | ((b[1] as u64) << 8) | ((b[2] as u64) << 16) | ((b[3] as u64) << 24) | ((
    b[4] as u64) << 32) | ((b[5] as u64) << 40) | ((b[6] as u64) << 48) | ((b[7] as u64) << 56)
}

/// Reading back the eight little-endian bytes of `v` yields `v`.
pub proof fn lemma_le64_roundtrip(v: u64)
    ensures
        le64_val(le64(v)) == v,
{
    assert(((v & 0xff) as u8 as u64) | ((((v >> 8) & 0xff) as u8 as u64) << 8) | ((((v >> 16)
        & 0xff) as u8 as u64) << 16) | ((((v >> 24) & 0xff) as u8 as u64) << 24) | ((((v >> 32)
        & 0xff) as u8 as u64) << 32) | ((((v >> 40) & 0xff) as u8 as u64) << 40) | ((((v >> 48)
        & 0xff) as u8 as u64) << 48) | ((((v >> 56) & 0xff) as u8 as u64) << 56) == v)
        by (bit_vector);
}

/// The concatenated contents of `files`.
pub open spec fn payload_of(files: Seq<Seq<u8>>) -> Seq<u8>
    decreases files.len(),
{
    if files.len() == 0 {
        Seq::empty()
    } else {
        payload_of(files.drop_last()) + files.last()
    }
}

/// The payload offset at which file `i` ends (exclusive).
pub open spec fn end_of(files: Seq<Seq<u8>>, i: int) -> int {
    payload_of(files.take(i + 1)).len() as int
}

/// The payload offset at which file `i` starts.
pub open spec fn start_of(files: Seq<Seq<u8>>, i: int) -> int {
    if i == 0 {
        0
    } else {
        end_of(files, i - 1)
    }
}

/// The region-end table: eight little-endian bytes per file.
pub open spec fn ends_bytes(files: Seq<Seq<u8>>) -> Seq<u8>
    decreases files.len(),
{
    if files.len() == 0 {
        Seq::empty()
    } else {
        ends_bytes(files.drop_last()) + le64(payload_of(files).len() as u64)
    }
}

/// Everything after the first sixteen header bytes: file count, region-end
/// table, payload.
pub open spec fn tail_of(files: Seq<Seq<u8>>) -> Seq<u8> {
    le64(files.len() as u64) + ends_bytes(files) + payload_of(files)
}

/// The total container length for `files`.
pub open spec fn total_of(files: Seq<Seq<u8>>) -> int {
    16 + tail_of(files).len() as int
}

/// The whole container for `files`, with checksum field `crc`.
pub open spec fn spec_encode(files: Seq<Seq<u8>>, crc: u64) -> Seq<u8> {
    le64(total_of(files) as u64) + le64(crc) + tail_of(files)
}

/// The file count read from a container.
pub open spec fn file_count_of(d: Seq<u8>) -> u64 {
    le64_val(d.subrange(16, 24))
}

/// The region-end entry `k` read from a container.
pub open spec fn end_at(d: Seq<u8>, k: int) -> u64 {
    le64_val(d.subrange(24 + 8 * k, 32 + 8 * k))
}

/// The payload offset at which file `i` starts, read from a container.
pub open spec fn start_at(d: Seq<u8>, i: int) -> u64 {
    if i == 0 {
        0
    } else {
        end_at(d, i - 1)
    }
}

/// The contents of file `i`, read from a container.
pub open spec fn file_at(d: Seq<u8>, i: int) -> Seq<u8> {
    let base = 24 + 8 * (file_count_of(d) as int);
    d.subrange(base + start_at(d, i), base + end_at(d, i))
}

/// Structural validity of a container: the header and region-end table fit,
/// the ends are monotone, and the last end fits in the payload. Reading
/// functions require this; `assert_soundness` checks what the kernel
/// checks at boot (length, checksum, count bound), and a bootloader is
/// trusted for the rest.
pub open spec fn container_valid(d: Seq<u8>) -> bool {
    let n = file_count_of(d) as int;
    &&& d.len() >= 24
    &&& 24 + 8 * n <= d.len()
    &&& forall|k: int| 0 <= k < n - 1 ==> #[trigger] end_at(d, k) <= end_at(d, k + 1)
    &&& (n > 0 ==> end_at(d, n - 1) <= d.len() - 24 - 8 * n)
}

/// Whether the soundness check passes: the reported length matches the
/// container length and the header's total, the stored CRC-32 matches the
/// payload from offset 16 on, and the file count respects the size bound.
/// The check demands at least 33 bytes - a header, one region-end entry
/// and one payload byte - which is stricter than the 24-byte header alone:
/// an empty RAM disk is treated as a packaging fault.
pub open spec fn spec_sound(d: Seq<u8>, reported_len: u64) -> bool {
    &&& d.len() >= 33
    &&& reported_len == d.len()
    &&& le64_val(d.subrange(0, 8)) == reported_len
    &&& le64_val(d.subrange(8, 16)) == crc32_of(d.skip(16))
    &&& file_count_of(d) <= ((reported_len - 24) as u64) / 9
}

/// Appends every byte of `data`.
pub fn append_bytes(out: &mut Vec<u8>, data: &[u8])
    ensures
        final(out)@ == old(out)@ + data@,
{
    let mut i: usize = 0;
    while i < data.len()
        invariant
            i <= data@.len(),
            out@ == old(out)@ + data@.take(i as int),
        decreases data@.len() - i,
    {
        let b = data[i];
        out.push(b);
        proof {
            assert(out@ =~= old(out)@ + data@.take(i + 1));
        }
        i += 1;
    }
    proof {
        assert(data@.take(data@.len() as int) =~= data@);
    }
}

/// Appends the eight little-endian bytes of `v`.
pub fn write_u64_le(out: &mut Vec<u8>, v: u64)
    ensures
        final(out)@ == old(out)@ + le64(v),
{
    out.push((v & 0xff) as u8);
    out.push(((v >> 8) & 0xff) as u8);
    out.push(((v >> 16) & 0xff) as u8);
    out.push(((v >> 24) & 0xff) as u8);
    out.push(((v >> 32) & 0xff) as u8);
    out.push(((v >> 40) & 0xff) as u8);
    out.push(((v >> 48) & 0xff) as u8);
    out.push(((v >> 56) & 0xff) as u8);
    proof {
        assert(out@ =~= old(out)@ + le64(v));
    }
}

/// Reads a little-endian u64 at byte offset `off`.
pub fn read_u64_le(d: &[u8], off: usize) -> (r: u64)
    requires
        off + 8 <= d@.len(),
    ensures
        r == le64_val(d@.subrange(off as int, off + 8)),
{
    let r = (d[off] as u64) | ((d[off + 1] as u64) << 8) | ((d[off + 2] as u64) << 16) | ((d[off
        + 3] as u64) << 24) | ((d[off + 4] as u64) << 32) | ((d[off + 5] as u64) << 40) | ((d[off
        + 6] as u64) << 48) | ((d[off + 7] as u64) << 56);
    proof {
        let b = d@.subrange(off as int, off + 8);
        assert(b[0] == d@[off as int] && b[1] == d@[off + 1] && b[2] == d@[off + 2] && b[3] == d@[off
            + 3] && b[4] == d@[off + 4] && b[5] == d@[off + 5] && b[6] == d@[off + 6] && b[7]
            == d@[off + 7]);
    }
    r
}

/// Appending a file extends the payload by exactly that file's bytes.
pub proof fn lemma_payload_push(files: Seq<Seq<u8>>, d: Seq<u8>)
    ensures
        payload_of(files.push(d)) == payload_of(files) + d,
{
    assert(files.push(d).drop_last() =~= files);
}

/// Taking one more file extends the payload of the prefix by that file.
pub proof fn lemma_payload_take_step(files: Seq<Seq<u8>>, i: int)
    requires
        0 <= i < files.len(),
    ensures
        payload_of(files.take(i + 1)) == payload_of(files.take(i)) + files[i],
{
    assert(files.take(i + 1).drop_last() =~= files.take(i));
    assert(files.take(i + 1).last() == files[i]);
}

proof fn lemma_ends_bytes_len(files: Seq<Seq<u8>>)
    ensures
        ends_bytes(files).len() == 8 * files.len(),
    decreases files.len(),
{
    if files.len() > 0 {
        lemma_ends_bytes_len(files.drop_last());
    }
}

/// File `i` spans `start_of(files, i) .. end_of(files, i)` in the payload,
/// and that span has exactly the file's length.
pub proof fn lemma_end_bounds(files: Seq<Seq<u8>>, i: int)
    requires
        0 <= i < files.len(),
    ensures
        0 <= start_of(files, i),
        start_of(files, i) + files[i].len() == end_of(files, i),
        end_of(files, i) <= payload_of(files).len(),
    decreases files.len(),
{
    lemma_payload_take_step(files, i);
    if i == files.len() - 1 {
        assert(files.take(i + 1) =~= files);
    } else {
        lemma_end_bounds(files.drop_last(), i);
        assert(files.drop_last().take(i + 1) =~= files.take(i + 1));
        if i > 0 {
            assert(files.drop_last().take(i) =~= files.take(i));
        }
    }
}

proof fn lemma_ends_bytes_at(files: Seq<Seq<u8>>, k: int)
    requires
        0 <= k < files.len(),
    ensures
        ends_bytes(files).subrange(8 * k, 8 * k + 8) == le64(end_of(files, k) as u64),
    decreases files.len(),
{
    lemma_ends_bytes_len(files.drop_last());
    if k == files.len() - 1 {
        assert(files.take(k + 1) =~= files);
        assert(ends_bytes(files).subrange(8 * k, 8 * k + 8) =~= le64(
            payload_of(files).len() as u64,
        ));
    } else {
        lemma_ends_bytes_at(files.drop_last(), k);
        assert(files.drop_last().take(k + 1) =~= files.take(k + 1));
        assert(ends_bytes(files).subrange(8 * k, 8 * k + 8) =~= ends_bytes(
            files.drop_last(),
        ).subrange(8 * k, 8 * k + 8));
    }
}

proof fn lemma_payload_segment(files: Seq<Seq<u8>>, i: int)
    requires
        0 <= i < files.len(),
    ensures
        payload_of(files).subrange(start_of(files, i), end_of(files, i)) == files[i],
    decreases files.len(),
{
    lemma_end_bounds(files, i);
    lemma_payload_take_step(files, i);
    if i == files.len() - 1 {
        assert(files.take(i + 1) =~= files);
        assert(files.take(i) =~= files.drop_last());
        assert(payload_of(files).subrange(start_of(files, i), end_of(files, i)) =~= files[i]);
    } else {
        lemma_payload_segment(files.drop_last(), i);
        assert(files.drop_last().take(i + 1) =~= files.take(i + 1));
        if i > 0 {
            assert(files.drop_last().take(i) =~= files.take(i));
        }
        lemma_end_bounds(files.drop_last(), i);
        assert(payload_of(files).subrange(start_of(files, i), end_of(files, i)) =~= payload_of(
            files.drop_last(),
        ).subrange(start_of(files.drop_last(), i), end_of(files.drop_last(), i)));
    }
}

/// Round trip: decoding the container built from `files` yields the file
/// count `files.len()`, a structurally valid container, and, for each `i`,
/// file contents equal to `files[i]` - whatever the checksum field holds.
pub proof fn lemma_decode_encode(files: Seq<Seq<u8>>, crc: u64, i: int)
    requires
        0 <= i < files.len(),
        total_of(files) <= u64::MAX,
    ensures
        file_count_of(spec_encode(files, crc)) == files.len(),
        container_valid(spec_encode(files, crc)),
        file_at(spec_encode(files, crc), i) == files[i],
{
    let d = spec_encode(files, crc);
    let n = files.len() as int;
    lemma_ends_bytes_len(files);
    assert(d.subrange(16, 24) =~= le64(files.len() as u64));
    lemma_le64_roundtrip(files.len() as u64);
    assert(file_count_of(d) == n);
    assert forall|k: int| 0 <= k < n implies #[trigger] end_at(d, k) == end_of(files, k) by {
        lemma_ends_bytes_at(files, k);
        lemma_end_bounds(files, k);
        assert(d.subrange(24 + 8 * k, 32 + 8 * k) =~= ends_bytes(files).subrange(
            8 * k,
            8 * k + 8,
        ));
        lemma_le64_roundtrip(end_of(files, k) as u64);
    }
    assert forall|k: int| 0 <= k < n - 1 implies #[trigger] end_at(d, k) <= end_at(d, k + 1) by {
        lemma_end_bounds(files, k + 1);
    }
    if n > 0 {
        lemma_end_bounds(files, n - 1);
    }
    lemma_payload_segment(files, i);
    lemma_end_bounds(files, i);
    if i > 0 {
        lemma_end_bounds(files, i - 1);
    }
    assert(d.subrange(
        24 + 8 * n + start_of(files, i),
        24 + 8 * n + end_of(files, i),
    ) =~= payload_of(files).subrange(start_of(files, i), end_of(files, i)));
}

/// The soundness check on a container built from `files` with checksum
/// field `crc` passes exactly when `crc` is the CRC-32 of the container's
/// tail: the built header length always matches, so the check turns on the
/// checksum alone. At least one file, each with at least one byte on
/// average, is required for the file-count bound the check applies.
pub proof fn lemma_encode_sound(files: Seq<Seq<u8>>, crc: u64)
    requires
        1 <= files.len(),
        files.len() <= payload_of(files).len(),
        total_of(files) <= u64::MAX,
    ensures
        spec_sound(spec_encode(files, crc), total_of(files) as u64) <==> crc == crc32_of(
            tail_of(files),
        ),
{
    let d = spec_encode(files, crc);
    let n = files.len() as int;
    lemma_ends_bytes_len(files);
    assert(d.subrange(0, 8) =~= le64(total_of(files) as u64));
    assert(d.subrange(8, 16) =~= le64(crc));
    assert(d.subrange(16, 24) =~= le64(files.len() as u64));
    assert(d.skip(16) =~= tail_of(files));
    lemma_le64_roundtrip(total_of(files) as u64);
    lemma_le64_roundtrip(crc);
    lemma_le64_roundtrip(files.len() as u64);
    let rep = total_of(files) as u64;
    assert(rep - 24 >= 9 * n);
    assert(n <= (rep - 24) as u64 / 9) by (nonlinear_arith)
        requires
            rep - 24 >= 9 * n && 0 <= n,
    ;
}

/// The host-side container builder: files are appended as raw bytes and
/// `build` emits the finished container.
pub struct Image {
    region_ends: Vec<u64>,
    buffer: Vec<u8>,
    files: Ghost<Seq<Seq<u8>>>,
}

impl Image {
    /// The contents of the files added so far.
    pub closed spec fn file_seq(self) -> Seq<Seq<u8>> {
        self.files@
    }

    /// Well-formedness: the buffer is the concatenated payload and the
    /// region-end table matches it.
    pub closed spec fn wf(self) -> bool {
        &&& self.buffer@ == payload_of(self.files@)
        &&& self.region_ends@.len() == self.files@.len()
        &&& forall|k: int|
            0 <= k < self.region_ends@.len() ==> (#[trigger] self.region_ends@[k]) as int == end_of(
                self.files@,
                k,
            )
    }

    /// An empty image.
    pub fn new() -> (r: Self)
        ensures
            r.wf(),
            r.file_seq() =~= Seq::<Seq<u8>>::empty(),
    {
        Image { region_ends: Vec::new(), buffer: Vec::new(), files: Ghost(Seq::empty()) }
    }

    /// How many files have been added.
    pub fn file_count(&self) -> (r: usize)
        requires
            self.wf(),
        ensures
            r == self.file_seq().len(),
    {
        self.region_ends.len()
    }

    /// How many payload bytes the files hold together.
    pub fn payload_len(&self) -> (r: usize)
        requires
            self.wf(),
        ensures
            r == payload_of(self.file_seq()).len(),
    {
        self.buffer.len()
    }

    /// Appends one file's contents.
    pub fn add_file(&mut self, data: &[u8])
        requires
            old(self).wf(),
        ensures
            final(self).wf(),
            final(self).file_seq() == old(self).file_seq().push(data@),
    {
        append_bytes(&mut self.buffer, data);
        let end = self.buffer.len() as u64;
        self.region_ends.push(end);
        proof {
            self.files@ = old(self).files@.push(data@);
            lemma_payload_push(old(self).files@, data@);
            assert forall|k: int|
                0 <= k < self.region_ends@.len() implies (#[trigger] self.region_ends@[k]) as int
                == end_of(self.files@, k) by {
                assert(self.files@.take(k + 1) =~= if k < self.region_ends@.len() - 1 {
                    old(self).files@.take(k + 1)
                } else {
                    self.files@
                });
            }
        }
    }

    /// Appends a string's bytes as one file.
    pub fn add_string(&mut self, s: &str)
        requires
            old(self).wf(),
        ensures
            final(self).wf(),
            final(self).file_seq() == old(self).file_seq().push(s.spec_bytes()),
    {
        self.add_file(s.as_bytes());
    }

    /// Emits the finished container: total length, CRC-32 of everything
    /// after the checksum field, file count, region-end table, payload.
    pub fn build(self) -> (r: Vec<u8>)
        requires
            self.wf(),
            total_of(self.file_seq()) <= u64::MAX,
            total_of(self.file_seq()) <= usize::MAX,
        ensures
            r@ == spec_encode(self.file_seq(), crc32_of(tail_of(self.file_seq()))),
    {
        proof {
            lemma_ends_bytes_len(self.files@);
        }
        let mut tail: Vec<u8> = Vec::new();
        write_u64_le(&mut tail, self.region_ends.len() as u64);
        let n = self.region_ends.len();
        let mut i: usize = 0;
        while i < n
            invariant
                self.wf(),
                total_of(self.file_seq()) <= usize::MAX,
                n == self.region_ends@.len(),
                i <= n,
                ends_bytes(self.files@).len() == 8 * n,
                tail@ == le64(n as u64) + ends_bytes(self.files@.take(i as int)),
            decreases n - i,
        {
            let e = self.region_ends[i];
            write_u64_le(&mut tail, e);
            proof {
                assert(self.files@.take(i + 1).drop_last() =~= self.files@.take(i as int));
                assert(payload_of(self.files@.take(i + 1)).len() == end_of(self.files@, i as int));
                assert(tail@ =~= le64(n as u64) + ends_bytes(self.files@.take(i + 1)));
            }
            i += 1;
        }
        proof {
            assert(self.files@.take(n as int) =~= self.files@);
        }
        append_bytes(&mut tail, self.buffer.as_slice());
        proof {
            assert(tail@ =~= tail_of(self.files@));
        }
        let c = crc32(tail.as_slice());
        let mut out: Vec<u8> = Vec::new();
        write_u64_le(&mut out, 16 + tail.len() as u64);
        write_u64_le(&mut out, c);
        append_bytes(&mut out, tail.as_slice());
        proof {
            assert(out@ =~= spec_encode(self.file_seq(), crc32_of(tail_of(self.file_seq()))));
        }
        out
    }
}

/// Reads the file count of a container.
pub fn get_file_count(d: &[u8]) -> (r: u64)
    requires
        d@.len() >= 24,
    ensures
        r == file_count_of(d@),
{
    read_u64_le(d, 16)
}

/// Copies the contents of file `index` out of a container.
#[verifier::rlimit(50)]
pub fn get_file_slice(d: &[u8], index: u64) -> (r: Vec<u8>)
    requires
        container_valid(d@),
        index < file_count_of(d@),
    ensures
        r@ == file_at(d@, index as int),
{
    let dl = d.len();
    let n64 = read_u64_le(d, 16);
    proof {
        assert(n64 == file_count_of(d@));
        assert(24 + 8 * (n64 as int) <= dl);
        lemma_end_chain(d@, index as int, n64 as int - 1);
        if index > 0 {
            lemma_end_chain(d@, (index as int) - 1, index as int);
        }
    }
    let n: usize = n64 as usize;
    let idx: usize = index as usize;
    proof {
        assert(24 + 8 * (idx as int) + 8 <= dl);
    }
    let end = read_u64_le(d, 24 + 8 * idx);
    let start = if idx == 0 {
        0u64
    } else {
        read_u64_le(d, 16 + 8 * idx)
    };
    proof {
        assert(end == end_at(d@, index as int));
        if index > 0 {
            assert(16 + 8 * (index as int) == 24 + 8 * ((index as int) - 1));
            assert(start == end_at(d@, (index as int) - 1));
        }
        assert(start <= end);
        assert(end as int <= d@.len() - 24 - 8 * (n as int));
    }
    let base: usize = 24 + 8 * n;
    let mut r: Vec<u8> = Vec::new();
    let mut j: usize = start as usize;
    while j < end as usize
        invariant
            container_valid(d@),
            index < file_count_of(d@),
            n == file_count_of(d@),
            dl == d@.len(),
            base == 24 + 8 * (n as int),
            start == start_at(d@, index as int),
            end == end_at(d@, index as int),
            start <= j <= end,
            base + end <= dl,
            r@ == d@.subrange(base + start, base + j),
        decreases end - j,
    {
        let b = d[base + j];
        r.push(b);
        proof {
            assert(r@ =~= d@.subrange(base as int + start, base as int + j + 1));
        }
        j += 1;
    }
    r
}

proof fn lemma_end_chain(d: Seq<u8>, a: int, b: int)
    requires
        container_valid(d),
        0 <= a <= b < file_count_of(d),
    ensures
        end_at(d, a) <= end_at(d, b),
    decreases b - a,
{
    if a < b {
        lemma_end_chain(d, a, b - 1);
    }
}

/// Checks the container against the boot info's reported length: the
/// header's total must match, the stored CRC-32 must match the bytes from
/// offset 16 on, and the file count must respect the size bound. Returns
/// whether all checks pass; the kernel halts when they do not.
pub fn assert_soundness(d: &[u8], reported_len: u64) -> (r: bool)
    ensures
        r == spec_sound(d@, reported_len),
{
    if d.len() < 33 {
        return false;
    }
    if reported_len != d.len() as u64 {
        return false;
    }
    let total = read_u64_le(d, 0);
    if total != reported_len {
        return false;
    }
    let stored = read_u64_le(d, 8);
    let tail = vstd::slice::slice_subrange(d, 16, d.len());
    let computed = crc32(tail);
    proof {
        assert(tail@ =~= d@.skip(16));
    }
    if stored != computed {
        return false;
    }
    let count = read_u64_le(d, 16);
    count <= (reported_len - 24) / 9
}

} // verus!

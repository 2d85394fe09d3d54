//! IQ recorder: recording formats, the recording stream and the recorder
//! state machine.

use vstd::prelude::*;
use crate::json::{RecorderMode, RecorderState, RecorderStateChange};

pub mod iqengine;

verus! {

broadcast use vstd::string::group_string_axioms;

/// Number of items in each chunk of the recording stream.
pub const CHUNK_ITEMS: usize = 65536;

/// Length of the timestamp that can prefix a recording file name, in the
/// format `YYYY-MM-DD-HH-MM-SS_`.
pub const TIMESTAMP_LEN: usize = 20;

/// Recorder sampling mode, seen as a format of the recording buffer.
#[derive(Debug, Copy, Clone, PartialEq, Eq, Hash, Structural)]
pub struct Mode(pub RecorderMode);

impl Mode {
    /// Bytes per IQ item in the recording buffer.
    pub open spec fn spec_input_bytes_per_item(self) -> int {
        match self.0 {
            RecorderMode::IQ8bit => 2,
            RecorderMode::IQ12bit => 3,
            RecorderMode::IQ16bit => 4,
        }
    }

    /// Bytes per IQ item in the recording file.
    pub open spec fn spec_output_bytes_per_item(self) -> int {
        match self.0 {
            RecorderMode::IQ8bit => 2,
            RecorderMode::IQ12bit | RecorderMode::IQ16bit => 4,
        }
    }

    /// Bytes per IQ item in the recording buffer: two 8-bit, 12-bit or
    /// 16-bit samples.
    pub fn input_bytes_per_item(&self) -> (r: usize)
        ensures
            r == self.spec_input_bytes_per_item(),
    {
        match self.0 {
            RecorderMode::IQ8bit => 2,
            RecorderMode::IQ12bit => 3,
            RecorderMode::IQ16bit => 4,
        }
    }

    /// Bytes per IQ item in the recording file: 12-bit samples are written
    /// as 16-bit samples.
    pub fn output_bytes_per_item(&self) -> (r: usize)
        ensures
            r == self.spec_output_bytes_per_item(),
    {
        match self.0 {
            RecorderMode::IQ8bit => 2,
            RecorderMode::IQ12bit | RecorderMode::IQ16bit => 4,
        }
    }
}

/// Bytes per IQ item: two samples of 8, 12 or 16 bits in the buffer, and
/// of 8 or 16 bits in the file (12-bit samples are widened to 16 bits).
pub proof fn lemma_item_sizes()
    ensures
        Mode(RecorderMode::IQ8bit).spec_input_bytes_per_item() * 8 == 2 * 8,
        Mode(RecorderMode::IQ12bit).spec_input_bytes_per_item() * 8 == 2 * 12,
        Mode(RecorderMode::IQ16bit).spec_input_bytes_per_item() * 8 == 2 * 16,
        Mode(RecorderMode::IQ8bit).spec_output_bytes_per_item() * 8 == 2 * 8,
        Mode(RecorderMode::IQ12bit).spec_output_bytes_per_item() * 8 == 2 * 16,
        Mode(RecorderMode::IQ16bit).spec_output_bytes_per_item() * 8 == 2 * 16,
{
}

/// Size and format of the data held in the recording buffer.
#[derive(Debug)]
pub struct RecordingBufferInfo {
    /// Bytes of recording in the buffer.
    pub size: usize,
    /// Format of the recording.
    pub mode: Mode,
    /// Bytes per IQ item in the buffer.
    pub input_bytes_per_item: usize,
    /// Bytes of a whole chunk of the recording stream.
    pub chunk_bytes: usize,
}

impl RecordingBufferInfo {
    /// The item sizes agree with the mode, and the size of the recording in
    /// the file fits in a `usize`.
    pub open spec fn wf(&self) -> bool {
        &&& self.input_bytes_per_item == self.mode.spec_input_bytes_per_item()
        &&& self.chunk_bytes == self.input_bytes_per_item * CHUNK_ITEMS
        &&& (self.size as int) / self.mode.spec_input_bytes_per_item() * self.mode.spec_output_bytes_per_item() <= usize::MAX
    }

    /// Number of whole IQ items in the buffer.
    pub open spec fn spec_num_items(&self) -> int {
        (self.size as int) / self.mode.spec_input_bytes_per_item()
    }

    /// Bytes of the recording once written to the file.
    pub open spec fn spec_output_size(&self) -> int {
        self.spec_num_items() * self.mode.spec_output_bytes_per_item()
    }

    /// Describes the recording held between `base_address` and
    /// `next_address` (where the recorder would write next), limited to
    /// `max_samples` items when that is given.
    pub fn new(mode: Mode, base_address: usize, next_address: usize, max_samples: Option<usize>) -> (r: RecordingBufferInfo)
        requires
            base_address <= next_address,
            max_samples matches Some(n) ==> n * mode.spec_input_bytes_per_item() <= usize::MAX,
            ((next_address - base_address) as int) / mode.spec_input_bytes_per_item() * mode.spec_output_bytes_per_item() <= usize::MAX,
        ensures
            r.wf(),
            r.mode == mode,
            r.size == match max_samples {
                Some(n) => if n * mode.spec_input_bytes_per_item() < next_address - base_address {
                    n * mode.spec_input_bytes_per_item()
                } else {
                    next_address - base_address
                },
                None => next_address - base_address,
            },
    {
        let input_bytes_per_item = mode.input_bytes_per_item();
        let size = next_address - base_address;
        let size = match max_samples {
            Some(items) => {
                let max_size = items * input_bytes_per_item;
                if max_size < size { max_size } else { size }
            },
            None => size,
        };
        proof {
            let ibpi = mode.spec_input_bytes_per_item();
            let obpi = mode.spec_output_bytes_per_item();
            let sz = size as int;
            let total = (next_address - base_address) as int;
            vstd::arithmetic::div_mod::lemma_div_is_ordered(sz, total, ibpi);
            assert(sz / ibpi * obpi <= total / ibpi * obpi) by (nonlinear_arith)
                requires
                    sz / ibpi <= total / ibpi,
                    obpi >= 0,
            ;
        }
        RecordingBufferInfo {
            size,
            mode,
            input_bytes_per_item,
            chunk_bytes: input_bytes_per_item * CHUNK_ITEMS,
        }
    }

    /// Bytes of the recording once written to the file.
    pub fn output_size(&self) -> (r: usize)
        requires
            self.wf(),
        ensures
            r == self.spec_output_size(),
    {
        self.size / self.input_bytes_per_item * self.mode.output_bytes_per_item()
    }

    /// Number of whole IQ items in the buffer.
    pub fn num_items(&self) -> (r: usize)
        requires
            self.wf(),
        ensures
            r == self.spec_num_items(),
    {
        self.size / self.input_bytes_per_item
    }

    /// The chunk of the recording stream that starts `offset` bytes into the
    /// buffer, as bytes in the buffer and items: a whole chunk while there is
    /// room for one, then the remaining whole items, then nothing.
    pub open spec fn spec_next_chunk(&self, offset: int) -> Option<(int, int)> {
        let remaining = self.size - offset;
        let ibpi = self.mode.spec_input_bytes_per_item();
        if remaining < ibpi {
            None
        } else if remaining >= ibpi * CHUNK_ITEMS {
            Some((ibpi * CHUNK_ITEMS, CHUNK_ITEMS as int))
        } else {
            Some(((remaining / ibpi) * ibpi, remaining / ibpi))
        }
    }

    /// Gives the next chunk of the recording stream, as bytes in the buffer
    /// and items, for a stream that has read `offset` bytes of the buffer.
    pub fn next_chunk(&self, offset: usize) -> (r: Option<(usize, usize)>)
        requires
            self.wf(),
            offset <= self.size,
        ensures
            r matches Some((b, i)) ==> self.spec_next_chunk(offset as int) == Some((b as int, i as int)),
            r is None <==> self.spec_next_chunk(offset as int) is None,
    {
        let remaining = self.size - offset;
        if remaining < self.input_bytes_per_item {
            return None;
        }
        if remaining >= self.chunk_bytes {
            Some((self.chunk_bytes, CHUNK_ITEMS))
        } else {
            let chunk_items = remaining / self.input_bytes_per_item;
            proof {
                vstd::arithmetic::div_mod::lemma_fundamental_div_mod(remaining as int, self.input_bytes_per_item as int);
                assert(chunk_items * self.input_bytes_per_item <= remaining) by (nonlinear_arith)
                    requires
                        remaining == self.input_bytes_per_item * chunk_items + remaining % self.input_bytes_per_item,
                        remaining % self.input_bytes_per_item >= 0,
                ;
            }
            Some((chunk_items * self.input_bytes_per_item, chunk_items))
        }
    }

    /// Bytes that a chunk of `chunk_items` items, `chunk_bytes` bytes long in
    /// the buffer, takes in the recording file.
    pub open spec fn spec_chunk_output_bytes(&self, chunk_bytes: int, chunk_items: int) -> int {
        match self.mode.0 {
            RecorderMode::IQ12bit => self.mode.spec_output_bytes_per_item() * chunk_items,
            _ => chunk_bytes,
        }
    }

    /// Bytes that a chunk takes in the recording file: 8-bit and 16-bit
    /// chunks are copied, 12-bit chunks are unpacked to 16 bits.
    pub fn chunk_output_bytes(&self, chunk_bytes: usize, chunk_items: usize) -> (r: usize)
        requires
            self.wf(),
            chunk_items <= CHUNK_ITEMS,
        ensures
            r == self.spec_chunk_output_bytes(chunk_bytes as int, chunk_items as int),
    {
        match self.mode.0 {
            RecorderMode::IQ12bit => self.mode.output_bytes_per_item() * chunk_items,
            _ => chunk_bytes,
        }
    }

    /// Items that the stream hands out from `offset` on.
    pub open spec fn streamed_items(&self, offset: int) -> int
        decreases self.size - offset,
    {
        match self.spec_next_chunk(offset) {
            None => 0,
            Some((bytes, items)) => if bytes > 0 {
                items + self.streamed_items(offset + bytes)
            } else {
                0
            },
        }
    }

    /// Number of chunks that the stream hands out from `offset` on.
    pub open spec fn streamed_chunks(&self, offset: int) -> int
        decreases self.size - offset,
    {
        match self.spec_next_chunk(offset) {
            None => 0,
            Some((bytes, items)) => if bytes > 0 {
                1 + self.streamed_chunks(offset + bytes)
            } else {
                0
            },
        }
    }

    /// Bytes that the stream writes to the recording file from `offset` on.
    pub open spec fn streamed_output_bytes(&self, offset: int) -> int
        decreases self.size - offset,
    {
        match self.spec_next_chunk(offset) {
            None => 0,
            Some((bytes, items)) => if bytes > 0 {
                self.spec_chunk_output_bytes(bytes, items) + self.streamed_output_bytes(offset + bytes)
            } else {
                0
            },
        }
    }
}

/// Streaming a recording from the start of the buffer hands out every whole
/// item of the buffer, in `ceil(items / CHUNK_ITEMS)` chunks, and writes
/// exactly `output_size()` bytes, the size that the recording file declares
/// for its data.
pub proof fn lemma_stream_covers_recording(info: &RecordingBufferInfo)
    requires
        info.wf(),
    ensures
        info.streamed_items(0) == info.spec_num_items(),
        info.streamed_chunks(0) == (info.spec_num_items() + CHUNK_ITEMS - 1) / (CHUNK_ITEMS as int),
        info.streamed_output_bytes(0) == info.spec_output_size(),
{
    lemma_stream_from(info, 0);
}

proof fn lemma_stream_from(info: &RecordingBufferInfo, offset: int)
    requires
        info.wf(),
        0 <= offset <= info.size,
    ensures
        info.streamed_items(offset) == (info.size - offset) / info.mode.spec_input_bytes_per_item(),
        info.streamed_output_bytes(offset) == (info.size - offset) / info.mode.spec_input_bytes_per_item()
            * info.mode.spec_output_bytes_per_item(),
        info.streamed_chunks(offset) == ((info.size - offset) / info.mode.spec_input_bytes_per_item() + CHUNK_ITEMS
            - 1) / (CHUNK_ITEMS as int),
    decreases info.size - offset,
{
    let c = CHUNK_ITEMS as int;
    let ibpi = info.mode.spec_input_bytes_per_item();
    let obpi = info.mode.spec_output_bytes_per_item();
    let remaining = info.size - offset;
    vstd::arithmetic::div_mod::lemma_fundamental_div_mod(remaining, ibpi);
    if remaining < ibpi {
        vstd::arithmetic::div_mod::lemma_small_div_converse(remaining, ibpi);
        vstd::arithmetic::div_mod::lemma_basic_div(remaining, ibpi);
        assert(remaining / ibpi == 0);
        vstd::arithmetic::div_mod::lemma_fundamental_div_mod_converse(c - 1, c, 0, c - 1);
    } else {
        let items = if remaining >= ibpi * CHUNK_ITEMS { CHUNK_ITEMS as int } else { remaining / ibpi };
        let bytes = items * ibpi;
        assert(info.spec_next_chunk(offset) == Some((bytes, items))) by {
            if remaining >= ibpi * CHUNK_ITEMS {
                assert(ibpi * CHUNK_ITEMS == CHUNK_ITEMS * ibpi);
            }
        }
        assert(items >= 1) by {
            vstd::arithmetic::div_mod::lemma_div_is_ordered(ibpi, remaining, ibpi);
            vstd::arithmetic::div_mod::lemma_div_by_self(ibpi);
        }
        assert(0 < bytes <= remaining) by (nonlinear_arith)
            requires
                bytes == items * ibpi,
                items >= 1,
                ibpi >= 2,
                remaining >= ibpi * CHUNK_ITEMS ==> items == CHUNK_ITEMS,
                remaining < ibpi * CHUNK_ITEMS ==> items == remaining / ibpi,
                remaining == ibpi * (remaining / ibpi) + remaining % ibpi,
                remaining % ibpi >= 0,
        ;
        lemma_stream_from(info, offset + bytes);
        assert((remaining - bytes) / ibpi == remaining / ibpi - items) by {
            assert(remaining - bytes == (remaining / ibpi - items) * ibpi + remaining % ibpi) by (nonlinear_arith)
                requires
                    bytes == items * ibpi,
                    remaining == ibpi * (remaining / ibpi) + remaining % ibpi,
            ;
            vstd::arithmetic::div_mod::lemma_fundamental_div_mod_converse(
                remaining - bytes,
                ibpi,
                remaining / ibpi - items,
                remaining % ibpi,
            );
        }
        assert(info.spec_chunk_output_bytes(bytes, items) == items * obpi);
        assert(items * obpi + (remaining / ibpi - items) * obpi == remaining / ibpi * obpi) by (nonlinear_arith);
        let r = remaining / ibpi;
        let r2 = r - items;
        if r >= c {
            assert(items == c) by {
                if remaining < ibpi * CHUNK_ITEMS {
                    assert(r * ibpi <= remaining) by (nonlinear_arith)
                        requires
                            remaining == ibpi * r + remaining % ibpi,
                            remaining % ibpi >= 0,
                    ;
                    assert(r < c) by (nonlinear_arith)
                        requires
                            r * ibpi <= remaining,
                            remaining < ibpi * c,
                            ibpi > 0,
                    ;
                }
            }
            vstd::arithmetic::div_mod::lemma_fundamental_div_mod(r2 + c - 1, c);
            vstd::arithmetic::div_mod::lemma_fundamental_div_mod_converse(
                r + c - 1,
                c,
                (r2 + c - 1) / c + 1,
                (r2 + c - 1) % c,
            );
        } else {
            assert(items == r) by {
                if remaining >= ibpi * CHUNK_ITEMS {
                    assert(r >= c) by (nonlinear_arith)
                        requires
                            remaining >= ibpi * c,
                            remaining == ibpi * r + remaining % ibpi,
                            0 <= remaining % ibpi < ibpi,
                            ibpi > 0,
                    ;
                }
            }
            vstd::arithmetic::div_mod::lemma_fundamental_div_mod_converse(c - 1, c, 0, c - 1);
            vstd::arithmetic::div_mod::lemma_fundamental_div_mod_converse(r + c - 1, c, 1, r - 1);
        }
    }
}

/// The stream of the recording file data: it walks over the recording buffer
/// chunk by chunk, handing out each chunk as it is in the recording file.
#[derive(Debug)]
pub struct RecordingStream {
    info: RecordingBufferInfo,
    offset: usize,
}

impl RecordingStream {
    /// Size and format of the recording that the stream walks over.
    pub closed spec fn info(&self) -> RecordingBufferInfo {
        self.info
    }

    /// Bytes of the buffer that the stream has handed out so far.
    pub closed spec fn offset(&self) -> int {
        self.offset as int
    }

    /// The recording is well formed and the stream has not gone past it.
    pub open spec fn wf(&self) -> bool {
        &&& self.info().wf()
        &&& 0 <= self.offset() <= self.info().size
    }

    /// A stream at the start of the recording.
    pub fn new(info: RecordingBufferInfo) -> (r: RecordingStream)
        requires
            info.wf(),
        ensures
            r.wf(),
            r.info() == info,
            r.offset() == 0,
    {
        RecordingStream { info, offset: 0 }
    }

    /// Hands out the next chunk of the recording held in `buffer`, as it is in
    /// the recording file, or `None` once the whole items of the recording
    /// have been handed out.
    ///
    /// A stream that gave `None` stays where it is, so it gives `None` again.
    pub fn poll_next(&mut self, buffer: &[u8]) -> (r: Option<Vec<u8>>)
        requires
            old(self).wf(),
            buffer@.len() >= old(self).info().size,
        ensures
            final(self).wf(),
            final(self).info() == old(self).info(),
            r is None <==> old(self).info().streamed_chunks(old(self).offset()) == 0,
            r is None ==> final(self).offset() == old(self).offset(),
            r matches Some(v) ==> {
                let info = old(self).info();
                let off = old(self).offset();
                let (bytes, items) = info.spec_next_chunk(off)->0;
                &&& final(self).offset() == off + bytes
                &&& v@ == file_data(info.mode, buffer@.subrange(off, off + bytes))
                &&& v@.len() == info.spec_chunk_output_bytes(bytes, items)
                &&& 0 < v@.len() <= CHUNK_ITEMS * info.mode.spec_output_bytes_per_item()
                &&& info.streamed_chunks(final(self).offset()) == info.streamed_chunks(off) - 1
                &&& info.streamed_items(final(self).offset()) == info.streamed_items(off) - items
                &&& info.streamed_output_bytes(final(self).offset()) == info.streamed_output_bytes(off) - v@.len()
            },
    {
        let ghost info = self.info;
        let ghost off = self.offset as int;
        match self.info.next_chunk(self.offset) {
            None => None,
            Some((chunk_bytes, chunk_items)) => {
                let ghost ibpi = info.mode.spec_input_bytes_per_item();
                let ghost remaining = info.size - off;
                proof {
                    vstd::arithmetic::div_mod::lemma_fundamental_div_mod(remaining, ibpi);
                    if remaining < ibpi * CHUNK_ITEMS {
                        assert(chunk_items >= 1) by {
                            vstd::arithmetic::div_mod::lemma_div_is_ordered(ibpi, remaining, ibpi);
                            vstd::arithmetic::div_mod::lemma_div_by_self(ibpi);
                        }
                    }
                    assert(chunk_bytes == chunk_items * ibpi) by {
                        if remaining >= ibpi * CHUNK_ITEMS {
                            assert(ibpi * CHUNK_ITEMS == CHUNK_ITEMS * ibpi);
                        }
                    }
                    assert(0 < chunk_bytes <= remaining) by (nonlinear_arith)
                        requires
                            chunk_bytes == chunk_items * ibpi,
                            chunk_items >= 1,
                            ibpi >= 2,
                            remaining >= ibpi * CHUNK_ITEMS ==> chunk_items == CHUNK_ITEMS,
                            remaining < ibpi * CHUNK_ITEMS ==> chunk_items == remaining / ibpi,
                            remaining == ibpi * (remaining / ibpi) + remaining % ibpi,
                            remaining % ibpi >= 0,
                    ;
                    assert(chunk_items <= CHUNK_ITEMS) by {
                        if remaining < ibpi * CHUNK_ITEMS {
                            assert(chunk_items * ibpi <= remaining);
                            assert(chunk_items < CHUNK_ITEMS) by (nonlinear_arith)
                                requires
                                    chunk_items * ibpi <= remaining,
                                    remaining < ibpi * CHUNK_ITEMS,
                                    ibpi > 0,
                            ;
                        }
                    }
                    lemma_chunk_file_data_len(info, buffer@.subrange(off, off + chunk_bytes), chunk_items as int);
                    lemma_stream_from(&info, off + chunk_bytes);
                    assert(info.spec_chunk_output_bytes(chunk_bytes as int, chunk_items as int)
                        <= CHUNK_ITEMS * info.mode.spec_output_bytes_per_item()) by (nonlinear_arith)
                        requires
                            chunk_items <= CHUNK_ITEMS,
                            chunk_bytes == chunk_items * ibpi,
                            info.mode.spec_output_bytes_per_item() >= ibpi,
                            info.spec_chunk_output_bytes(chunk_bytes as int, chunk_items as int) == chunk_bytes
                                || info.spec_chunk_output_bytes(chunk_bytes as int, chunk_items as int)
                                == info.mode.spec_output_bytes_per_item() * chunk_items,
                    ;
                    assert(info.spec_chunk_output_bytes(chunk_bytes as int, chunk_items as int) > 0) by (nonlinear_arith)
                        requires
                            chunk_items >= 1,
                            chunk_bytes > 0,
                            info.mode.spec_output_bytes_per_item() >= 2,
                            info.spec_chunk_output_bytes(chunk_bytes as int, chunk_items as int) == chunk_bytes
                                || info.spec_chunk_output_bytes(chunk_bytes as int, chunk_items as int)
                                == info.mode.spec_output_bytes_per_item() * chunk_items,
                    ;
                }
                let data = vstd::slice::slice_subrange(buffer, self.offset, self.offset + chunk_bytes);
                proof {
                    if info.mode.0 is IQ12bit {
                        vstd::arithmetic::div_mod::lemma_div_by_multiple(chunk_items as int, 3);
                    }
                }
                let out = to_file_data(self.info.mode, data);
                self.offset = self.offset + chunk_bytes;
                Some(out)
            },
        }
    }
}

/// The text fields of the recording metadata that a PATCH request can
/// change.
#[derive(Debug)]
pub struct RecordingText {
    /// Name of the recording file.
    pub filename: String,
    /// SigMF description of the recording.
    pub description: String,
    /// SigMF author of the recording.
    pub author: String,
}

impl RecordingText {
    /// Applies a PATCH request: each field that the request gives replaces
    /// the current one, and the others stay.
    pub fn patch(&mut self, filename: Option<String>, description: Option<String>, author: Option<String>)
        ensures
            final(self).filename@ == match filename {
                Some(f) => f@,
                None => old(self).filename@,
            },
            final(self).description@ == match description {
                Some(d) => d@,
                None => old(self).description@,
            },
            final(self).author@ == match author {
                Some(a) => a@,
                None => old(self).author@,
            },
    {
        if let Some(f) = filename {
            self.filename = f;
        }
        if let Some(d) = description {
            self.description = d;
        }
        if let Some(a) = author {
            self.author = a;
        }
    }
}

/// Rounds `n` up to a multiple of 512, the size of a tar block.
pub fn round_up_multiple_512(n: usize) -> (r: usize)
    requires
        n + 511 <= usize::MAX,
    ensures
        r == (n + 511) / 512 * 512,
{
    if n & 0x1ff != 0 {
        assert(n & 0x1ff == n % 512) by (bit_vector);
        assert(n >> 9 == n / 512) by (bit_vector);
        let q = (n >> 9) + 1;
        assert(q * 512 <= usize::MAX) by {
            vstd::arithmetic::div_mod::lemma_fundamental_div_mod(n as int, 512);
        }
        proof {
            vstd::arithmetic::power2::lemma2_to64();
            vstd::bits::lemma_usize_shl_is_mul(q, 9);
        }
        proof {
            vstd::arithmetic::div_mod::lemma_fundamental_div_mod(n as int, 512);
            vstd::arithmetic::div_mod::lemma_fundamental_div_mod_converse(
                n as int + 511,
                512,
                n as int / 512 + 1,
                n as int % 512 - 1,
            );
        }
        q << 9usize
    } else {
        assert(n & 0x1ff == n % 512) by (bit_vector);
        proof {
            vstd::arithmetic::div_mod::lemma_fundamental_div_mod(n as int, 512);
            vstd::arithmetic::div_mod::lemma_fundamental_div_mod_converse(n as int + 511, 512, n as int / 512, 511);
        }
        n
    }
}

/// Size of the tar file holding a SigMF recording: three 512-byte headers
/// (directory, metadata, data), the metadata and the data each padded to
/// 512 bytes, and the two 512-byte end blocks.
pub fn recording_tar_size(meta_len: usize, data_len: usize) -> (r: usize)
    requires
        3 * 512 + (meta_len + 511) / 512 * 512 + (data_len + 511) / 512 * 512 + 1024 <= usize::MAX,
    ensures
        r == 3 * 512 + (meta_len + 511) / 512 * 512 + (data_len + 511) / 512 * 512 + 1024,
{
    let tar_header_size: usize = 512;
    let num_headers: usize = 3;
    let tar_finish_size: usize = 1024;
    assert(meta_len + 511 <= usize::MAX && data_len + 511 <= usize::MAX) by {
        vstd::arithmetic::div_mod::lemma_fundamental_div_mod(meta_len as int + 511, 512);
        vstd::arithmetic::div_mod::lemma_fundamental_div_mod(data_len as int + 511, 512);
    }
    tar_header_size * num_headers + round_up_multiple_512(meta_len) + round_up_multiple_512(data_len) + tar_finish_size
}

/// The 16-bit two's complement pattern of a 12-bit two's complement value
/// `v` (0 <= v < 4096), sign-extended.
pub open spec fn sign_extend_12_to_16(v: int) -> int {
    if v >= 2048 {
        v + 0xf000
    } else {
        v
    }
}

/// Unpacks 12-bit IQ samples into 16-bit little-endian IQ samples.
///
/// Each group of three input bytes `x0 x1 x2` holds the 12-bit I sample
/// `x0 x1[7:4]` and the 12-bit Q sample `x1[3:0] x2`. Each is written to the
/// output as a sign-extended 16-bit little-endian word, I first.
pub fn unpack_12bit_to_16bit(output: &mut [u8], input: &[u8])
    requires
        old(output)@.len() >= 4 * (input@.len() / 3),
    ensures
        final(output)@.len() == old(output)@.len(),
        forall|j: int| 0 <= j < input@.len() / 3 ==> {
            let x0 = input@[3 * j] as int;
            let x1 = input@[3 * j + 1] as int;
            let x2 = input@[3 * j + 2] as int;
            &&& #[trigger] final(output)@[4 * j] as int + 256 * final(output)@[4 * j + 1] as int
                == sign_extend_12_to_16(16 * x0 + x1 / 16)
            &&& final(output)@[4 * j + 2] as int + 256 * final(output)@[4 * j + 3] as int
                == sign_extend_12_to_16(256 * (x1 % 16) + x2)
        },
        forall|k: int| 4 * (input@.len() / 3) <= k < old(output)@.len() ==> #[trigger] final(output)@[k] == old(output)@[k],
{
    let groups = input.len() / 3;
    let mut j: usize = 0;
    while j < groups
        invariant
            groups == input@.len() / 3,
            output@.len() == old(output)@.len(),
            old(output)@.len() >= 4 * groups,
            j <= groups,
            forall|i: int| 0 <= i < j ==> {
                let x0 = input@[3 * i] as int;
                let x1 = input@[3 * i + 1] as int;
                let x2 = input@[3 * i + 2] as int;
                &&& #[trigger] output@[4 * i] as int + 256 * output@[4 * i + 1] as int
                    == sign_extend_12_to_16(16 * x0 + x1 / 16)
                &&& output@[4 * i + 2] as int + 256 * output@[4 * i + 3] as int
                    == sign_extend_12_to_16(256 * (x1 % 16) + x2)
            },
            forall|k: int| 4 * j <= k < old(output)@.len() ==> #[trigger] output@[k] == old(output)@[k],
        decreases groups - j,
    {
        assert(3 * j + 2 < input.len() && 4 * j + 3 < output.len()) by (nonlinear_arith)
            requires
                j < groups,
                groups == input.len() / 3,
                output.len() >= 4 * groups,
        ;
        let x0 = input[3 * j];
        let x1 = input[3 * j + 1];
        let x2 = input[3 * j + 2];
        let b0: u8 = (x0 << 4) | (x1 >> 4);
        let s1: i8 = #[verifier::truncate] ((x0 & 0xf0) as i8);
        let b1: u8 = #[verifier::truncate] ((s1 >> 4) as u8);
        let b2: u8 = x2;
        let s3: i8 = #[verifier::truncate] ((x1 << 4) as i8);
        let b3: u8 = #[verifier::truncate] ((s3 >> 4) as u8);
        assert(b0 as int + 256 * b1 as int == sign_extend_12_to_16(16 * x0 + x1 / 16)) by (bit_vector)
            requires
                b0 == (x0 << 4) | (x1 >> 4),
                s1 == (x0 & 0xf0) as i8,
                b1 == (s1 >> 4) as u8,
        ;
        assert(b2 as int + 256 * b3 as int == sign_extend_12_to_16(256 * (x1 % 16) + x2)) by (bit_vector)
            requires
                b2 == x2,
                s3 == (x1 << 4) as i8,
                b3 == (s3 >> 4) as u8,
        ;
        let ghost before = output@;
        output[4 * j] = b0;
        output[4 * j + 1] = b1;
        output[4 * j + 2] = b2;
        output[4 * j + 3] = b3;
        proof {
            assert(forall|k: int| 0 <= k < output@.len() && (k < 4 * j || k >= 4 * j + 4) ==> output@[k] == before[k]);
            assert forall|i: int| 0 <= i < j + 1 implies {
                let x0 = input@[3 * i] as int;
                let x1 = input@[3 * i + 1] as int;
                let x2 = input@[3 * i + 2] as int;
                &&& #[trigger] output@[4 * i] as int + 256 * output@[4 * i + 1] as int
                    == sign_extend_12_to_16(16 * x0 + x1 / 16)
                &&& output@[4 * i + 2] as int + 256 * output@[4 * i + 3] as int
                    == sign_extend_12_to_16(256 * (x1 % 16) + x2)
            } by {
                if i < j {
                    assert(output@[4 * i] == before[4 * i]);
                    assert(output@[4 * i + 1] == before[4 * i + 1]);
                    assert(output@[4 * i + 2] == before[4 * i + 2]);
                    assert(output@[4 * i + 3] == before[4 * i + 3]);
                }
            }
        }
        j = j + 1;
    }
}

/// The 16-bit word that the `j`-th group of three bytes of 12-bit samples
/// unpacks to: the I sample, or the Q sample when `q` holds.
pub open spec fn unpacked_word(input: Seq<u8>, j: int, q: bool) -> int {
    let x0 = input[3 * j] as int;
    let x1 = input[3 * j + 1] as int;
    let x2 = input[3 * j + 2] as int;
    if q {
        sign_extend_12_to_16(256 * (x1 % 16) + x2)
    } else {
        sign_extend_12_to_16(16 * x0 + x1 / 16)
    }
}

/// The bytes that 12-bit IQ samples unpack to: for each group of three input
/// bytes, the I word then the Q word, each little-endian.
pub open spec fn unpacked_12bit(input: Seq<u8>) -> Seq<u8> {
    Seq::new(
        (4 * (input.len() / 3)) as nat,
        |k: int|
            {
                let j = k / 4;
                let r = k % 4;
                (if r == 0 {
                    unpacked_word(input, j, false) % 256
                } else if r == 1 {
                    unpacked_word(input, j, false) / 256
                } else if r == 2 {
                    unpacked_word(input, j, true) % 256
                } else {
                    unpacked_word(input, j, true) / 256
                }) as u8
            },
    )
}

/// Sign extension keeps the low 12 bits of a 12-bit pattern and copies its
/// sign bit into the top 4 bits of the 16-bit word.
pub proof fn lemma_sign_extend(v: int)
    requires
        0 <= v < 4096,
    ensures
        sign_extend_12_to_16(v) % 4096 == v,
        v < 2048 ==> sign_extend_12_to_16(v) / 4096 == 0,
        v >= 2048 ==> sign_extend_12_to_16(v) / 4096 == 15,
{
}

/// The unpacked 12-bit data holds, for each group `x0 x1 x2` of three input
/// bytes, the I sample `x0 x1[7:4]` and then the Q sample `x1[3:0] x2`, each
/// as a sign-extended little-endian 16-bit word.
pub proof fn lemma_unpacked_12bit_words(input: Seq<u8>, j: int)
    requires
        0 <= j < input.len() / 3,
    ensures
        ({
            let out = unpacked_12bit(input);
            let x0 = input[3 * j] as int;
            let x1 = input[3 * j + 1] as int;
            let x2 = input[3 * j + 2] as int;
            &&& out.len() == 4 * (input.len() / 3)
            &&& out[4 * j] + 256 * out[4 * j + 1] == sign_extend_12_to_16(16 * x0 + x1 / 16)
            &&& out[4 * j + 2] + 256 * out[4 * j + 3] == sign_extend_12_to_16(256 * (x1 % 16) + x2)
        }),
{
    let w_i = sign_extend_12_to_16(16 * input[3 * j] as int + input[3 * j + 1] as int / 16);
    let w_q = sign_extend_12_to_16(256 * (input[3 * j + 1] as int % 16) + input[3 * j + 2] as int);
    assert(0 <= w_i < 65536 && 0 <= w_q < 65536);
    assert(4 * j < 4 * (input.len() / 3)) by (nonlinear_arith)
        requires
            j < input.len() / 3,
    ;
    vstd::arithmetic::div_mod::lemma_fundamental_div_mod_converse(4 * j, 4, j, 0);
    vstd::arithmetic::div_mod::lemma_fundamental_div_mod_converse(4 * j + 1, 4, j, 1);
    vstd::arithmetic::div_mod::lemma_fundamental_div_mod_converse(4 * j + 2, 4, j, 2);
    vstd::arithmetic::div_mod::lemma_fundamental_div_mod_converse(4 * j + 3, 4, j, 3);
    vstd::arithmetic::div_mod::lemma_fundamental_div_mod(w_i, 256);
    vstd::arithmetic::div_mod::lemma_fundamental_div_mod(w_q, 256);
}

/// The bytes that a piece of the recording buffer takes in the recording
/// file: 8-bit and 16-bit samples are copied, 12-bit samples are unpacked to
/// 16 bits.
pub open spec fn file_data(mode: Mode, data: Seq<u8>) -> Seq<u8> {
    match mode.0 {
        RecorderMode::IQ12bit => unpacked_12bit(data),
        _ => data,
    }
}

proof fn lemma_word_bytes(lo: u8, hi: u8, w: int)
    requires
        lo as int + 256 * hi as int == w,
    ensures
        lo as int == w % 256,
        hi as int == w / 256,
{
    vstd::arithmetic::div_mod::lemma_fundamental_div_mod_converse(w, 256, hi as int, lo as int);
}

/// A chunk of whole items, converted for the recording file, takes the bytes
/// that the recording stream counts for it.
pub proof fn lemma_chunk_file_data_len(info: RecordingBufferInfo, data: Seq<u8>, items: int)
    requires
        info.wf(),
        items >= 0,
        data.len() == items * info.mode.spec_input_bytes_per_item(),
    ensures
        file_data(info.mode, data).len() == info.spec_chunk_output_bytes(data.len() as int, items),
{
    if info.mode.0 is IQ12bit {
        vstd::arithmetic::div_mod::lemma_div_by_multiple(items, 3);
    }
}

/// Converts a piece of the recording buffer to the bytes that it takes in the
/// recording file (see [`file_data`]).
pub fn to_file_data(mode: Mode, data: &[u8]) -> (r: Vec<u8>)
    requires
        mode.0 is IQ12bit ==> 4 * (data@.len() / 3) <= usize::MAX,
    ensures
        r@ == file_data(mode, data@),
{
    match mode.0 {
        RecorderMode::IQ12bit => {
            let n = 4 * (data.len() / 3);
            let mut out: Vec<u8> = vec![0u8; n];
            unpack_12bit_to_16bit(out.as_mut_slice(), data);
            proof {
                let groups: int = data@.len() as int / 3;
                let expected = unpacked_12bit(data@);
                assert forall|k: int| 0 <= k < out@.len() implies out@[k] == expected[k] by {
                    let j = k / 4;
                    vstd::arithmetic::div_mod::lemma_fundamental_div_mod(k, 4);
                    assert(0 <= j < groups) by {
                        assert(k / 4 < groups) by (nonlinear_arith)
                            requires
                                k == 4 * (k / 4) + k % 4,
                                0 <= k % 4 < 4,
                                k < 4 * groups,
                        ;
                    }
                    let b0 = out@[4 * j];
                    let b1 = out@[4 * j + 1];
                    let b2 = out@[4 * j + 2];
                    let b3 = out@[4 * j + 3];
                    lemma_word_bytes(b0, b1, unpacked_word(data@, j, false));
                    lemma_word_bytes(b2, b3, unpacked_word(data@, j, true));
                }
                assert(out@ =~= expected);
            }
            out
        },
        _ => vstd::slice::slice_to_vec(data),
    }
}

/// Whether character `c` may stand at position `j` of a file name timestamp
/// `YYYY-MM-DD-HH-MM-SS_`.
pub open spec fn timestamp_char_ok(j: int, c: char) -> bool {
    if j == 19 {
        c == '_'
    } else if j == 4 || j == 7 || j == 10 || j == 13 || j == 16 {
        c == '-'
    } else {
        '0' <= c <= '9'
    }
}

/// Whether a file name begins with a timestamp `YYYY-MM-DD-HH-MM-SS_`.
pub open spec fn spec_begins_with_timestamp(s: Seq<char>) -> bool {
    &&& s.len() >= TIMESTAMP_LEN
    &&& forall|j: int| 0 <= j < TIMESTAMP_LEN ==> timestamp_char_ok(j, #[trigger] s[j])
}

/// Whether the first `TIMESTAMP_LEN` bytes of a string end on a character
/// boundary (or the string is shorter than that), so that they can be sliced
/// off.
pub open spec fn timestamp_prefix_sliceable(s: Seq<char>) -> bool {
    let bytes = vstd::utf8::encode_utf8(s);
    bytes.len() >= TIMESTAMP_LEN ==> vstd::utf8::is_char_boundary(bytes, TIMESTAMP_LEN as int)
}

/// Checks whether a file name begins with a timestamp `YYYY-MM-DD-HH-MM-SS_`.
pub fn begins_with_timestamp(s: &str) -> (r: bool)
    requires
        timestamp_prefix_sliceable(s@),
    ensures
        r == spec_begins_with_timestamp(s@),
{
    let len = s.unicode_len();
    if len < TIMESTAMP_LEN {
        return false;
    }
    let mut j: usize = 0;
    while j < TIMESTAMP_LEN
        invariant
            len == s@.len(),
            len >= TIMESTAMP_LEN,
            j <= TIMESTAMP_LEN,
            forall|i: int| 0 <= i < j ==> timestamp_char_ok(i, #[trigger] s@[i]),
        decreases TIMESTAMP_LEN - j,
    {
        let c = s.get_char(j);
        let ok = if j == 19 {
            c == '_'
        } else if j == 4 || j == 7 || j == 10 || j == 13 || j == 16 {
            c == '-'
        } else {
            '0' <= c && c <= '9'
        };
        if !ok {
            return false;
        }
        j = j + 1;
    }
    true
}

/// The file name that results from putting `timestamp` and `_` in front of
/// `filename`, after removing a timestamp that `filename` already begins with.
pub open spec fn spec_filename_with_timestamp(filename: Seq<char>, timestamp: Seq<char>) -> Seq<char> {
    let rest = if spec_begins_with_timestamp(filename) {
        filename.skip(TIMESTAMP_LEN as int)
    } else {
        filename
    };
    timestamp + seq!['_'] + rest
}

/// Puts the recording start time (already formatted as
/// `YYYY-MM-DD-HH-MM-SS`) in front of a recording file name, replacing the
/// timestamp that the name already begins with, if any.
pub fn prepend_timestamp_to_filename(filename: &mut String, timestamp: &str)
    requires
        timestamp_prefix_sliceable(old(filename)@),
    ensures
        final(filename)@ == spec_filename_with_timestamp(old(filename)@, timestamp@),
{
    let name: &str = filename.as_str();
    let mut out = String::from_str(timestamp);
    out.append("_");
    proof {
        reveal_strlit("_");
    }
    if begins_with_timestamp(name) {
        let len = name.unicode_len();
        let rest = name.substring_char(TIMESTAMP_LEN, len);
        out.append(rest);
        assert(rest@ =~= name@.skip(TIMESTAMP_LEN as int));
    } else {
        out.append(name);
    }
    assert(out@ =~= spec_filename_with_timestamp(name@, timestamp@));
    *filename = out;
}

/// Whether a text is a timestamp `YYYY-MM-DD-HH-MM-SS` (without the `_`).
pub open spec fn is_timestamp(t: Seq<char>) -> bool {
    &&& t.len() == TIMESTAMP_LEN - 1
    &&& forall|j: int| 0 <= j < TIMESTAMP_LEN - 1 ==> timestamp_char_ok(j, #[trigger] t[j])
}

/// Putting a timestamp in front of a file name that already carries one
/// replaces the old timestamp: the result is the same as putting the new
/// timestamp in front of the name without any timestamp.
pub proof fn lemma_timestamp_replaced(filename: Seq<char>, t1: Seq<char>, t2: Seq<char>)
    requires
        is_timestamp(t1),
    ensures
        spec_filename_with_timestamp(spec_filename_with_timestamp(filename, t1), t2)
            == spec_filename_with_timestamp(filename, t2),
{
    let once = spec_filename_with_timestamp(filename, t1);
    let rest = if spec_begins_with_timestamp(filename) {
        filename.skip(TIMESTAMP_LEN as int)
    } else {
        filename
    };
    assert(once == t1 + seq!['_'] + rest);
    assert forall|j: int| 0 <= j < TIMESTAMP_LEN implies timestamp_char_ok(j, #[trigger] once[j]) by {
        if j < TIMESTAMP_LEN - 1 {
            assert(once[j] == t1[j]);
        } else {
            assert(once[j] == '_');
        }
    }
    assert(spec_begins_with_timestamp(once));
    assert(once.skip(TIMESTAMP_LEN as int) =~= rest);
}

/// What the recorder is told to do.
#[derive(Debug, Copy, Clone, PartialEq, Eq, Hash, Structural)]
pub enum RecorderEvent {
    /// A PATCH request, with or without a state change command.
    Patch(Option<RecorderStateChange>),
    /// The IP core reported the end of a recording.
    Finished,
}

/// What the recorder does in response to an event.
#[derive(Debug, Copy, Clone, PartialEq, Eq, Hash, Structural)]
pub enum RecorderAction {
    /// Take the recording buffer, start the IP core recorder and fill in the
    /// metadata of the new recording.
    Start,
    /// Tell the IP core recorder to stop.
    Stop,
    /// Refuse to start: the buffer of the previous recording is being read.
    RefuseBufferInUse,
    /// Release the recording buffer and cancel the stop timer.
    Finish,
    /// Nothing.
    Nothing,
}

/// The recorder state machine: the state after an event, and the action that
/// goes with it. `buffer_in_use` tells whether the buffer of the previous
/// recording is being read, which keeps a new recording from starting.
pub open spec fn spec_recorder_step(state: RecorderState, event: RecorderEvent, buffer_in_use: bool) -> (RecorderState, RecorderAction) {
    match event {
        RecorderEvent::Patch(Some(RecorderStateChange::Start)) => if state == RecorderState::Stopped {
            if buffer_in_use {
                (state, RecorderAction::RefuseBufferInUse)
            } else {
                (RecorderState::Running, RecorderAction::Start)
            }
        } else {
            (state, RecorderAction::Nothing)
        },
        RecorderEvent::Patch(Some(RecorderStateChange::Stop)) => if state == RecorderState::Running {
            (RecorderState::Stopping, RecorderAction::Stop)
        } else {
            (state, RecorderAction::Nothing)
        },
        RecorderEvent::Patch(None) => (state, RecorderAction::Nothing),
        RecorderEvent::Finished => (RecorderState::Stopped, RecorderAction::Finish),
    }
}

/// Decides how the recorder reacts to an event: a start command only starts a
/// stopped recorder whose buffer is free (and is refused while the buffer is
/// being read), a stop command only stops a running one, and the end of a
/// recording always leaves the recorder stopped.
pub fn recorder_step(state: RecorderState, event: RecorderEvent, buffer_in_use: bool) -> (r: (RecorderState, RecorderAction))
    ensures
        r == spec_recorder_step(state, event, buffer_in_use),
{
    match event {
        RecorderEvent::Patch(Some(RecorderStateChange::Start)) => {
            if state == RecorderState::Stopped {
                if buffer_in_use {
                    (state, RecorderAction::RefuseBufferInUse)
                } else {
                    (RecorderState::Running, RecorderAction::Start)
                }
            } else {
                (state, RecorderAction::Nothing)
            }
        },
        RecorderEvent::Patch(Some(RecorderStateChange::Stop)) => {
            if state == RecorderState::Running {
                (RecorderState::Stopping, RecorderAction::Stop)
            } else {
                (state, RecorderAction::Nothing)
            }
        },
        RecorderEvent::Patch(None) => (state, RecorderAction::Nothing),
        RecorderEvent::Finished => (RecorderState::Stopped, RecorderAction::Finish),
    }
}

/// A recording is started only from the stopped state and with the buffer
/// free, the recorder is told to stop only while running, no event leads from
/// the stopped state to the stopping state, and the state changes only with an
/// action.
pub proof fn lemma_recorder_transitions(state: RecorderState, event: RecorderEvent, buffer_in_use: bool)
    ensures
        ({
            let (next, action) = spec_recorder_step(state, event, buffer_in_use);
            &&& action == RecorderAction::Start ==> state == RecorderState::Stopped && !buffer_in_use
                && next == RecorderState::Running
            &&& action == RecorderAction::Stop ==> state == RecorderState::Running && next == RecorderState::Stopping
            &&& state == RecorderState::Stopped ==> next != RecorderState::Stopping
            &&& (action == RecorderAction::Nothing || action == RecorderAction::RefuseBufferInUse) ==> next == state
        }),
{
}

} // verus!

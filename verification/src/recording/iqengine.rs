//! Reads of the recording for the IQEngine viewer: blocks of IQ data chosen
//! by the viewer, and the evenly spaced blocks of the minimap.
//!
//! The functions take the bytes of the recording buffer and hand out the
//! bytes of the requested blocks as they are in the recording file.

use vstd::prelude::*;
use crate::recording::{file_data, to_file_data, RecordingBufferInfo};

verus! {

/// Items in each block of the minimap.
pub const MINIMAP_FFT_SIZE: usize = 64;

/// Number of blocks of the minimap.
pub const MINIMAP_NUM_FFTS: usize = 1000;

/// Byte where block `idx` of `block_size` items starts in the buffer.
pub open spec fn block_start(info: RecordingBufferInfo, idx: int, block_size: int) -> int {
    idx * block_size * info.mode.spec_input_bytes_per_item()
}

/// Bytes of a block of `block_size` items in the buffer.
pub open spec fn block_len(info: RecordingBufferInfo, block_size: int) -> int {
    block_size * info.mode.spec_input_bytes_per_item()
}

/// Whether block `idx` can be read: it ends before the end of the recording
/// (a block that ends exactly at the end of the recording is refused too).
pub open spec fn block_in_bounds(info: RecordingBufferInfo, idx: int, block_size: int) -> bool {
    block_start(info, idx, block_size) + block_len(info, block_size) < info.size
}

/// Whether the end of block `idx` can be computed in a `usize`.
pub open spec fn block_fits(info: RecordingBufferInfo, idx: int, block_size: int) -> bool {
    block_start(info, idx, block_size) + block_len(info, block_size) <= usize::MAX
}

/// The bytes of the blocks `idxs`, one after the other, as they are in the
/// recording file.
pub open spec fn blocks_data(info: RecordingBufferInfo, buffer: Seq<u8>, idxs: Seq<usize>, block_size: int) -> Seq<u8>
    decreases idxs.len(),
{
    if idxs.len() == 0 {
        Seq::empty()
    } else {
        let last = idxs.last() as int;
        let start = block_start(info, last, block_size);
        blocks_data(info, buffer, idxs.drop_last(), block_size) + file_data(
            info.mode,
            buffer.subrange(start, start + block_len(info, block_size)),
        )
    }
}

proof fn lemma_blocks_data_push(info: RecordingBufferInfo, buffer: Seq<u8>, idxs: Seq<usize>, idx: usize, block_size: int)
    ensures
        blocks_data(info, buffer, idxs.push(idx), block_size) == blocks_data(info, buffer, idxs, block_size)
            + file_data(
            info.mode,
            buffer.subrange(block_start(info, idx as int, block_size), block_start(info, idx as int, block_size) + block_len(info, block_size)),
        ),
{
    assert(idxs.push(idx).drop_last() =~= idxs);
}

/// Reads the blocks `block_indexes` of `block_size` items of the recording
/// held in `buffer`, and gives their bytes as they are in the recording file,
/// one block after the other; `None` when a block does not end before the
/// end of the recording.
pub fn get_iq_data(info: &RecordingBufferInfo, buffer: &[u8], block_indexes: &[usize], block_size: usize) -> (r: Option<Vec<u8>>)
    requires
        info.wf(),
        buffer@.len() >= info.size,
        block_indexes@.len() * block_size * info.mode.spec_output_bytes_per_item() <= usize::MAX,
        forall|i: int|
            0 <= i < block_indexes@.len() && (forall|k: int| 0 <= k < i ==> block_in_bounds(*info, #[trigger] block_indexes@[k] as int, block_size as int))
                ==> block_fits(*info, #[trigger] block_indexes@[i] as int, block_size as int),
    ensures
        r is None <==> exists|i: int| 0 <= i < block_indexes@.len() && !block_in_bounds(*info, #[trigger] block_indexes@[i] as int, block_size as int),
        r matches Some(v) ==> v@ == blocks_data(*info, buffer@, block_indexes@, block_size as int),
{
    let bytes_per_input = info.input_bytes_per_item;
    let mut bytes: Vec<u8> = Vec::new();
    let mut i: usize = 0;
    while i < block_indexes.len()
        invariant
            info.wf(),
            bytes_per_input == info.mode.spec_input_bytes_per_item(),
            buffer@.len() >= info.size,
            i <= block_indexes@.len(),
            forall|i: int|
                0 <= i < block_indexes@.len() && (forall|k: int| 0 <= k < i ==> block_in_bounds(*info, #[trigger] block_indexes@[k] as int, block_size as int))
                    ==> block_fits(*info, #[trigger] block_indexes@[i] as int, block_size as int),
            forall|k: int| 0 <= k < i ==> block_in_bounds(*info, #[trigger] block_indexes@[k] as int, block_size as int),
            bytes@ == blocks_data(*info, buffer@, block_indexes@.subrange(0, i as int), block_size as int),
        decreases block_indexes@.len() - i,
    {
        let idx = block_indexes[i];
        assert(block_fits(*info, block_indexes@[i as int] as int, block_size as int));
        let ghost ibpi = bytes_per_input as int;
        assert(0 <= idx * block_size <= idx * block_size * ibpi) by (nonlinear_arith)
            requires
                ibpi >= 2,
        ;
        assert(0 <= block_size <= block_size * ibpi) by (nonlinear_arith)
            requires
                ibpi >= 2,
        ;
        assert(idx * block_size * ibpi >= 0 && block_size * ibpi >= 0) by (nonlinear_arith)
            requires
                ibpi >= 2,
        ;
        let start = idx * block_size * bytes_per_input;
        let len = block_size * bytes_per_input;
        if start + len >= info.size {
            return None;
        }
        let data = vstd::slice::slice_subrange(buffer, start, start + len);
        assert(info.mode.0 is IQ12bit ==> 4 * (data@.len() / 3) <= usize::MAX) by {
            if info.mode.0 is IQ12bit {
                assert(data@.len() / 3 == block_size) by {
                    vstd::arithmetic::div_mod::lemma_div_by_multiple(block_size as int, 3);
                }
                assert(block_size * 4 <= block_indexes@.len() * block_size * 4) by (nonlinear_arith)
                    requires
                        block_indexes@.len() >= 1,
                ;
            }
        }
        let mut block = to_file_data(info.mode, data);
        proof {
            lemma_blocks_data_push(*info, buffer@, block_indexes@.subrange(0, i as int), idx, block_size as int);
            assert(block_indexes@.subrange(0, i as int).push(idx) =~= block_indexes@.subrange(0, i as int + 1));
        }
        bytes.append(&mut block);
        i = i + 1;
    }
    assert(block_indexes@.subrange(0, i as int) =~= block_indexes@);
    Some(bytes)
}

/// Index of the `j`-th block of the minimap of a recording of `total`
/// blocks: the blocks are spread evenly over the recording.
pub open spec fn minimap_index(total: int, j: int) -> int {
    j * total / MINIMAP_NUM_FFTS as int
}

/// The blocks read for the minimap of a recording of `total` blocks.
pub open spec fn minimap_indexes(total: int) -> Seq<usize> {
    Seq::new(MINIMAP_NUM_FFTS as nat, |j: int| minimap_index(total, j) as usize)
}

/// Reads the minimap of the recording held in `buffer`: blocks of
/// [`MINIMAP_FFT_SIZE`] items, [`MINIMAP_NUM_FFTS`] of them, spread evenly
/// over the recording, as by [`get_iq_data`].
pub fn get_minimap_data(info: &RecordingBufferInfo, buffer: &[u8]) -> (r: Option<Vec<u8>>)
    requires
        info.wf(),
        buffer@.len() >= info.size,
        (MINIMAP_NUM_FFTS - 1) * (info.spec_num_items() / MINIMAP_FFT_SIZE as int) <= usize::MAX,
    ensures
        r is None <==> exists|j: int|
            0 <= j < MINIMAP_NUM_FFTS && !block_in_bounds(
                *info,
                #[trigger] minimap_index(info.spec_num_items() / MINIMAP_FFT_SIZE as int, j),
                MINIMAP_FFT_SIZE as int,
            ),
        r matches Some(v) ==> v@ == blocks_data(
            *info,
            buffer@,
            minimap_indexes(info.spec_num_items() / MINIMAP_FFT_SIZE as int),
            MINIMAP_FFT_SIZE as int,
        ),
{
    let total_ffts = info.num_items() / MINIMAP_FFT_SIZE;
    let ghost ibpi = info.mode.spec_input_bytes_per_item();
    let mut idxs: Vec<usize> = Vec::new();
    let mut j: usize = 0;
    while j < MINIMAP_NUM_FFTS
        invariant
            info.wf(),
            ibpi == info.mode.spec_input_bytes_per_item(),
            total_ffts == info.spec_num_items() / MINIMAP_FFT_SIZE as int,
            (MINIMAP_NUM_FFTS - 1) * total_ffts <= usize::MAX,
            j <= MINIMAP_NUM_FFTS,
            idxs@.len() == j,
            forall|k: int| 0 <= k < j ==> #[trigger] idxs@[k] == minimap_index(total_ffts as int, k),
            forall|k: int| 0 <= k < j ==> idxs@[k] < total_ffts || (total_ffts == 0 && idxs@[k] == 0),
        decreases MINIMAP_NUM_FFTS - j,
    {
        assert(j * total_ffts <= (MINIMAP_NUM_FFTS - 1) * total_ffts) by (nonlinear_arith)
            requires
                j < MINIMAP_NUM_FFTS,
        ;
        let idx = j * total_ffts / MINIMAP_NUM_FFTS;
        assert(idx < total_ffts || (total_ffts == 0 && idx == 0)) by (nonlinear_arith)
            requires
                idx == j * total_ffts / 1000,
                j < 1000,
        ;
        idxs.push(idx);
        j = j + 1;
    }
    proof {
        let total = total_ffts as int;
        assert(idxs@ =~= minimap_indexes(total));
        assert(total * 64 * ibpi <= info.size) by (nonlinear_arith)
            requires
                total == info.spec_num_items() / 64,
                info.spec_num_items() == info.size as int / ibpi,
                ibpi >= 2,
        ;
        assert forall|i: int| 0 <= i < idxs@.len() implies block_fits(*info, #[trigger] idxs@[i] as int, MINIMAP_FFT_SIZE as int) by {
            let idx = idxs@[i] as int;
            assert(idx * 64 * ibpi + 64 * ibpi <= usize::MAX) by (nonlinear_arith)
                requires
                    idx < total || (total == 0 && idx == 0),
                    total * 64 * ibpi <= usize::MAX,
                    2 <= ibpi <= 4,
            ;
        }
        assert(idxs@.len() * MINIMAP_FFT_SIZE * info.mode.spec_output_bytes_per_item() <= usize::MAX);
    }
    let r = get_iq_data(info, buffer, idxs.as_slice(), MINIMAP_FFT_SIZE);
    proof {
        let total = total_ffts as int;
        if r is None {
            let i = choose|i: int| 0 <= i < idxs@.len() && !block_in_bounds(*info, #[trigger] idxs@[i] as int, MINIMAP_FFT_SIZE as int);
            assert(idxs@[i] as int == minimap_index(total, i));
        } else {
            assert forall|j: int| 0 <= j < MINIMAP_NUM_FFTS implies block_in_bounds(
                *info,
                #[trigger] minimap_index(total, j),
                MINIMAP_FFT_SIZE as int,
            ) by {
                assert(idxs@[j] as int == minimap_index(total, j));
            }
        }
    }
    r
}

/// A block can be read exactly when the byte after its last one, at
/// `(idx + 1) * block_size` items, lies strictly inside the recording.
pub proof fn lemma_block_in_bounds(info: RecordingBufferInfo, idx: int, block_size: int)
    ensures
        block_in_bounds(info, idx, block_size) <==> (idx + 1) * block_size * info.mode.spec_input_bytes_per_item()
            < info.size,
{
    assert((idx + 1) * block_size * info.mode.spec_input_bytes_per_item() == idx * block_size
        * info.mode.spec_input_bytes_per_item() + block_size * info.mode.spec_input_bytes_per_item()) by (nonlinear_arith);
}

} // verus!

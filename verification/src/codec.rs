use vstd::prelude::*;

use vstd::bytes::lemma_auto_spec_u32_to_from_le_bytes;
use vstd::bytes::lemma_auto_spec_u64_to_from_le_bytes;
use vstd::bytes::spec_u32_from_le_bytes;
use vstd::bytes::spec_u32_to_le_bytes;
use vstd::bytes::spec_u64_from_le_bytes;
use vstd::bytes::spec_u64_to_le_bytes;
use vstd::bytes::u32_from_le_bytes;
use vstd::bytes::u32_to_le_bytes;
use vstd::bytes::u64_from_le_bytes;
use vstd::bytes::u64_to_le_bytes;
use vstd::slice::slice_subrange;

use crate::dims::Dimensions;

verus! {

/// The fixed output layout: three 32-bit little-endian size fields (each size
/// fits a signed 32-bit field, so the two's-complement and unsigned byte
/// patterns coincide) followed by one 64-bit little-endian word per cell, in
/// row-major order with x fastest; no magic, no version tag, no padding.
pub open spec fn spec_encode(d: Dimensions, cells: Seq<u64>) -> Seq<u8> {
    spec_header(d) + spec_cells_bytes(cells)
}

/// The 12-byte header: the three sizes, little-endian.
pub open spec fn spec_header(d: Dimensions) -> Seq<u8> {
    spec_u32_to_le_bytes(d.x as u32) + spec_u32_to_le_bytes(d.y as u32) + spec_u32_to_le_bytes(
        d.z as u32,
    )
}

/// The cell payload: each 64-bit word in order, little-endian.
pub open spec fn spec_cells_bytes(cells: Seq<u64>) -> Seq<u8>
    decreases cells.len(),
{
    if cells.len() == 0 {
        Seq::empty()
    } else {
        spec_cells_bytes(cells.drop_last()) + spec_u64_to_le_bytes(cells.last())
    }
}

/// The payload takes exactly eight bytes per cell.
pub proof fn lemma_cells_bytes_len(cells: Seq<u64>)
    ensures
        spec_cells_bytes(cells).len() == 8 * cells.len(),
    decreases cells.len(),
{
    lemma_auto_spec_u64_to_from_le_bytes();
    if cells.len() > 0 {
        lemma_cells_bytes_len(cells.drop_last());
    }
}

/// Each cell's word stands at its own eight-byte slot of the payload.
pub proof fn lemma_cells_bytes_slot(cells: Seq<u64>, i: int)
    requires
        0 <= i < cells.len(),
    ensures
        spec_cells_bytes(cells).subrange(8 * i, 8 * i + 8) == spec_u64_to_le_bytes(cells[i]),
    decreases cells.len(),
{
    lemma_auto_spec_u64_to_from_le_bytes();
    lemma_cells_bytes_len(cells.drop_last());
    if i == cells.len() - 1 {
        assert(spec_cells_bytes(cells).subrange(8 * i, 8 * i + 8) =~= spec_u64_to_le_bytes(
            cells.last(),
        ));
    } else {
        lemma_cells_bytes_slot(cells.drop_last(), i);
        assert(spec_cells_bytes(cells).subrange(8 * i, 8 * i + 8) =~= spec_cells_bytes(
            cells.drop_last(),
        ).subrange(8 * i, 8 * i + 8));
        assert(cells.drop_last()[i] == cells[i]);
    }
}

/// Unfolds `spec_cells_bytes` one cell at a time along a prefix.
proof fn lemma_cells_bytes_take_step(cells: Seq<u64>, i: int)
    requires
        0 <= i < cells.len(),
    ensures
        spec_cells_bytes(cells.take(i + 1)) == spec_cells_bytes(cells.take(i))
            + spec_u64_to_le_bytes(cells[i]),
{
    assert(cells.take(i + 1).drop_last() =~= cells.take(i));
    assert(cells.take(i + 1).last() == cells[i]);
}

/// Serializes the shape and the dense array into the fixed little-endian
/// layout, in one pass and in row-major order.
pub fn encode(d: &Dimensions, cells: &Vec<u64>) -> (r: Vec<u8>)
    requires
        d.wf(),
        cells@.len() == d.spec_total(),
        12 + 8 * cells@.len() <= usize::MAX,
    ensures
        r@ == spec_encode(*d, cells@),
        r@.len() == 12 + 8 * cells@.len(),
{
    proof {
        lemma_auto_spec_u32_to_from_le_bytes();
        lemma_cells_bytes_len(cells@);
    }
    let mut out: Vec<u8> = u32_to_le_bytes(d.x as u32);
    let mut ybytes = u32_to_le_bytes(d.y as u32);
    let mut zbytes = u32_to_le_bytes(d.z as u32);
    out.append(&mut ybytes);
    out.append(&mut zbytes);
    assert(out@ =~= spec_header(*d));
    let mut i: usize = 0;
    while i < cells.len()
        invariant
            0 <= i <= cells@.len(),
            out@ == spec_header(*d) + spec_cells_bytes(cells@.take(i as int)),
            out@.len() == 12 + 8 * i,
            12 + 8 * cells@.len() <= usize::MAX,
        decreases cells@.len() - i,
    {
        proof {
            lemma_auto_spec_u64_to_from_le_bytes();
            lemma_cells_bytes_take_step(cells@, i as int);
            lemma_cells_bytes_len(cells@.take(i as int));
        }
        let mut word = u64_to_le_bytes(cells[i]);
        out.append(&mut word);
        proof {
            assert(out@ =~= spec_header(*d) + spec_cells_bytes(cells@.take(i + 1)));
        }
        i = i + 1;
    }
    proof {
        assert(cells@.take(cells@.len() as int) =~= cells@);
    }
    out
}

/// What a well-formed output file holds: the shape read from the header and
/// one word per cell, or nothing when the bytes are not an encoding (too
/// short, a size field above the signed 32-bit range, or a payload whose
/// length disagrees with the header).
pub open spec fn spec_decode(bytes: Seq<u8>) -> Option<(Dimensions, Seq<u64>)> {
    if bytes.len() < 12 {
        None
    } else {
        let sx = spec_u32_from_le_bytes(bytes.subrange(0, 4));
        let sy = spec_u32_from_le_bytes(bytes.subrange(4, 8));
        let sz = spec_u32_from_le_bytes(bytes.subrange(8, 12));
        if sx > i32::MAX || sy > i32::MAX || sz > i32::MAX {
            None
        } else {
            let d = Dimensions { x: sx as usize, y: sy as usize, z: sz as usize };
            if !d.wf() || bytes.len() != 12 + 8 * d.spec_total() {
                None
            } else {
                Some(
                    (
                        d,
                        Seq::new(
                            d.spec_total() as nat,
                            |i: int|
                                spec_u64_from_le_bytes(
                                    bytes.subrange(12 + 8 * i, 12 + 8 * i + 8),
                                ),
                        ),
                    ),
                )
            }
        }
    }
}

/// Reads an output file back: the symmetric decoder for `encode`.
pub fn decode(bytes: &Vec<u8>) -> (r: Option<(Dimensions, Vec<u64>)>)
    ensures
        match r {
            Some((d, cells)) => spec_decode(bytes@) == Some((d, cells@)),
            None => spec_decode(bytes@) is None,
        },
{
    if bytes.len() < 12 {
        return None;
    }
    let sx = u32_from_le_bytes(slice_subrange(bytes.as_slice(), 0, 4));
    let sy = u32_from_le_bytes(slice_subrange(bytes.as_slice(), 4, 8));
    let sz = u32_from_le_bytes(slice_subrange(bytes.as_slice(), 8, 12));
    let max_size: u32 = 0x7fff_ffff;
    if sx > max_size || sy > max_size || sz > max_size {
        return None;
    }
    let d = match Dimensions::new(sx as usize, sy as usize, sz as usize) {
        Ok(d) => d,
        Err(_) => {
            return None;
        },
    };
    let total = d.total();
    if total > (usize::MAX - 12) / 8 {
        return None;
    }
    if bytes.len() != 12 + 8 * total {
        return None;
    }
    let mut cells: Vec<u64> = Vec::new();
    let mut i: usize = 0;
    let ghost expected = Seq::new(
        d.spec_total() as nat,
        |i: int| spec_u64_from_le_bytes(bytes@.subrange(12 + 8 * i, 12 + 8 * i + 8)),
    );
    while i < total
        invariant
            0 <= i <= total,
            total == d.spec_total(),
            12 + 8 * total <= usize::MAX,
            bytes@.len() == 12 + 8 * total,
            cells@ =~= expected.take(i as int),
            expected == Seq::new(
                d.spec_total() as nat,
                |i: int| spec_u64_from_le_bytes(bytes@.subrange(12 + 8 * i, 12 + 8 * i + 8)),
            ),
        decreases total - i,
    {
        let word = u64_from_le_bytes(slice_subrange(bytes.as_slice(), 12 + 8 * i, 12 + 8 * i + 8));
        cells.push(word);
        proof {
            assert(cells@ =~= expected.take(i + 1));
        }
        i = i + 1;
    }
    proof {
        assert(cells@ =~= expected);
        assert(spec_decode(bytes@) == Some((d, expected)));
    }
    Some((d, cells))
}

/// Writing a dense array and reading it back is the identity: the decoder
/// recovers the shape and every cell's bit pattern exactly.
pub proof fn lemma_decode_encode(d: Dimensions, cells: Seq<u64>)
    requires
        d.wf(),
        cells.len() == d.spec_total(),
    ensures
        spec_decode(spec_encode(d, cells)) == Some((d, cells)),
{
    lemma_auto_spec_u32_to_from_le_bytes();
    lemma_auto_spec_u64_to_from_le_bytes();
    lemma_cells_bytes_len(cells);
    let bytes = spec_encode(d, cells);
    assert(bytes.len() == 12 + 8 * cells.len());
    assert(bytes.subrange(0, 4) =~= spec_u32_to_le_bytes(d.x as u32));
    assert(bytes.subrange(4, 8) =~= spec_u32_to_le_bytes(d.y as u32));
    assert(bytes.subrange(8, 12) =~= spec_u32_to_le_bytes(d.z as u32));
    assert(spec_u32_from_le_bytes(bytes.subrange(0, 4)) == d.x as u32);
    let d2 = Dimensions {
        x: (d.x as u32) as usize,
        y: (d.y as u32) as usize,
        z: (d.z as u32) as usize,
    };
    assert(d2 == d);
    assert forall|i: int| 0 <= i < cells.len() implies spec_u64_from_le_bytes(
        bytes.subrange(12 + 8 * i, 12 + 8 * i + 8),
    ) == cells[i] by {
        lemma_cells_bytes_slot(cells, i);
        assert(bytes.subrange(12 + 8 * i, 12 + 8 * i + 8) =~= spec_cells_bytes(cells).subrange(
            8 * i,
            8 * i + 8,
        ));
    }
    assert(Seq::new(
        d.spec_total() as nat,
        |i: int| spec_u64_from_le_bytes(bytes.subrange(12 + 8 * i, 12 + 8 * i + 8)),
    ) =~= cells);
}

} // verus!

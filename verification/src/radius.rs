//! Paper `/radiusrender` takes a block center and a block radius; the chunks to
//! render are the square of chunks around the center chunk (`n >> 4`).
use vstd::prelude::*;
use vstd::arithmetic::div_mod::{lemma_fundamental_div_mod_converse_div, lemma_fundamental_div_mod_converse_mod};
use crate::wire::ChunkCoordinate;

verus! {

#[derive(Debug, Clone, Copy, Eq, PartialEq)]
pub enum RadiusError {
    InvalidRadius,
}

/// The chunk that holds block coordinate `block` (floor division by 16).
pub open spec fn chunk_of(block: i32) -> int {
    block as int / 16
}

/// Converts a block coordinate to the coordinate of its chunk.
pub fn block_to_chunk(block: i32) -> (c: i32)
    ensures
        c == chunk_of(block),
{
    let c = block >> 4;
    assert(block >> 4 == block as int / 16) by (bit_vector);
    c
}

/// The `i`-th chunk of the square of half-width `r` around `(cx, cz)`, in
/// x-major order.
pub open spec fn square_chunk(cx: int, cz: int, r: int, i: int) -> ChunkCoordinate {
    let n = 2 * r + 1;
    ChunkCoordinate { x: (cx - r + i / n) as i32, z: (cz - r + i % n) as i32 }
}

/// Converts a Paper block-space radius command into the chunks the server plugin
/// schedules: every chunk within the square around the center chunk, row by row.
pub fn chunks_from_blocks(
    center_block_x: i32,
    center_block_z: i32,
    radius_blocks: i32,
) -> (r: Result<Vec<ChunkCoordinate>, RadiusError>)
    ensures
        radius_blocks < 1 ==> r == Err::<Vec<ChunkCoordinate>, RadiusError>(RadiusError::InvalidRadius),
        radius_blocks >= 1 ==> (r matches Ok(chunks) && {
            let rad = chunk_of(radius_blocks);
            let n = 2 * rad + 1;
            &&& chunks@.len() == n * n
            &&& forall|i: int| 0 <= i < n * n ==> #[trigger] chunks@[i]
                == square_chunk(chunk_of(center_block_x), chunk_of(center_block_z), rad, i)
        }),
{
    if radius_blocks < 1 {
        return Err(RadiusError::InvalidRadius);
    }
    let radius = block_to_chunk(radius_blocks);
    let center_x = block_to_chunk(center_block_x);
    let center_z = block_to_chunk(center_block_z);
    let ghost n: int = 2 * radius + 1;
    let mut chunks: Vec<ChunkCoordinate> = Vec::new();
    let mut x: i32 = center_x - radius;
    while x <= center_x + radius
        invariant
            0 <= radius < 134217728,
            -134217728 <= center_x < 134217728,
            -134217728 <= center_z < 134217728,
            n == 2 * radius + 1,
            center_x - radius <= x <= center_x + radius + 1,
            chunks@.len() == (x - (center_x - radius)) * n,
            forall|i: int| 0 <= i < chunks@.len() ==> #[trigger] chunks@[i]
                == square_chunk(center_x as int, center_z as int, radius as int, i),
        decreases center_x + radius - x + 1,
    {
        let ghost a: int = x - (center_x - radius);
        let mut z: i32 = center_z - radius;
        while z <= center_z + radius
            invariant
                0 <= radius < 134217728,
                -134217728 <= center_x < 134217728,
                -134217728 <= center_z < 134217728,
                n == 2 * radius + 1,
                a == x - (center_x - radius),
                0 <= a < n,
                center_z - radius <= z <= center_z + radius + 1,
                chunks@.len() == a * n + (z - (center_z - radius)),
                forall|i: int| 0 <= i < chunks@.len() ==> #[trigger] chunks@[i]
                    == square_chunk(center_x as int, center_z as int, radius as int, i),
            decreases center_z + radius - z + 1,
        {
            let ghost b: int = z - (center_z - radius);
            proof {
                lemma_fundamental_div_mod_converse_div(a * n + b, n, a, b);
                lemma_fundamental_div_mod_converse_mod(a * n + b, n, a, b);
            }
            chunks.push(ChunkCoordinate { x, z });
            z = z + 1;
        }
        proof {
            assert((a + 1) * n == a * n + n) by (nonlinear_arith);
        }
        x = x + 1;
    }
    Ok(chunks)
}

} // verus!

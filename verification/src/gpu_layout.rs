//! Sizes and bytes of the textures the palette pipeline uploads.

use vstd::prelude::*;

verus! {

/// Output images the pipeline cycles through: two per frame of the batch
/// (a batch has at least one frame).
pub fn output_image_count(batch_size: usize) -> (n: usize)
    requires
        batch_size <= usize::MAX / 2,
    ensures
        n == 2 * (if batch_size < 1 {
            1
        } else {
            batch_size
        }),
{
    let batch = if batch_size < 1 {
        1
    } else {
        batch_size
    };
    batch * 2
}

/// The palette texture: one RGBA texel per color, or one opaque black texel
/// for an empty palette; its width is the texel count (as `u32`).
pub fn palette_texture_data(colors: &[[u8; 4]]) -> (r: (u32, Vec<u8>))
    ensures
        colors@.len() == 0 ==> r.0 == 1 && r.1@ == seq![0u8, 0u8, 0u8, 255u8],
        colors@.len() > 0 ==> r.0 == colors@.len() as u32 && r.1@.len() == 4 * colors@.len() && forall|
            k: int,
            c: int,
        | 0 <= k < colors@.len() && 0 <= c < 4 ==> #[trigger] r.1@[4 * k + c] == colors@[k][c],
{
    let n = colors.len();
    if n == 0 {
        let data = vec![0u8, 0u8, 0u8, 255u8];
        assert(data@ =~= seq![0u8, 0u8, 0u8, 255u8]);
        return (1, data);
    }
    let mut data: Vec<u8> = Vec::new();
    let mut k: usize = 0;
    while k < n
        invariant
            k <= n,
            n == colors@.len(),
            data@.len() == 4 * k,
            forall|j: int, c: int| 0 <= j < k && 0 <= c < 4 ==> #[trigger] data@[4 * j + c] == colors@[j][c],
        decreases n - k,
    {
        let color = colors[k];
        data.push(color[0]);
        data.push(color[1]);
        data.push(color[2]);
        data.push(color[3]);
        assert forall|j: int, c: int| 0 <= j < k + 1 && 0 <= c < 4 implies #[trigger] data@[4 * j + c]
            == colors@[j][c] by {
            if j == k {
                assert(data@[4 * j + c] == color[c]);
            }
        }
        k = k + 1;
    }
    #[verifier::truncate]
    let width = n as u32;
    (width, data)
}

/// Rows of the 4096-texel-wide lookup texture for `entry_count` entries: at
/// least 4096 (as `u32`).
pub fn lookup_texture_height(entry_count: usize) -> (h: u32)
    ensures
        h == (if entry_count / 4096 < 4096 {
            4096
        } else {
            entry_count / 4096
        }) as u32,
{
    let rows = entry_count / 4096;
    let rows = if rows < 4096 {
        4096
    } else {
        rows
    };
    #[verifier::truncate]
    let h = rows as u32;
    h
}

fn contains_id(ids: &[u64], id: u64) -> (b: bool)
    ensures
        b == ids@.contains(id),
{
    let mut j: usize = 0;
    while j < ids.len()
        invariant
            j <= ids@.len(),
            forall|w: int| 0 <= w < j ==> ids@[w] != id,
        decreases ids@.len() - j,
    {
        if ids[j] == id {
            assert(ids@[j as int] == id);
            return true;
        }
        j = j + 1;
    }
    false
}

/// The first of the `entities` from position `start` on, going round, that
/// has no readback pending, searching `count` positions: its position.
pub open spec fn first_free_from(entities: Seq<u64>, pending: Seq<u64>, start: int, count: int) -> Option<int>
    decreases count,
{
    if count <= 0 || entities.len() == 0 {
        None
    } else if !pending.contains(entities[start % entities.len() as int]) {
        Some(start % entities.len() as int)
    } else {
        first_free_from(entities, pending, start + 1, count - 1)
    }
}

/// Picks the readback entity to use next, going round the entities from
/// `next_readback_entity` and passing over those with a pending readback.
/// The cursor ends just past the entity picked; when every entity is
/// pending it has gone once round.
pub fn next_available_readback_entity(entities: &[u64], next_readback_entity: &mut usize, pending: &[u64]) -> (r:
    Option<u64>)
    ensures
        entities@.len() == 0 ==> r is None && *final(next_readback_entity) == *old(next_readback_entity),
        entities@.len() > 0 ==> match first_free_from(
            entities@,
            pending@,
            *old(next_readback_entity) as int,
            entities@.len() as int,
        ) {
            Some(i) => r == Some(entities@[i]) && *final(next_readback_entity) as int == (i + 1) % (entities@.len() as int),
            None => r is None && *final(next_readback_entity) as int == (*old(next_readback_entity) as int) % (entities@.len() as int),
        },
{
    let n = entities.len();
    if n == 0 {
        return None;
    }
    let ghost start = *next_readback_entity as int;
    let mut k: usize = 0;
    while k < n
        invariant
            n == entities@.len(),
            n > 0,
            k <= n,
            start == *old(next_readback_entity) as int,
            k == 0 ==> *next_readback_entity as int == start,
            k > 0 ==> *next_readback_entity as int == (start + k) % (n as int),
            first_free_from(entities@, pending@, start, n as int) == first_free_from(
                entities@,
                pending@,
                start + k,
                n - k,
            ),
        decreases n - k,
    {
        let index = *next_readback_entity % n;
        proof {
            if k > 0 {
                assert((start + k) % (n as int) % (n as int) == (start + k) % (n as int)) by (nonlinear_arith)
                    requires
                        n > 0,
                ;
            }
        }
        assert(index as int == (start + k) % (n as int));
        *next_readback_entity = (index + 1) % n;
        proof {
            assert((index + 1) % (n as int) == (start + k + 1) % (n as int)) by (nonlinear_arith)
                requires
                    index as int == (start + k) % (n as int),
                    n > 0,
            ;
        }
        let entity = entities[index];
        let found = contains_id(pending, entity);
        if !found {
            assert(entities@[index as int] == entity);
            assert(first_free_from(entities@, pending@, start + k, n - k) == Some(index as int));
            return Some(entity);
        }
        k = k + 1;
    }
    proof {
        assert((start + n) % (n as int) == start % (n as int)) by (nonlinear_arith)
            requires
                n > 0,
        ;
    }
    None
}

} // verus!

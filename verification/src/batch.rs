//! Grouping texture references into contiguous batches: the run-length
//! decomposition a renderer uses to issue one draw call per texture over its
//! sorted instance list.

use vstd::prelude::*;

use crate::texture::TextureId;

verus! {

/// One contiguous run of equal texture identifiers: the entries at indices
/// `start <= i < end` all reference `texture_id`.
#[derive(Clone, Copy, Debug, PartialEq, Eq, Structural)]
pub struct TextureBatch {
    pub texture_id: TextureId,
    pub start: usize,
    pub end: usize,
}

/// Whether a batch list is exactly the maximal-run decomposition of `ids`:
/// the batches are non-empty, consecutive, cover the whole list, agree with
/// it on every index, and adjacent batches reference different textures.
pub open spec fn batches_cover(batches: Seq<TextureBatch>, ids: Seq<TextureId>) -> bool {
    &&& ids.len() == 0 ==> batches.len() == 0
    &&& ids.len() > 0 ==> batches.len() > 0 && batches[0].start == 0
        && batches[batches.len() - 1].end == ids.len()
    &&& forall|k: int|
        0 <= k < batches.len() ==> (#[trigger] batches[k]).start < batches[k].end <= ids.len()
    &&& forall|k: int| 0 < k < batches.len() ==> (#[trigger] batches[k]).start == batches[k - 1].end
    &&& forall|k: int, i: int|
        #![trigger batches[k], ids[i]]
        0 <= k < batches.len() && batches[k].start <= i < batches[k].end ==> ids[i] == batches[
            k
        ].texture_id
    &&& forall|k: int|
        0 < k < batches.len() ==> (#[trigger] batches[k]).texture_id != batches[k - 1].texture_id
}

/// Decomposes a list of texture identifiers (as a renderer sees them on its
/// sorted instance list) into its maximal contiguous runs, in order.
#[verifier::loop_isolation(false)]
pub fn texture_batches(ids: &Vec<TextureId>) -> (batches: Vec<TextureBatch>)
    ensures
        batches_cover(batches@, ids@),
{
    let mut batches: Vec<TextureBatch> = Vec::new();
    if ids.len() == 0 {
        return batches;
    }
    let mut start: usize = 0;
    let mut current: TextureId = ids[0];
    let mut i: usize = 1;
    while i < ids.len()
        invariant
            1 <= i <= ids@.len(),
            start < i,
            current == ids@[start as int],
            batches@.len() == 0 <==> start == 0,
            batches@.len() > 0 ==> batches@[0].start == 0 && batches@[batches@.len() - 1].end
                == start && batches@[batches@.len() - 1].texture_id != current,
            forall|k: int|
                0 <= k < batches@.len() ==> (#[trigger] batches@[k]).start < batches@[k].end
                    <= start,
            forall|k: int|
                0 < k < batches@.len() ==> (#[trigger] batches@[k]).start == batches@[k - 1].end,
            forall|k: int, n: int|
                #![trigger batches@[k], ids@[n]]
                0 <= k < batches@.len() && batches@[k].start <= n < batches@[k].end ==> ids@[n]
                    == batches@[k].texture_id,
            forall|k: int|
                0 < k < batches@.len() ==> (#[trigger] batches@[k]).texture_id != batches@[
                    k - 1
                ].texture_id,
            forall|n: int| start <= n < i ==> ids@[n] == current,
        decreases ids@.len() - i,
    {
        let id = ids[i];
        if id != current {
            batches.push(TextureBatch { texture_id: current, start, end: i });
            start = i;
            current = id;
        }
        i = i + 1;
    }
    batches.push(TextureBatch { texture_id: current, start, end: ids.len() });
    batches
}

} // verus!

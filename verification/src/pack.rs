//! Packing: lay a manifest's assets into one contiguous byte buffer, in
//! manifest order, writing each asset's offset back into the manifest.

use vstd::prelude::*;
use crate::asset::Asset;
use crate::asset::AssetView;
use crate::asset::views_of;

verus! {

/// Every asset in the sequence holds its raw bytes.
pub open spec fn all_have_data(v: Seq<AssetView>) -> bool {
    forall|i: int| 0 <= i < v.len() ==> v[i].data is Some
}

/// Every asset in the sequence is well formed.
pub open spec fn all_wf(v: Seq<AssetView>) -> bool {
    forall|i: int| 0 <= i < v.len() ==> v[i].wf()
}

/// The offset of asset `i` within the packed chunk: the sum of the sizes of
/// the assets before it.
pub open spec fn offset_at(v: Seq<AssetView>, i: int) -> nat
    decreases i,
{
    if i <= 0 {
        0
    } else {
        offset_at(v, i - 1) + v[i - 1].size
    }
}

/// The bytes of the chunk built from the first `i` assets: their data,
/// back to back, with no padding and no gaps.
pub open spec fn chunk_prefix(v: Seq<AssetView>, i: int) -> Seq<u8>
    decreases i,
{
    if i <= 0 {
        Seq::empty()
    } else {
        chunk_prefix(v, i - 1) + v[i - 1].data.unwrap()
    }
}

/// The bytes of the chunk packed from the whole sequence.
pub open spec fn chunk_bytes(v: Seq<AssetView>) -> Seq<u8> {
    chunk_prefix(v, v.len() as int)
}

/// The sequence after packing has visited the first `k` assets: each of
/// those has its offset assigned; the rest are untouched.
pub open spec fn packed_views(v: Seq<AssetView>, k: int) -> Seq<AssetView> {
    v.map(
        |i: int, a: AssetView|
            if i < k {
                AssetView { location: offset_at(v, i), ..a }
            } else {
                a
            },
    )
}

/// The index of the first asset without data (the sequence's length if every
/// asset has data), scanning from `i`.
pub open spec fn first_missing_from(v: Seq<AssetView>, i: int) -> int
    decreases v.len() - i,
{
    if i < 0 || i >= v.len() {
        i
    } else if v[i].data is None {
        i
    } else {
        first_missing_from(v, i + 1)
    }
}

/// The index of the first asset without data.
pub open spec fn first_missing(v: Seq<AssetView>) -> int {
    first_missing_from(v, 0)
}

proof fn lemma_first_missing_scan(v: Seq<AssetView>, k: int)
    requires
        0 <= k <= v.len(),
        forall|i: int| 0 <= i < k ==> v[i].data is Some,
    ensures
        first_missing(v) == first_missing_from(v, k),
    decreases k,
{
    if k > 0 {
        lemma_first_missing_scan(v, k - 1);
        assert(v[k - 1].data is Some);
        assert(first_missing_from(v, k - 1) == first_missing_from(v, k));
    }
}

/// Pack the assets into one contiguous chunk, in order, assigning each
/// asset's offset as it is visited. If every asset holds data, the result is
/// the concatenation of all their bytes and every offset is the sum of the
/// sizes before it. If some asset's data is absent, packing fails: the
/// result is empty, and only the assets up to and including the first one
/// without data have had their offsets assigned.
pub fn pack_assets(assets: &mut Vec<Asset>) -> (chunk: Vec<u8>)
    requires
        all_wf(views_of(old(assets)@)),
    ensures
        all_have_data(views_of(old(assets)@)) ==> {
            &&& chunk@ == chunk_bytes(views_of(old(assets)@))
            &&& views_of(final(assets)@) == packed_views(
                views_of(old(assets)@),
                old(assets)@.len() as int,
            )
        },
        !all_have_data(views_of(old(assets)@)) ==> {
            &&& chunk@ == Seq::<u8>::empty()
            &&& views_of(final(assets)@) == packed_views(
                views_of(old(assets)@),
                first_missing(views_of(old(assets)@)) + 1,
            )
        },
{
    let ghost v = views_of(old(assets)@);
    proof {
        assert(packed_views(v, 0) =~= v);
    }
    let mut chunk: Vec<u8> = Vec::new();
    let mut offset: usize = 0;
    let mut idx: usize = 0;
    while idx < assets.len()
        invariant
            all_wf(v),
            v == views_of(old(assets)@),
            0 <= idx <= assets@.len(),
            assets@.len() == v.len(),
            views_of(assets@) == packed_views(v, idx as int),
            forall|i: int| 0 <= i < idx ==> v[i].data is Some,
            chunk@ == chunk_prefix(v, idx as int),
            offset as nat == offset_at(v, idx as int),
            offset == chunk@.len(),
        decreases assets@.len() - idx,
    {
        assert(views_of(assets@)[idx as int] == v[idx as int]);
        let a = vstd::std_specs::vec::vec_index_mut(assets, idx);
        a.set_chunk_location(offset);
        proof {
            let cur = assets@;
            assert forall|i: int| 0 <= i < cur.len() implies views_of(cur)[i] == packed_views(
                v,
                idx as int + 1,
            )[i] by {
                if i != idx as int {
                    assert(views_of(cur)[i] == packed_views(v, idx as int)[i]);
                }
            }
            assert(views_of(cur) =~= packed_views(v, idx as int + 1));
        }
        let data = vstd::std_specs::vec::vec_index(assets, idx).get_data();
        match data {
            Some(bytes) => {
                let mut piece = vstd::slice::slice_to_vec(bytes.as_slice());
                chunk.append(&mut piece);
                offset = chunk.len();
            },
            None => {
                proof {
                    lemma_first_missing_scan(v, idx as int);
                }
                return Vec::new();
            },
        }
        idx = idx + 1;
    }
    assert(views_of(assets@) =~= packed_views(v, v.len() as int));
    chunk
}

/// Law: a packed manifest is contiguous. The first offset is zero and each
/// following offset is the previous offset plus the previous asset's size;
/// in particular the assigned offsets of a fully packed sequence obey this.
pub proof fn lemma_packing_contiguous(v: Seq<AssetView>)
    ensures
        offset_at(v, 0) == 0,
        forall|i: int|
            0 <= i < v.len() ==> offset_at(v, i + 1) == offset_at(v, i) + v[i].size as int,
        forall|i: int|
            0 <= i < v.len() ==> #[trigger] packed_views(v, v.len() as int)[i].location
                == offset_at(v, i),
{
}

proof fn lemma_chunk_prefix_len(v: Seq<AssetView>, k: int)
    requires
        all_wf(v),
        0 <= k <= v.len(),
        forall|i: int| 0 <= i < k ==> v[i].data is Some,
    ensures
        chunk_prefix(v, k).len() == offset_at(v, k),
    decreases k,
{
    if k > 0 {
        lemma_chunk_prefix_len(v, k - 1);
        assert(v[k - 1].wf());
    }
}

proof fn lemma_offset_mono(v: Seq<AssetView>, i: int, j: int)
    requires
        0 <= i <= j,
    ensures
        offset_at(v, i) <= offset_at(v, j),
    decreases j,
{
    if j > i {
        lemma_offset_mono(v, i, j - 1);
    }
}

proof fn lemma_slice_of_prefix(v: Seq<AssetView>, i: int, k: int)
    requires
        all_wf(v),
        all_have_data(v),
        0 <= i < k <= v.len(),
    ensures
        offset_at(v, i) + v[i].size <= chunk_prefix(v, k).len(),
        chunk_prefix(v, k).subrange(
            offset_at(v, i) as int,
            offset_at(v, i) + v[i].size as int,
        ) == v[i].data.unwrap(),
    decreases k,
{
    lemma_chunk_prefix_len(v, k);
    lemma_chunk_prefix_len(v, k - 1);
    assert(v[i].wf());
    if k == i + 1 {
        lemma_chunk_prefix_len(v, i);
        assert(chunk_prefix(v, k).subrange(offset_at(v, i) as int, offset_at(v, i) + v[i].size as int)
            =~= v[i].data.unwrap());
    } else {
        lemma_slice_of_prefix(v, i, k - 1);
        lemma_offset_mono(v, i + 1, k - 1);
        assert(chunk_prefix(v, k).subrange(offset_at(v, i) as int, offset_at(v, i) + v[i].size as int)
            =~= chunk_prefix(v, k - 1).subrange(
            offset_at(v, i) as int,
            offset_at(v, i) + v[i].size as int,
        ));
    }
}

/// Law: loading restores what packing stored. For a chunk packed from a
/// sequence of assets that all hold data, slicing the chunk at each asset's
/// assigned offset and size yields exactly that asset's original bytes, and
/// every such slice lies within the chunk's bounds.
pub proof fn lemma_load_restores_packed(v: Seq<AssetView>)
    requires
        all_wf(v),
        all_have_data(v),
    ensures
        forall|i: int|
            0 <= i < v.len() ==> #[trigger] offset_at(v, i) + v[i].size <= chunk_bytes(v).len(),
        forall|i: int|
            0 <= i < v.len() ==> #[trigger] chunk_bytes(v).subrange(
                offset_at(v, i) as int,
                offset_at(v, i) + v[i].size as int,
            ) == v[i].data.unwrap(),
{
    assert forall|i: int| 0 <= i < v.len() implies #[trigger] offset_at(v, i) + v[i].size
        <= chunk_bytes(v).len() by {
        lemma_slice_of_prefix(v, i, v.len() as int);
    }
    assert forall|i: int| 0 <= i < v.len() implies #[trigger] chunk_bytes(v).subrange(
        offset_at(v, i) as int,
        offset_at(v, i) + v[i].size as int,
    ) == v[i].data.unwrap() by {
        lemma_slice_of_prefix(v, i, v.len() as int);
    }
}

/// Law: packing is deterministic. The chunk's bytes and the assigned
/// offsets are functions of the ordered asset sequence alone, so packing
/// equal sequences yields byte-identical chunks and identical offsets.
pub proof fn lemma_packing_deterministic(a: Seq<AssetView>, b: Seq<AssetView>)
    requires
        a == b,
    ensures
        chunk_bytes(a) == chunk_bytes(b),
        packed_views(a, a.len() as int) == packed_views(b, b.len() as int),
{
}

} // verus!

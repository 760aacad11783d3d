//! The manifest: an ordered collection of assets. The order is packing
//! order, so it determines the assets' offsets within the chunk.

use vstd::prelude::*;
use crate::asset::Asset;
use crate::asset::AssetView;
use crate::asset::views_of;
use crate::classify::classify_spec;
use crate::classify::identify_asset;
use crate::classify::sig_kind;
use crate::classify::sig_name;

verus! {

/// Whether an asset's recorded slice lies within a chunk of `n` bytes.
pub open spec fn in_bounds(a: AssetView, n: nat) -> bool {
    a.location + a.size <= n
}

/// The view of an asset after loading from a chunk: if its recorded slice
/// is within bounds, the slice becomes its data and its category is
/// re-derived from those bytes; otherwise the asset is left untouched.
pub open spec fn loaded_view(a: AssetView, chunk: Seq<u8>) -> AssetView {
    if in_bounds(a, chunk.len()) {
        let d = chunk.subrange(a.location as int, a.location + a.size as int);
        AssetView { data: Some(d), asset_type: classify_spec(sig_kind(d), sig_name(d)), ..a }
    } else {
        a
    }
}

/// The indices (from `i` on) of the assets whose recorded slices fall
/// outside a chunk of `n` bytes.
pub open spec fn oob_indices(v: Seq<AssetView>, n: nat, i: int) -> Seq<usize>
    decreases v.len() - i,
{
    if i < 0 || i >= v.len() {
        Seq::empty()
    } else if !in_bounds(v[i], n) {
        seq![i as usize] + oob_indices(v, n, i + 1)
    } else {
        oob_indices(v, n, i + 1)
    }
}

/// An ordered collection of assets: the durable, portable description of a
/// chunk's contents. A manifest models as the sequence of its assets' views.
#[derive(Debug)]
pub struct AssetManifest {
    assets: Vec<Asset>,
}

impl View for AssetManifest {
    type V = Seq<AssetView>;

    closed spec fn view(&self) -> Seq<AssetView> {
        views_of(self.assets@)
    }
}

impl AssetManifest {
    /// Create a manifest from an ordered list of assets.
    pub fn new(assets: Vec<Asset>) -> (r: Self)
        ensures
            r@ == views_of(assets@),
    {
        AssetManifest { assets }
    }

    /// The manifest's assets, in order.
    pub fn get_assets(&self) -> (r: &Vec<Asset>)
        ensures
            views_of(r@) == self@,
            r@.len() == self@.len(),
    {
        &self.assets
    }

    /// The manifest's assets as a mutable reference; the manifest afterwards
    /// models whatever the caller leaves in the vector.
    pub fn get_assets_mut(&mut self) -> (r: &mut Vec<Asset>)
        ensures
            views_of((*r)@) == old(self)@,
            (*r)@.len() == old(self)@.len(),
            final(self)@ == views_of((*final(r))@),
    {
        &mut self.assets
    }

    /// Re-hydrate every asset's bytes from a previously packed chunk. Each
    /// asset whose recorded offset and size lie within the chunk receives
    /// the slice `chunk[offset .. offset + size]` as its data and has its
    /// category re-derived from those bytes. An asset whose recorded slice
    /// exceeds the chunk's bounds is left untouched and its index is
    /// reported in the result; other assets still load.
    pub fn load_asset_data(&mut self, chunk: &[u8]) -> (oob: Vec<usize>)
        ensures
            final(self)@.len() == old(self)@.len(),
            forall|i: int|
                0 <= i < old(self)@.len() ==> final(self)@[i] == loaded_view(
                    old(self)@[i],
                    chunk@,
                ),
            oob@ == oob_indices(old(self)@, chunk@.len(), 0),
    {
        let ghost v = views_of(old(self).assets@);
        let mut oob: Vec<usize> = Vec::new();
        let mut idx: usize = 0;
        let clen = chunk.len();
        while idx < self.assets.len()
            invariant
                v == views_of(old(self).assets@),
                0 <= idx <= self.assets@.len(),
                self.assets@.len() == v.len(),
                clen == chunk@.len(),
                forall|i: int|
                    0 <= i < idx ==> views_of(self.assets@)[i] == loaded_view(v[i], chunk@),
                forall|i: int| idx <= i < v.len() ==> views_of(self.assets@)[i] == v[i],
                oob@ + oob_indices(v, clen as nat, idx as int) == oob_indices(v, clen as nat, 0),
            decreases self.assets@.len() - idx,
        {
            assert(views_of(self.assets@)[idx as int] == v[idx as int]);
            let loc = vstd::std_specs::vec::vec_index(&self.assets, idx).get_chunk_location();
            let size = vstd::std_specs::vec::vec_index(&self.assets, idx).get_size();
            if size <= clen && loc <= clen - size {
                assert(in_bounds(v[idx as int], clen as nat));
                let piece = vstd::slice::slice_to_vec(&chunk[loc..loc + size]);
                let asset_type = identify_asset(piece.as_slice());
                let ghost prev = self.assets@;
                let a = vstd::std_specs::vec::vec_index_mut(&mut self.assets, idx);
                a.set_data(piece);
                a.set_type(asset_type);
                proof {
                    let cur = self.assets@;
                    assert(cur == prev.update(idx as int, cur[idx as int]));
                    assert(views_of(cur)[idx as int] == loaded_view(v[idx as int], chunk@));
                    assert forall|i: int|
                        0 <= i < cur.len() && i != idx as int implies views_of(cur)[i]
                        == views_of(prev)[i] by {
                        assert(cur[i] == prev[i]);
                    }
                    assert(oob@ + oob_indices(v, clen as nat, idx as int) == oob@ + oob_indices(
                        v,
                        clen as nat,
                        idx as int + 1,
                    ));
                }
            } else {
                assert(!in_bounds(v[idx as int], clen as nat));
                let ghost oob_prev = oob@;
                oob.push(idx);
                proof {
                    assert(oob@ =~= oob_prev + seq![idx]);
                    assert((oob_prev + seq![idx]) + oob_indices(v, clen as nat, idx as int + 1)
                        =~= oob_prev + (seq![idx] + oob_indices(v, clen as nat, idx as int + 1)));
                }
            }
            idx = idx + 1;
        }
        proof {
            assert(oob_indices(v, clen as nat, v.len() as int) =~= Seq::<usize>::empty());
            assert(oob@ =~= oob@ + oob_indices(v, clen as nat, v.len() as int));
        }
        oob
    }
}

/// Law: loading after packing restores every asset's bytes. Pack a
/// sequence of assets that all hold data, keep the packed manifest and the
/// chunk, and re-hydrate: every asset's recorded slice is in bounds and its
/// reloaded bytes equal its original bytes exactly.
pub proof fn lemma_load_after_pack(v: Seq<AssetView>)
    requires
        crate::pack::all_wf(v),
        crate::pack::all_have_data(v),
    ensures
        forall|i: int|
            0 <= i < v.len() ==> in_bounds(
                #[trigger] crate::pack::packed_views(v, v.len() as int)[i],
                crate::pack::chunk_bytes(v).len(),
            ),
        forall|i: int|
            0 <= i < v.len() ==> loaded_view(
                #[trigger] crate::pack::packed_views(v, v.len() as int)[i],
                crate::pack::chunk_bytes(v),
            ).data == v[i].data,
{
    crate::pack::lemma_load_restores_packed(v);
    assert forall|i: int| 0 <= i < v.len() implies in_bounds(
        #[trigger] crate::pack::packed_views(v, v.len() as int)[i],
        crate::pack::chunk_bytes(v).len(),
    ) && loaded_view(
        crate::pack::packed_views(v, v.len() as int)[i],
        crate::pack::chunk_bytes(v),
    ).data == v[i].data by {
        let p = crate::pack::packed_views(v, v.len() as int)[i];
        assert(p.location == crate::pack::offset_at(v, i));
        assert(p.size == v[i].size);
        assert(crate::pack::chunk_bytes(v).subrange(
            p.location as int,
            p.location + p.size as int,
        ) == v[i].data.unwrap());
    }
}

} // verus!

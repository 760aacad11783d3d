//! A loaded chunk paired with its manifest, and lookup of one asset by
//! name. This is the safe core of the host-runtime boundary: a lookup
//! yields the asset's offset and size, which describe a view into the
//! chunk's buffer rather than a copy of it.

use vstd::prelude::*;
use crate::asset::AssetView;
use crate::classify::str_eq;
use crate::manifest::AssetManifest;
use crate::manifest::in_bounds;

verus! {

/// The index of the first asset named `name`, scanning from `i`. Lookup is
/// first match wins: a duplicate name is shadowed.
pub open spec fn first_match(v: Seq<AssetView>, name: Seq<char>, i: int) -> Option<int>
    decreases v.len() - i,
{
    if i < 0 || i >= v.len() {
        None
    } else if v[i].name == name {
        Some(i)
    } else {
        first_match(v, name, i + 1)
    }
}

proof fn lemma_first_match_scan(v: Seq<AssetView>, name: Seq<char>, k: int)
    requires
        0 <= k <= v.len(),
        forall|i: int| 0 <= i < k ==> v[i].name != name,
    ensures
        first_match(v, name, 0) == first_match(v, name, k),
    decreases k,
{
    if k > 0 {
        lemma_first_match_scan(v, name, k - 1);
    }
}

proof fn lemma_first_match_found(v: Seq<AssetView>, name: Seq<char>, k: int)
    requires
        first_match(v, name, k) matches Some(i),
    ensures
        first_match(v, name, k) matches Some(i) ==> k <= i < v.len() && v[i].name == name,
    decreases v.len() - k,
{
    if 0 <= k < v.len() && v[k].name != name {
        lemma_first_match_found(v, name, k + 1);
    }
}

/// The model of an [`AssetChunk`]: the chunk's raw bytes and the manifest's
/// asset views.
pub struct ChunkView {
    pub bytes: Seq<u8>,
    pub assets: Seq<AssetView>,
}

/// A chunk's raw bytes held resident together with its manifest, ready for
/// lookup by name.
#[derive(Debug)]
pub struct AssetChunk {
    data: Vec<u8>,
    manifest: AssetManifest,
}

/// The location of one asset inside a chunk, as handed across the host
/// boundary: a view into the chunk's buffer, not a copy of it.
#[derive(Debug, PartialEq, Eq, Structural, Clone, Copy)]
pub struct AssetHandle {
    pub location: usize,
    pub size: usize,
}

impl View for AssetChunk {
    type V = ChunkView;

    closed spec fn view(&self) -> ChunkView {
        ChunkView { bytes: self.data@, assets: self.manifest@ }
    }
}

impl AssetChunk {
    /// Pair a chunk's raw bytes with its manifest.
    pub fn new(data: Vec<u8>, manifest: AssetManifest) -> (r: Self)
        ensures
            r@.bytes == data@,
            r@.assets == manifest@,
    {
        AssetChunk { data, manifest }
    }

    /// The chunk's raw bytes.
    pub fn chunk_data(&self) -> (r: &Vec<u8>)
        ensures
            r@ == self@.bytes,
    {
        &self.data
    }

    /// The chunk's manifest.
    pub fn manifest(&self) -> (r: &AssetManifest)
        ensures
            r@ == self@.assets,
    {
        &self.manifest
    }

    /// Look an asset up by name: the first asset so named, as an offset and
    /// size within the chunk's buffer. Returns `None` exactly when no asset
    /// has the name.
    pub fn get_asset(&self, name: &str) -> (r: Option<AssetHandle>)
        ensures
            match first_match(self@.assets, name@, 0) {
                Some(i) => r matches Some(h) && h.location as nat == self@.assets[i].location
                    && h.size as nat == self@.assets[i].size,
                None => r is None,
            },
            (r is Some) <==> exists|i: int|
                0 <= i < self@.assets.len() && self@.assets[i].name == name@,
    {
        let ghost v = self@.assets;
        let assets = self.manifest.get_assets();
        let mut idx: usize = 0;
        while idx < assets.len()
            invariant
                v == self@.assets,
                assets@.len() == v.len(),
                forall|i: int| 0 <= i < assets@.len() ==> assets@[i]@ == v[i],
                0 <= idx <= v.len(),
                forall|i: int| 0 <= i < idx ==> v[i].name != name@,
            decreases v.len() - idx,
        {
            let a = vstd::std_specs::vec::vec_index(assets, idx);
            if str_eq(a.get_name(), name) {
                proof {
                    lemma_first_match_scan(v, name@, idx as int);
                }
                return Some(AssetHandle { location: a.get_chunk_location(), size: a.get_size() });
            }
            idx = idx + 1;
        }
        proof {
            lemma_first_match_scan(v, name@, v.len() as int);
        }
        None
    }

    /// Copy one asset's bytes out of the chunk by name: the slice at the
    /// first matching asset's recorded offset and size. Returns `None`
    /// exactly when no asset has the name or the recorded slice exceeds the
    /// chunk's bounds.
    pub fn asset_bytes(&self, name: &str) -> (r: Option<Vec<u8>>)
        ensures
            match first_match(self@.assets, name@, 0) {
                Some(i) => {
                    &&& in_bounds(self@.assets[i], self@.bytes.len()) ==> (r matches Some(d)
                        && d@ == self@.bytes.subrange(
                        self@.assets[i].location as int,
                        self@.assets[i].location + self@.assets[i].size as int,
                    ))
                    &&& !in_bounds(self@.assets[i], self@.bytes.len()) ==> r is None
                },
                None => r is None,
            },
    {
        let handle = self.get_asset(name);
        match handle {
            Some(h) => {
                proof {
                    lemma_first_match_found(self@.assets, name@, 0);
                }
                let clen = self.data.len();
                if h.size <= clen && h.location <= clen - h.size {
                    Some(vstd::slice::slice_to_vec(&self.data.as_slice()[h.location..h.location
                        + h.size]))
                } else {
                    None
                }
            },
            None => None,
        }
    }
}

} // verus!

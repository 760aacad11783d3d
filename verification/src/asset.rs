//! The asset data model: a category tag and one asset's metadata plus,
//! transiently, its raw bytes.

use vstd::prelude::*;

verus! {

/// Semantic category of an asset, each variant carrying a concrete format
/// tag such as `"PNG"` or `"OGG"`.
#[derive(Debug)]
pub enum AssetType {
    Image(String),
    Audio(String),
    Font(String),
    Shader(String),
    Model(String),
    Script(String),
    Other(String),
}

/// Mathematical model of an [`AssetType`]: the same variants over character
/// sequences.
pub enum AssetTypeView {
    Image(Seq<char>),
    Audio(Seq<char>),
    Font(Seq<char>),
    Shader(Seq<char>),
    Model(Seq<char>),
    Script(Seq<char>),
    Other(Seq<char>),
}

impl View for AssetType {
    type V = AssetTypeView;

    open spec fn view(&self) -> AssetTypeView {
        match self {
            AssetType::Image(s) => AssetTypeView::Image(s@),
            AssetType::Audio(s) => AssetTypeView::Audio(s@),
            AssetType::Font(s) => AssetTypeView::Font(s@),
            AssetType::Shader(s) => AssetTypeView::Shader(s@),
            AssetType::Model(s) => AssetTypeView::Model(s@),
            AssetType::Script(s) => AssetTypeView::Script(s@),
            AssetType::Other(s) => AssetTypeView::Other(s@),
        }
    }
}

impl AssetType {
    /// The format tag carried by the variant, e.g. `"PNG"`.
    pub fn tag(&self) -> (r: &str)
        ensures
            r@ == self@.tag(),
    {
        match self {
            AssetType::Image(s) => s.as_str(),
            AssetType::Audio(s) => s.as_str(),
            AssetType::Font(s) => s.as_str(),
            AssetType::Shader(s) => s.as_str(),
            AssetType::Model(s) => s.as_str(),
            AssetType::Script(s) => s.as_str(),
            AssetType::Other(s) => s.as_str(),
        }
    }
}

impl AssetTypeView {
    /// The format tag carried by the variant.
    pub open spec fn tag(self) -> Seq<char> {
        match self {
            AssetTypeView::Image(s) => s,
            AssetTypeView::Audio(s) => s,
            AssetTypeView::Font(s) => s,
            AssetTypeView::Shader(s) => s,
            AssetTypeView::Model(s) => s,
            AssetTypeView::Script(s) => s,
            AssetTypeView::Other(s) => s,
        }
    }
}

/// The views of a sequence of assets, in order.
pub open spec fn views_of(s: Seq<Asset>) -> Seq<AssetView> {
    s.map_values(|a: Asset| a@)
}

/// One asset: identity, category, byte length, offset within a packed chunk,
/// and (while in memory) its raw bytes.
///
/// `location` is meaningless (zero) until packing or loading assigns it.
/// `data` is absent when only metadata is known, e.g. after reading a
/// manifest back from text; the bytes live only in the chunk.
#[derive(Debug)]
pub struct Asset {
    name: String,
    asset_type: AssetType,
    location: usize,
    size: usize,
    data: Option<Vec<u8>>,
}

/// Mathematical model of an [`Asset`].
pub struct AssetView {
    pub name: Seq<char>,
    pub asset_type: AssetTypeView,
    pub location: nat,
    pub size: nat,
    pub data: Option<Seq<u8>>,
}

impl AssetView {
    /// `size` always equals the byte length of the data while the data is
    /// present. Constructors establish this and every method preserves it.
    pub open spec fn wf(self) -> bool {
        self.data matches Some(d) ==> d.len() == self.size
    }
}

impl View for Asset {
    type V = AssetView;

    closed spec fn view(&self) -> AssetView {
        AssetView {
            name: self.name@,
            asset_type: self.asset_type@,
            location: self.location as nat,
            size: self.size as nat,
            data: match self.data {
                Some(d) => Some(d@),
                None => None,
            },
        }
    }
}

impl Asset {
    /// Create an asset from its raw bytes. The offset is not yet known, so
    /// it starts at zero; the size is the byte length of the data.
    pub fn new(name: String, asset_type: AssetType, data: Vec<u8>) -> (r: Self)
        ensures
            r@ == (AssetView {
                name: name@,
                asset_type: asset_type@,
                location: 0,
                size: data@.len(),
                data: Some(data@),
            }),
            r@.wf(),
    {
        let size = data.len();
        Asset { name, asset_type, location: 0, size, data: Some(data) }
    }

    /// Create an asset from manifest metadata alone: no bytes are attached
    /// until a chunk is loaded.
    pub fn from_metadata(name: String, asset_type: AssetType, size: usize, location: usize) -> (r:
        Self)
        ensures
            r@ == (AssetView {
                name: name@,
                asset_type: asset_type@,
                location: location as nat,
                size: size as nat,
                data: None,
            }),
            r@.wf(),
    {
        Asset { name, asset_type, location, size, data: None }
    }

    /// Set the asset's offset within its chunk.
    pub fn set_chunk_location(&mut self, location: usize)
        ensures
            final(self)@ == (AssetView { location: location as nat, ..old(self)@ }),
    {
        self.location = location;
    }

    /// The asset's offset within its chunk.
    pub fn get_chunk_location(&self) -> (r: usize)
        ensures
            r as nat == self@.location,
    {
        self.location
    }

    /// The asset's size in bytes.
    pub fn get_size(&self) -> (r: usize)
        ensures
            r as nat == self@.size,
    {
        self.size
    }

    /// The asset's raw bytes, if they are in memory.
    pub fn get_data(&self) -> (r: &Option<Vec<u8>>)
        ensures
            match r {
                Some(d) => self@.data == Some(d@),
                None => self@.data is None,
            },
    {
        &self.data
    }

    /// The asset's name.
    pub fn get_name(&self) -> (r: &str)
        ensures
            r@ == self@.name,
    {
        self.name.as_str()
    }

    /// The asset's category.
    pub fn get_type(&self) -> (r: &AssetType)
        ensures
            r@ == self@.asset_type,
    {
        &self.asset_type
    }

    /// Reassign the asset's category, e.g. after re-classification.
    pub fn set_type(&mut self, asset_type: AssetType)
        ensures
            final(self)@ == (AssetView { asset_type: asset_type@, ..old(self)@ }),
    {
        self.asset_type = asset_type;
    }

    /// Attach raw bytes to the asset, fixing its size to their length.
    pub fn set_data(&mut self, data: Vec<u8>)
        ensures
            final(self)@ == (AssetView {
                data: Some(data@),
                size: data@.len(),
                ..old(self)@
            }),
            final(self)@.wf(),
    {
        self.size = data.len();
        self.data = Some(data);
    }
}

} // verus!

//! Packs game-asset files into one contiguous binary chunk plus a manifest
//! that records where each asset lives inside that chunk.
//!
//! The manifest is an ordered list of asset records (name, category, size,
//! offset). Packing lays the assets back to back and writes each offset into
//! the manifest; loading slices each asset back out of the chunk and
//! re-classifies it from its bytes.

pub mod asset;
pub mod manifest;
pub mod chunk;
pub mod classify;
pub mod codec;
pub mod numfmt;
pub mod pack;
pub mod screen;

pub use asset::Asset;
pub use asset::AssetType;
pub use asset::AssetTypeView;
pub use asset::AssetView;
pub use chunk::AssetChunk;
pub use chunk::AssetHandle;
pub use classify::identify_asset;
pub use classify::identify_assets;
pub use manifest::AssetManifest;
pub use pack::pack_assets;
pub use screen::InputField;
pub use screen::InputMode;
pub use screen::MenuState;
pub use screen::ScreenStack;

use assetchunk::Asset;
use assetchunk::AssetChunk;
use assetchunk::AssetManifest;
use assetchunk::AssetType;
use assetchunk::pack_assets;

fn packed_pair() -> (Vec<u8>, AssetManifest) {
    let assets = vec![
        Asset::new("hero".to_string(), AssetType::Other("UNIDENTIFIED".to_string()), vec![1u8; 8]),
        Asset::new("theme".to_string(), AssetType::Other("UNIDENTIFIED".to_string()), vec![
            2u8;
            16
        ]),
    ];
    let mut manifest = AssetManifest::new(assets);
    let chunk = pack_assets(manifest.get_assets_mut());
    (chunk, manifest)
}

#[test]
fn get_asset_finds_by_name() {
    let (bytes, manifest) = packed_pair();
    let chunk = AssetChunk::new(bytes, manifest);
    let hero = chunk.get_asset("hero").expect("hero must be found");
    assert_eq!(hero.location, 0);
    assert_eq!(hero.size, 8);
    let theme = chunk.get_asset("theme").expect("theme must be found");
    assert_eq!(theme.location, 8);
    assert_eq!(theme.size, 16);
}

#[test]
fn get_asset_missing_returns_none() {
    let (bytes, manifest) = packed_pair();
    let chunk = AssetChunk::new(bytes, manifest);
    assert!(chunk.get_asset("missing").is_none());
}

#[test]
fn get_asset_first_match_wins() {
    let assets = vec![
        Asset::from_metadata("dup".to_string(), AssetType::Other("UNIDENTIFIED".to_string()), 3, 0),
        Asset::from_metadata("dup".to_string(), AssetType::Other("UNIDENTIFIED".to_string()), 5, 3),
    ];
    let chunk = AssetChunk::new(vec![0u8; 8], AssetManifest::new(assets));
    let found = chunk.get_asset("dup").expect("dup must be found");
    assert_eq!(found.location, 0);
    assert_eq!(found.size, 3);
}

#[test]
fn asset_bytes_views_into_chunk() {
    let (bytes, manifest) = packed_pair();
    let chunk = AssetChunk::new(bytes, manifest);
    assert_eq!(chunk.asset_bytes("hero").as_deref(), Some(&[1u8; 8][..]));
    assert_eq!(chunk.asset_bytes("theme").as_deref(), Some(&[2u8; 16][..]));
    assert!(chunk.asset_bytes("missing").is_none());
}

#[test]
fn asset_bytes_out_of_bounds_returns_none() {
    let assets = vec![Asset::from_metadata(
        "far".to_string(),
        AssetType::Other("UNIDENTIFIED".to_string()),
        200,
        5000,
    )];
    let chunk = AssetChunk::new(vec![0u8; 4000], AssetManifest::new(assets));
    // The record exists, so lookup succeeds, but its slice is unreadable.
    assert!(chunk.get_asset("far").is_some());
    assert!(chunk.asset_bytes("far").is_none());
}

#[test]
fn chunk_accessors_expose_parts() {
    let (bytes, manifest) = packed_pair();
    let copy = bytes.clone();
    let chunk = AssetChunk::new(bytes, manifest);
    assert_eq!(chunk.chunk_data(), &copy);
    assert_eq!(chunk.manifest().get_assets().len(), 2);
}

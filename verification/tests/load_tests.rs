use assetchunk::Asset;
use assetchunk::AssetManifest;
use assetchunk::AssetType;
use assetchunk::pack_assets;

fn png_bytes(len: usize) -> Vec<u8> {
    let mut data = vec![0u8; len];
    let magic = [0x89u8, 0x50, 0x4E, 0x47, 0x0D, 0x0A, 0x1A, 0x0A];
    data[..8].copy_from_slice(&magic);
    data
}

#[test]
fn load_restores_packed_bytes() {
    let hero_data = png_bytes(1024);
    let theme_data = vec![7u8; 2048];
    let assets = vec![
        Asset::new(
            "hero".to_string(),
            AssetType::Other("UNIDENTIFIED".to_string()),
            hero_data.clone(),
        ),
        Asset::new(
            "theme".to_string(),
            AssetType::Other("UNIDENTIFIED".to_string()),
            theme_data.clone(),
        ),
    ];
    let mut manifest = AssetManifest::new(assets);
    let chunk = pack_assets(manifest.get_assets_mut());
    assert_eq!(chunk.len(), 3072);

    // A fresh manifest with metadata only, as after reading the text back.
    let text = manifest.to_text();
    let mut reloaded = AssetManifest::from_text(&text).expect("manifest text must parse");
    let oob = reloaded.load_asset_data(&chunk);
    assert!(oob.is_empty());

    let loaded = reloaded.get_assets();
    assert_eq!(loaded[0].get_data().as_deref(), Some(hero_data.as_slice()));
    assert_eq!(loaded[1].get_data().as_deref(), Some(theme_data.as_slice()));
    // Categories are re-derived from the freshly sliced bytes.
    match loaded[0].get_type() {
        AssetType::Image(tag) => assert_eq!(tag, "PNG"),
        other => panic!("hero classified as {:?}", other),
    }
}

#[test]
fn load_reports_out_of_bounds_and_keeps_loading_others() {
    let good = Asset::from_metadata(
        "good".to_string(),
        AssetType::Other("UNIDENTIFIED".to_string()),
        4,
        0,
    );
    let bad = Asset::from_metadata(
        "bad".to_string(),
        AssetType::Other("UNIDENTIFIED".to_string()),
        200,
        5000,
    );
    let tail = Asset::from_metadata(
        "tail".to_string(),
        AssetType::Other("UNIDENTIFIED".to_string()),
        6,
        4,
    );
    let mut manifest = AssetManifest::new(vec![good, bad, tail]);
    let chunk = vec![1u8; 4000];
    let oob = manifest.load_asset_data(&chunk);
    assert_eq!(oob, vec![1]);

    let assets = manifest.get_assets();
    assert_eq!(assets[0].get_data().as_deref(), Some(&[1u8, 1, 1, 1][..]));
    assert!(assets[1].get_data().is_none());
    assert_eq!(assets[2].get_data().as_deref(), Some(&[1u8; 6][..]));
}

#[test]
fn load_exact_boundary_is_in_bounds() {
    let edge = Asset::from_metadata(
        "edge".to_string(),
        AssetType::Other("UNIDENTIFIED".to_string()),
        4,
        6,
    );
    let mut manifest = AssetManifest::new(vec![edge]);
    let chunk = vec![9u8; 10];
    let oob = manifest.load_asset_data(&chunk);
    assert!(oob.is_empty());
    assert_eq!(manifest.get_assets()[0].get_data().as_deref(), Some(&[9u8; 4][..]));
}

#[test]
fn load_one_past_boundary_is_reported() {
    let over = Asset::from_metadata(
        "over".to_string(),
        AssetType::Other("UNIDENTIFIED".to_string()),
        5,
        6,
    );
    let mut manifest = AssetManifest::new(vec![over]);
    let chunk = vec![9u8; 10];
    let oob = manifest.load_asset_data(&chunk);
    assert_eq!(oob, vec![0]);
    assert!(manifest.get_assets()[0].get_data().is_none());
}

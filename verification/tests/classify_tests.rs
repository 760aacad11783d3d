use assetchunk::Asset;
use assetchunk::AssetType;
use assetchunk::identify_asset;
use assetchunk::identify_assets;

fn png_bytes(len: usize) -> Vec<u8> {
    let mut data = vec![0u8; len];
    let magic = [0x89u8, 0x50, 0x4E, 0x47, 0x0D, 0x0A, 0x1A, 0x0A];
    data[..8].copy_from_slice(&magic);
    data
}

#[test]
fn classify_empty_buffer_is_unidentified() {
    match identify_asset(&[]) {
        AssetType::Other(tag) => assert_eq!(tag, "UNIDENTIFIED"),
        other => panic!("empty buffer classified as {:?}", other),
    }
}

#[test]
fn classify_zeroed_buffer_is_unidentified() {
    let data = vec![0u8; 1000];
    match identify_asset(&data) {
        AssetType::Other(tag) => assert_eq!(tag, "UNIDENTIFIED"),
        other => panic!("zeroed buffer classified as {:?}", other),
    }
}

#[test]
fn classify_png_signature() {
    match identify_asset(&png_bytes(64)) {
        AssetType::Image(tag) => assert_eq!(tag, "PNG"),
        other => panic!("png buffer classified as {:?}", other),
    }
}

#[test]
fn classify_jpeg_signature() {
    match identify_asset(&[0xFF, 0xD8, 0xFF]) {
        AssetType::Image(tag) => assert_eq!(tag, "JPEG"),
        other => panic!("jpeg buffer classified as {:?}", other),
    }
}

#[test]
fn classify_ttf_signature() {
    // TrueType: 00 01 00 00 00 at the start.
    let mut data = vec![0u8; 64];
    data[1] = 0x01;
    match identify_asset(&data) {
        AssetType::Font(tag) => assert_eq!(tag, "TTF"),
        other => panic!("ttf buffer classified as {:?}", other),
    }
}

#[test]
fn identify_assets_reclassifies_all() {
    let mut assets = vec![
        Asset::new(
            "hero".to_string(),
            AssetType::Other("UNIDENTIFIED".to_string()),
            png_bytes(64),
        ),
        Asset::new("blob".to_string(), AssetType::Other("UNIDENTIFIED".to_string()), vec![0u8; 16]),
    ];
    identify_assets(&mut assets);
    match assets[0].get_type() {
        AssetType::Image(tag) => assert_eq!(tag, "PNG"),
        other => panic!("png asset classified as {:?}", other),
    }
    match assets[1].get_type() {
        AssetType::Other(tag) => assert_eq!(tag, "UNIDENTIFIED"),
        other => panic!("blob asset classified as {:?}", other),
    }
}

use assetchunk::Asset;
use assetchunk::AssetType;
use assetchunk::pack_assets;

fn png_bytes(len: usize) -> Vec<u8> {
    let mut data = vec![0u8; len];
    let magic = [0x89u8, 0x50, 0x4E, 0x47, 0x0D, 0x0A, 0x1A, 0x0A];
    data[..8].copy_from_slice(&magic);
    data
}

#[test]
fn pack_two_files_layout() {
    let hero = Asset::new(
        "hero".to_string(),
        AssetType::Other("UNIDENTIFIED".to_string()),
        png_bytes(1024),
    );
    let theme = Asset::new(
        "theme".to_string(),
        AssetType::Other("UNIDENTIFIED".to_string()),
        vec![7u8; 2048],
    );
    let mut assets = vec![hero, theme];
    let chunk = pack_assets(&mut assets);
    assert_eq!(chunk.len(), 3072);
    assert_eq!(assets[0].get_name(), "hero");
    assert_eq!(assets[0].get_chunk_location(), 0);
    assert_eq!(assets[0].get_size(), 1024);
    assert_eq!(assets[1].get_name(), "theme");
    assert_eq!(assets[1].get_chunk_location(), 1024);
    assert_eq!(assets[1].get_size(), 2048);
}

#[test]
fn pack_concatenates_bytes_in_order() {
    let a = Asset::new("a".to_string(), AssetType::Other("UNIDENTIFIED".to_string()), vec![1, 2, 3]);
    let b = Asset::new("b".to_string(), AssetType::Other("UNIDENTIFIED".to_string()), vec![4, 5]);
    let mut assets = vec![a, b];
    let chunk = pack_assets(&mut assets);
    assert_eq!(chunk, vec![1, 2, 3, 4, 5]);
}

#[test]
fn pack_is_deterministic() {
    let mk = || {
        vec![
            Asset::new("a".to_string(), AssetType::Other("UNIDENTIFIED".to_string()), vec![9; 10]),
            Asset::new("b".to_string(), AssetType::Other("UNIDENTIFIED".to_string()), vec![3; 7]),
        ]
    };
    let mut first = mk();
    let mut second = mk();
    let chunk1 = pack_assets(&mut first);
    let chunk2 = pack_assets(&mut second);
    assert_eq!(chunk1, chunk2);
    for i in 0..first.len() {
        assert_eq!(first[i].get_chunk_location(), second[i].get_chunk_location());
    }
}

#[test]
fn pack_fails_on_missing_data() {
    let with_data =
        Asset::new("a".to_string(), AssetType::Other("UNIDENTIFIED".to_string()), vec![1, 2]);
    let without_data =
        Asset::from_metadata("b".to_string(), AssetType::Other("UNIDENTIFIED".to_string()), 4, 0);
    let mut assets = vec![with_data, without_data];
    let chunk = pack_assets(&mut assets);
    assert!(chunk.is_empty());
}

#[test]
fn pack_empty_list_yields_empty_chunk() {
    let mut assets: Vec<Asset> = Vec::new();
    let chunk = pack_assets(&mut assets);
    assert!(chunk.is_empty());
}

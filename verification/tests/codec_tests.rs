use assetchunk::Asset;
use assetchunk::AssetManifest;
use assetchunk::AssetType;

fn sample_manifest() -> AssetManifest {
    let hero = Asset::from_metadata(
        "hero".to_string(),
        AssetType::Image("PNG".to_string()),
        1024,
        0,
    );
    let theme = Asset::from_metadata(
        "theme".to_string(),
        AssetType::Audio("OGG".to_string()),
        2048,
        1024,
    );
    AssetManifest::new(vec![hero, theme])
}

#[test]
fn serialize_exact_text() {
    let m = AssetManifest::new(vec![Asset::from_metadata(
        "hero".to_string(),
        AssetType::Image("PNG".to_string()),
        1024,
        0,
    )]);
    assert_eq!(m.to_text(), "1;4:heroi3:PNG1024;0;\n");
}

#[test]
fn round_trip_preserves_metadata() {
    let m = sample_manifest();
    let text = m.to_text();
    let back = AssetManifest::from_text(&text).expect("round trip must parse");
    let orig = m.get_assets();
    let parsed = back.get_assets();
    assert_eq!(parsed.len(), orig.len());
    for i in 0..orig.len() {
        assert_eq!(parsed[i].get_name(), orig[i].get_name());
        assert_eq!(parsed[i].get_size(), orig[i].get_size());
        assert_eq!(parsed[i].get_chunk_location(), orig[i].get_chunk_location());
        assert!(parsed[i].get_data().is_none());
    }
    match (parsed[0].get_type(), orig[0].get_type()) {
        (AssetType::Image(a), AssetType::Image(b)) => assert_eq!(a, b),
        _ => panic!("category changed in round trip"),
    }
    match (parsed[1].get_type(), orig[1].get_type()) {
        (AssetType::Audio(a), AssetType::Audio(b)) => assert_eq!(a, b),
        _ => panic!("category changed in round trip"),
    }
}

#[test]
fn round_trip_empty_manifest() {
    let m = AssetManifest::new(Vec::new());
    let text = m.to_text();
    assert_eq!(text, "0;");
    let back = AssetManifest::from_text(&text).expect("empty manifest must parse");
    assert_eq!(back.get_assets().len(), 0);
}

#[test]
fn round_trip_name_with_delimiters() {
    // Length-prefixed strings: names may contain the format's own
    // punctuation and even newlines.
    let odd = Asset::from_metadata(
        "we;ird:na\nme".to_string(),
        AssetType::Script("LUA".to_string()),
        7,
        3,
    );
    let m = AssetManifest::new(vec![odd]);
    let back = AssetManifest::from_text(&m.to_text()).expect("must parse");
    assert_eq!(back.get_assets()[0].get_name(), "we;ird:na\nme");
    assert_eq!(back.get_assets()[0].get_size(), 7);
    assert_eq!(back.get_assets()[0].get_chunk_location(), 3);
}

#[test]
fn round_trip_largest_numbers() {
    let big = Asset::from_metadata(
        "big".to_string(),
        AssetType::Other("UNIDENTIFIED".to_string()),
        usize::MAX,
        usize::MAX,
    );
    let m = AssetManifest::new(vec![big]);
    let back = AssetManifest::from_text(&m.to_text()).expect("must parse");
    assert_eq!(back.get_assets()[0].get_size(), usize::MAX);
    assert_eq!(back.get_assets()[0].get_chunk_location(), usize::MAX);
}

#[test]
fn parse_rejects_garbage() {
    assert!(AssetManifest::from_text("not a manifest").is_none());
    assert!(AssetManifest::from_text("").is_none());
    assert!(AssetManifest::from_text(";").is_none());
}

#[test]
fn parse_rejects_truncated_record() {
    assert!(AssetManifest::from_text("1;4:heroi3:PNG1024;").is_none());
    assert!(AssetManifest::from_text("1;4:her").is_none());
}

#[test]
fn parse_rejects_wrong_count() {
    assert!(AssetManifest::from_text("2;4:heroi3:PNG1024;0;\n").is_none());
}

#[test]
fn parse_rejects_trailing_text() {
    assert!(AssetManifest::from_text("1;4:heroi3:PNG1024;0;\nextra").is_none());
}

#[test]
fn parse_rejects_unknown_tag() {
    assert!(AssetManifest::from_text("1;4:herox3:PNG1024;0;\n").is_none());
}

#[test]
fn parse_rejects_oversized_number() {
    // One digit more than usize::MAX can hold.
    assert!(AssetManifest::from_text("1;4:heroi3:PNG99999999999999999999;0;\n").is_none());
}

#[test]
fn parse_accepts_every_category_tag() {
    let tags = ["i", "a", "f", "h", "m", "s", "o"];
    for tag in tags {
        let text = format!("1;1:x{}2:XY5;9;\n", tag);
        let m = AssetManifest::from_text(&text).expect("tagged record must parse");
        let assets = m.get_assets();
        assert_eq!(assets[0].get_name(), "x");
        assert_eq!(assets[0].get_size(), 5);
        assert_eq!(assets[0].get_chunk_location(), 9);
    }
}

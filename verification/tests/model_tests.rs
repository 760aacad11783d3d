use assetchunk::Asset;
use assetchunk::AssetManifest;
use assetchunk::AssetType;
use assetchunk::InputField;
use assetchunk::InputMode;
use assetchunk::MenuState;
use assetchunk::ScreenStack;

#[test]
fn asset_new_fixes_size_and_clears_location() {
    let a = Asset::new("hero".to_string(), AssetType::Image("PNG".to_string()), vec![1, 2, 3]);
    assert_eq!(a.get_name(), "hero");
    assert_eq!(a.get_size(), 3);
    assert_eq!(a.get_chunk_location(), 0);
    assert_eq!(a.get_data().as_deref(), Some(&[1u8, 2, 3][..]));
}

#[test]
fn asset_setters_update_fields() {
    let mut a = Asset::from_metadata(
        "hero".to_string(),
        AssetType::Other("UNIDENTIFIED".to_string()),
        16,
        0,
    );
    a.set_chunk_location(64);
    assert_eq!(a.get_chunk_location(), 64);
    a.set_type(AssetType::Audio("OGG".to_string()));
    match a.get_type() {
        AssetType::Audio(tag) => assert_eq!(tag, "OGG"),
        other => panic!("unexpected category {:?}", other),
    }
    a.set_data(vec![5, 6]);
    assert_eq!(a.get_size(), 2);
    assert_eq!(a.get_data().as_deref(), Some(&[5u8, 6][..]));
}

#[test]
fn manifest_owns_its_assets() {
    let assets = vec![Asset::from_metadata(
        "one".to_string(),
        AssetType::Model("OBJ".to_string()),
        9,
        0,
    )];
    let mut manifest = AssetManifest::new(assets);
    assert_eq!(manifest.get_assets().len(), 1);
    manifest.get_assets_mut().push(Asset::from_metadata(
        "two".to_string(),
        AssetType::Font("TTF".to_string()),
        4,
        9,
    ));
    assert_eq!(manifest.get_assets().len(), 2);
    assert_eq!(manifest.get_assets()[1].get_name(), "two");
}

#[test]
fn screen_stack_starts_on_main() {
    let stack = ScreenStack::new();
    assert!(matches!(stack.peek(), Some(MenuState::Main)));
}

#[test]
fn screen_stack_push_pop() {
    let mut stack = ScreenStack::new();
    stack.push(MenuState::Pack);
    assert!(matches!(stack.peek(), Some(MenuState::Pack)));
    assert!(matches!(stack.pop(), Some(MenuState::Pack)));
    assert!(matches!(stack.peek(), Some(MenuState::Main)));
    assert!(matches!(stack.pop(), Some(MenuState::Main)));
    assert!(stack.pop().is_none());
    assert!(stack.peek().is_none());
}

#[test]
fn input_modes_compare() {
    assert_eq!(InputMode::Nav, InputMode::Nav);
    assert_eq!(InputMode::Input(InputField::InputDir), InputMode::Input(InputField::InputDir));
    assert_ne!(InputMode::Input(InputField::InputDir), InputMode::Input(InputField::OutputName));
    assert_ne!(InputMode::Nav, InputMode::Input(InputField::OutputName));
}

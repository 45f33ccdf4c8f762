use snake_game::assets::{get_resource, AppAsset, Asset};

#[test]
fn assets_resolve_to_host_supplied_blocks() {
    let menu_art = get_resource(AppAsset::MainMenuImage);
    assert!(menu_art.bytes.is_empty());
    let board = get_resource(AppAsset::Leaderboard);
    assert!(board.bytes.is_empty());
}

#[test]
fn asset_wraps_embedded_bytes() {
    let a = Asset::new(b"xyz");
    assert_eq!(a.bytes, b"xyz");
}

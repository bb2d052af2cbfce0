use ggsweep::sprite_sheet::{SheetInfo, SpriteInfo};

fn sample_sheet() -> SheetInfo {
    SheetInfo {
        name: String::from("colored"),
        files: vec![
            (String::from("blue"), String::from("sheet_blue.png")),
            (String::from("red"), String::from("sheet_red.png")),
        ],
        sprites: vec![
            SpriteInfo {
                name: String::from("panel_top_left"),
                x: 0,
                y: 0,
                width: 16,
                height: 16,
            },
            SpriteInfo {
                name: String::from("panel_center"),
                x: 16,
                y: 16,
                width: 16,
                height: 16,
            },
        ],
    }
}

#[test]
fn file_lookup_finds_registered_variants() {
    let sheet = sample_sheet();
    assert_eq!(
        sheet.file_for(&String::from("blue")),
        Some(&String::from("sheet_blue.png"))
    );
    assert_eq!(
        sheet.file_for(&String::from("red")),
        Some(&String::from("sheet_red.png"))
    );
}

#[test]
fn missing_file_variant_is_reported() {
    let sheet = sample_sheet();
    assert_eq!(sheet.file_for(&String::from("green")), None);
}

#[test]
fn sprite_lookup_finds_sprites_by_name() {
    let sheet = sample_sheet();
    let sprite = sheet
        .sprite_named(&String::from("panel_center"))
        .expect("the sheet has this sprite");
    assert_eq!(sprite.x, 16);
    assert_eq!(sprite.y, 16);
    assert_eq!(sprite.width, 16);
    assert_eq!(sprite.height, 16);
}

#[test]
fn missing_sprite_name_is_reported() {
    let sheet = sample_sheet();
    assert!(sheet.sprite_named(&String::from("panel_bottom")).is_none());
}

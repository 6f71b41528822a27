use character_atlas::animation::AnimationIndices;
use character_atlas::atlas_asset_loading::{generate_atlas, LoadedImage};
use character_atlas::characters::{BaseStats, CharacterRawData, Characters, SpriteSettings};
use character_atlas::layout::{AtlasLayout, PixelRect};
use character_atlas::spawn::{
    spawn_characters, ANIMATION_FIRST, ANIMATION_LAST, ANIMATION_PERIOD_MILLIS, MANI_OFFSET_X,
};

fn sheet(x: u32) -> AtlasLayout {
    AtlasLayout {
        width: 24,
        height: 24,
        textures: vec![PixelRect { min_x: x, min_y: 0, max_x: x + 24, max_y: 24 }],
    }
}

fn database(ids: &[&str]) -> Characters {
    let mut characters = Characters::new();
    for (i, id) in ids.iter().enumerate() {
        let data = CharacterRawData {
            speed: i as u32 + 1,
            hp: 100,
            mp: 150,
            atlas_layout: sheet(24 * i as u32),
        };
        characters.insert((*id).into(), data);
    }
    characters
}

#[test]
fn the_animation_has_its_values() {
    assert_eq!((ANIMATION_FIRST, ANIMATION_LAST), (1, 6));
    assert_eq!(ANIMATION_PERIOD_MILLIS, 500);
    assert_eq!(MANI_OFFSET_X, 300);
}

#[test]
fn both_characters_are_spawned_gabe_first() {
    let shown = spawn_characters(&database(&["gabe.png", "mani.png"])).unwrap();
    assert_eq!(shown.len(), 2);
    assert_eq!(shown[0].bundle.stats, BaseStats { speed: 1, hp: 100, mp: 150 });
    assert_eq!(shown[0].bundle.atlas.layout, sheet(0));
    assert_eq!(shown[0].bundle.atlas.index, 0);
    assert_eq!(
        shown[0].bundle.sprite,
        SpriteSettings { scale: 6, flip_x: false, offset_x: 0 }
    );
    assert_eq!(shown[1].bundle.stats, BaseStats { speed: 2, hp: 100, mp: 150 });
    assert_eq!(shown[1].bundle.atlas.layout, sheet(24));
    assert_eq!(shown[1].bundle.atlas.index, 0);
}

#[test]
fn mani_faces_gabe_from_the_right() {
    let shown = spawn_characters(&database(&["mani.png", "gabe.png"])).unwrap();
    assert_eq!(
        shown[1].bundle.sprite,
        SpriteSettings { scale: 6, flip_x: true, offset_x: 300 }
    );
    assert_eq!(shown[1].bundle.stats.speed, 1);
    assert_eq!(shown[0].bundle.stats.speed, 2);
}

#[test]
fn both_run_the_same_animation() {
    let shown = spawn_characters(&database(&["gabe.png", "mani.png"])).unwrap();
    for character in &shown {
        assert_eq!(character.indices, AnimationIndices { first: 1, last: 6 });
        assert_eq!(character.timer_millis, 500);
    }
}

#[test]
fn nothing_is_spawned_without_gabe() {
    assert_eq!(spawn_characters(&database(&["mani.png"])), None);
}

#[test]
fn nothing_is_spawned_without_mani() {
    assert_eq!(spawn_characters(&database(&["gabe.png"])), None);
    assert_eq!(spawn_characters(&database(&[])), None);
}

#[test]
fn other_characters_are_left_out() {
    let shown = spawn_characters(&database(&["gabe.png", "zed.png", "mani.png"])).unwrap();
    assert_eq!(shown.len(), 2);
    assert_eq!(shown[0].bundle.stats.speed, 1);
    assert_eq!(shown[1].bundle.stats.speed, 3);
}

#[test]
fn what_was_loaded_can_be_spawned() {
    let textures = [
        PixelRect { min_x: 0, min_y: 0, max_x: 168, max_y: 24 },
        PixelRect { min_x: 170, min_y: 0, max_x: 338, max_y: 24 },
    ];
    let images = vec![
        LoadedImage { path: Some("gabe.png".into()), atlas_index: Some(0) },
        LoadedImage { path: Some("mani.png".into()), atlas_index: Some(1) },
    ];
    let generated = generate_atlas(images, &textures).unwrap();
    let shown = spawn_characters(&generated.characters).unwrap();
    assert_eq!(shown[0].bundle.atlas.layout.textures.len(), 7);
    assert_eq!(shown[0].bundle.atlas.layout.textures[0].min_x, 0);
    assert_eq!(shown[1].bundle.atlas.layout.textures[0].min_x, 170);
    assert_eq!(shown[1].bundle.atlas.layout.textures[6].max_x, 338);
}

#[test]
fn every_frame_of_the_animation_is_in_the_sheet() {
    let run = AnimationIndices { first: ANIMATION_FIRST, last: ANIMATION_LAST };
    let mut index = 0;
    for _ in 0..50 {
        assert!(index < 7);
        index = run.next_index(index).unwrap();
    }
}

//! What is put on screen once the atlas is there: the two characters, each
//! with its animation.

use crate::animation::AnimationIndices;
use crate::atlas_asset_loading::{database, image_id, lemma_database_ids, LoadedImage};
use crate::atlas_asset_loading::{FRAME_COUNT, GABE, MANI};
use crate::characters::{character_id, CharacterBundle, CharacterBundleView};
use crate::characters::{CharacterRawDataView, Characters, SpriteSettings};
use crate::layout::PixelRect;
use vstd::prelude::*;

verus! {

/// First frame of the loop that a character's animation runs through.
pub const ANIMATION_FIRST: usize = 1;

/// Last frame of the loop that a character's animation runs through.
pub const ANIMATION_LAST: usize = 6;

/// Milliseconds for which each frame of an animation is shown.
pub const ANIMATION_PERIOD_MILLIS: u64 = 500;

/// How far right of the first character the second one stands.
pub const MANI_OFFSET_X: i32 = 300;

/// A character to put on screen, with what animates it.
#[derive(Debug, PartialEq, Eq)]
pub struct AnimatedCharacter {
    pub bundle: CharacterBundle,
    /// The frames that the animation loops through.
    pub indices: AnimationIndices,
    /// Period in milliseconds of the repeating timer that steps the
    /// animation.
    pub timer_millis: u64,
}

/// The mathematical value of an [`AnimatedCharacter`].
pub struct AnimatedCharacterView {
    pub bundle: CharacterBundleView,
    pub indices: AnimationIndices,
    pub timer_millis: u64,
}

impl View for AnimatedCharacter {
    type V = AnimatedCharacterView;

    open spec fn view(&self) -> AnimatedCharacterView {
        AnimatedCharacterView {
            bundle: self.bundle@,
            indices: self.indices,
            timer_millis: self.timer_millis,
        }
    }
}

/// A character of which the database holds `data`, as it is put on screen:
/// with the bundle of the database, looping through the frames from
/// `ANIMATION_FIRST` to `ANIMATION_LAST`.
pub open spec fn animated(data: CharacterRawDataView) -> AnimatedCharacterView {
    AnimatedCharacterView {
        bundle: CharacterBundleView::of(data),
        indices: AnimationIndices { first: ANIMATION_FIRST, last: ANIMATION_LAST },
        timer_millis: ANIMATION_PERIOD_MILLIS,
    }
}

/// The same character mirrored left to right and moved `MANI_OFFSET_X` to
/// the right.
pub open spec fn facing(shown: AnimatedCharacterView) -> AnimatedCharacterView {
    AnimatedCharacterView {
        bundle: CharacterBundleView {
            sprite: SpriteSettings {
                scale: shown.bundle.sprite.scale,
                flip_x: true,
                offset_x: (shown.bundle.sprite.offset_x + MANI_OFFSET_X) as i32,
            },
            ..shown.bundle
        },
        ..shown
    }
}

/// The characters to put on screen, or `None` where the database lacks one
/// of them: first the character `GABE`, then the character `MANI` facing it.
pub fn spawn_characters(characters: &Characters) -> (spawned: Option<Vec<AnimatedCharacter>>)
    ensures
        spawned is Some <==> characters@.contains_key(GABE@) && characters@.contains_key(MANI@),
        spawned matches Some(shown) ==> {
            &&& shown@.len() == 2
            &&& shown@[0]@ == animated(characters@[GABE@])
            &&& shown@[1]@ == facing(animated(characters@[MANI@]))
        },
{
    let animation_indices = AnimationIndices { first: ANIMATION_FIRST, last: ANIMATION_LAST };
    let gabe_bundle = characters.character(character_id(GABE))?;
    let mut mani_bundle = characters.character(character_id(MANI))?;
    mani_bundle.sprite.flip_x = true;
    mani_bundle.sprite.offset_x = mani_bundle.sprite.offset_x + MANI_OFFSET_X;
    let mut shown: Vec<AnimatedCharacter> = Vec::new();
    shown.push(
        AnimatedCharacter {
            bundle: gabe_bundle,
            indices: animation_indices,
            timer_millis: ANIMATION_PERIOD_MILLIS,
        },
    );
    shown.push(
        AnimatedCharacter {
            bundle: mani_bundle,
            indices: animation_indices,
            timer_millis: ANIMATION_PERIOD_MILLIS,
        },
    );
    Some(shown)
}

/// A spawned character starts at frame 0 of its sheet, and whatever number of
/// steps its animation takes from there, it shows a frame that the sheet has.
pub proof fn lemma_spawned_frames_exist(steps: nat)
    ensures
        0 <= (AnimationIndices { first: ANIMATION_FIRST, last: ANIMATION_LAST }).after(0, steps)
            < FRAME_COUNT,
{
    crate::animation::lemma_after_stays(
        AnimationIndices { first: ANIMATION_FIRST, last: ANIMATION_LAST },
        0,
        steps,
    );
}

/// The database made of images among which one has the path `GABE` and one
/// the path `MANI` holds both characters, so that both are spawned.
pub proof fn lemma_loaded_characters_spawn(
    images: Seq<LoadedImage>,
    textures: Seq<PixelRect>,
    gabe: int,
    mani: int,
)
    requires
        0 <= gabe < images.len(),
        0 <= mani < images.len(),
        image_id(images[gabe]) == GABE@,
        image_id(images[mani]) == MANI@,
    ensures
        database(images, textures).contains_key(GABE@),
        database(images, textures).contains_key(MANI@),
{
    lemma_database_ids(images, textures, GABE@);
    lemma_database_ids(images, textures, MANI@);
}

} // verus!

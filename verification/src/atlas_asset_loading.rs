//! The loading phase: waiting until every image is loaded, then cutting the
//! packed atlas into one sprite sheet per character.

use crate::characters::{CharacterEntries, CharacterId, CharacterRawData, CharacterRawDataView};
use crate::characters::{BaseStats, Characters};
use crate::layout::{AtlasLayout, AtlasLayoutView, Grid, PixelRect};
use vstd::prelude::*;

verus! {

/// Asset path of the first character's texture.
pub const GABE: &'static str = "gabe.png";

/// Asset path of the second character's texture.
pub const MANI: &'static str = "mani.png";

/// Width and height in pixels of one frame of a character's animation.
pub const FRAME_SIZE: u32 = 24;

/// Number of frames that a character's texture holds, side by side.
pub const FRAME_COUNT: u32 = 7;

/// Pixels left free right of and below each texture packed into the atlas.
pub const ATLAS_PADDING: u32 = 2;

/// Speed that every character starts with.
pub const BASE_SPEED: u32 = 1;

/// Hit points that every character starts with.
pub const BASE_HP: u32 = 100;

/// Magic points that every character starts with.
pub const BASE_MP: u32 = 150;

/// The two phases of the program: images are being loaded, or the atlas and
/// the character database are there.
#[derive(Debug, Clone, Copy, PartialEq, Eq, Hash, Structural)]
pub enum AssetLoadingState {
    Setup,
    Loaded,
}

impl Default for AssetLoadingState {
    fn default() -> (state: Self)
        ensures
            state == AssetLoadingState::Setup,
    {
        AssetLoadingState::Setup
    }
}

/// How far the loading of one asset has come.
#[derive(Debug, Clone, Copy, PartialEq, Eq, Structural)]
pub enum LoadStatus {
    NotLoaded,
    Loading,
    Loaded,
    Failed,
}

/// Every one of `statuses` is `Loaded`.
pub open spec fn all_loaded_spec(statuses: Seq<LoadStatus>) -> bool {
    forall|i: int| 0 <= i < statuses.len() ==> statuses[i] == LoadStatus::Loaded
}

/// The asset paths of the textures to load, in the order in which they are
/// packed into the atlas.
pub fn load_assets() -> (paths: Vec<&'static str>)
    ensures
        paths@ == seq![GABE, MANI],
{
    let mut paths: Vec<&'static str> = Vec::new();
    paths.push(GABE);
    paths.push(MANI);
    paths
}

/// Whether every asset is loaded, so that the atlas can be generated.
pub fn all_loaded(statuses: &[LoadStatus]) -> (loaded: bool)
    ensures
        loaded == all_loaded_spec(statuses@),
{
    let mut i: usize = 0;
    while i < statuses.len()
        invariant
            i <= statuses.len(),
            all_loaded_spec(statuses@.subrange(0, i as int)),
        decreases statuses.len() - i,
    {
        if statuses[i] != LoadStatus::Loaded {
            return false;
        }
        assert(statuses@.subrange(0, i + 1) == statuses@.subrange(0, i as int).push(
            statuses@[i as int],
        ));
        i += 1;
    }
    assert(statuses@.subrange(0, i as int) == statuses@);
    true
}

impl AssetLoadingState {
    /// Whether an update in this state generates the atlas: only while
    /// setting up, and only once every asset is loaded.
    pub fn generates_atlas(self, statuses: &[LoadStatus]) -> (go: bool)
        ensures
            go == (self == AssetLoadingState::Setup && all_loaded_spec(statuses@)),
    {
        match self {
            AssetLoadingState::Setup => all_loaded(statuses),
            AssetLoadingState::Loaded => false,
        }
    }
}

/// Frame `i` of the sheet of a texture whose top-left corner is at
/// `(x, y)`: frames stand side by side from the left.
pub open spec fn sheet_frame(x: u32, y: u32, i: int) -> PixelRect {
    PixelRect {
        min_x: (x + FRAME_SIZE * i) as u32,
        min_y: y,
        max_x: (x + FRAME_SIZE * i + FRAME_SIZE) as u32,
        max_y: (y + FRAME_SIZE) as u32,
    }
}

/// The sheet of a texture whose top-left corner is at `(x, y)` reaches no
/// further than 32 bits can say.
pub open spec fn sheet_fits(x: u32, y: u32) -> bool {
    x + FRAME_SIZE * FRAME_COUNT <= u32::MAX && y + FRAME_SIZE <= u32::MAX
}

/// The sprite sheet of a texture whose top-left corner is at `(x, y)`: one
/// row of `FRAME_COUNT` frames.
pub open spec fn sheet_spec(x: u32, y: u32) -> AtlasLayoutView {
    AtlasLayoutView {
        width: (FRAME_SIZE * FRAME_COUNT) as int,
        height: FRAME_SIZE as int,
        textures: Seq::new(FRAME_COUNT as nat, |i: int| sheet_frame(x, y, i)),
    }
}

/// The grid of one row of frames at `(x, y)` is the sheet that
/// [`sheet_spec`] describes, and fits where [`sheet_fits`] says.
proof fn lemma_sheet_grid(x: u32, y: u32)
    ensures
        ({
            let grid = Grid::of((FRAME_SIZE, FRAME_SIZE), FRAME_COUNT, 1, None, Some((x, y)));
            &&& grid.fits() == sheet_fits(x, y)
            &&& grid.width() == sheet_spec(x, y).width
            &&& grid.height() == sheet_spec(x, y).height
            &&& sheet_fits(x, y) ==> grid.tiles() == sheet_spec(x, y).textures
        }),
{
    let grid = Grid::of((FRAME_SIZE, FRAME_SIZE), FRAME_COUNT, 1, None, Some((x, y)));
    assert(grid.top(0) == y);
    if sheet_fits(x, y) {
        assert forall|i: int| 0 <= i < FRAME_COUNT implies grid.tiles()[i] == sheet_frame(
            x,
            y,
            i,
        ) by {
            assert(grid.left(i) == x + FRAME_SIZE * i);
        }
    }
}

/// Cuts the sprite sheet of a character out of the atlas: `FRAME_COUNT`
/// square frames of `FRAME_SIZE` pixels, side by side, the first one at the
/// top-left corner of `rect`. Returns `None` where the sheet would reach
/// beyond what 32 bits can say.
pub fn character_sheet(rect: &PixelRect) -> (sheet: Option<AtlasLayout>)
    ensures
        sheet is Some <==> sheet_fits(rect.min_x, rect.min_y),
        sheet matches Some(layout) ==> layout@ == sheet_spec(rect.min_x, rect.min_y),
{
    proof {
        lemma_sheet_grid(rect.min_x, rect.min_y);
    }
    AtlasLayout::from_grid(
        (FRAME_SIZE, FRAME_SIZE),
        FRAME_COUNT,
        1,
        None,
        Some((rect.min_x, rect.min_y)),
    )
}

/// What is known of one loaded image once the atlas is packed.
#[derive(Debug, PartialEq, Eq)]
pub struct LoadedImage {
    /// The asset path that the image was loaded from, if it still has one.
    pub path: Option<CharacterId>,
    /// The index of the image's texture in the atlas, if the atlas has one
    /// for it.
    pub atlas_index: Option<usize>,
}

/// Why no character database could be made.
#[derive(Debug, Clone, Copy, PartialEq, Eq, Structural)]
pub enum AtlasError {
    /// The atlas has no index for an image.
    MissingIndex,
    /// The atlas has no texture at the index of an image.
    MissingTexture,
    /// The sheet of an image would reach beyond what 32 bits can say.
    SheetOutOfRange,
    /// An image has no asset path to name its character by.
    MissingPath,
}

impl AtlasError {
    /// What is said of the error when the program gives up on it.
    pub open spec fn message_spec(self) -> Seq<char> {
        match self {
            AtlasError::MissingIndex => "should exist"@,
            AtlasError::MissingTexture => "should exist"@,
            AtlasError::SheetOutOfRange => "attempt to add with overflow"@,
            AtlasError::MissingPath => "path still exists"@,
        }
    }

    /// What to say of the error when the program gives up on it.
    pub fn message(&self) -> (text: &'static str)
        ensures
            text@ == self.message_spec(),
    {
        match self {
            AtlasError::MissingIndex => "should exist",
            AtlasError::MissingTexture => "should exist",
            AtlasError::SheetOutOfRange => "attempt to add with overflow",
            AtlasError::MissingPath => "path still exists",
        }
    }
}

/// What the loading phase ends with.
#[derive(Debug)]
pub struct GeneratedAtlas {
    /// The database of the characters whose images were loaded.
    pub characters: Characters,
    /// The state to enter next.
    pub next_state: AssetLoadingState,
}

/// What is wrong with `image`, if anything, given the textures of the atlas.
pub open spec fn image_fault(image: LoadedImage, textures: Seq<PixelRect>) -> Option<AtlasError> {
    match image.atlas_index {
        None => Some(AtlasError::MissingIndex),
        Some(index) => if index >= textures.len() {
            Some(AtlasError::MissingTexture)
        } else if !sheet_fits(textures[index as int].min_x, textures[index as int].min_y) {
            Some(AtlasError::SheetOutOfRange)
        } else if image.path is None {
            Some(AtlasError::MissingPath)
        } else {
            None
        },
    }
}

/// The id under which a faultless `image` is recorded: its asset path.
pub open spec fn image_id(image: LoadedImage) -> Seq<char> {
    image.path.unwrap()@
}

/// What is recorded of a faultless `image`: the stats that every character
/// starts with, and the sheet cut out at its texture.
pub open spec fn image_data(image: LoadedImage, textures: Seq<PixelRect>) -> CharacterRawDataView {
    let rect = textures[image.atlas_index.unwrap() as int];
    CharacterRawDataView {
        stats: BaseStats { speed: BASE_SPEED, hp: BASE_HP, mp: BASE_MP },
        atlas_layout: sheet_spec(rect.min_x, rect.min_y),
    }
}

/// The fault of the first of `images` that has one.
pub open spec fn first_fault(images: Seq<LoadedImage>, textures: Seq<PixelRect>) -> Option<
    AtlasError,
>
    decreases images.len(),
{
    if images.len() == 0 {
        None
    } else {
        match first_fault(images.drop_last(), textures) {
            Some(fault) => Some(fault),
            None => image_fault(images.last(), textures),
        }
    }
}

/// The database made of `images` one after the other, a later image taking
/// the place of an earlier one of the same path.
pub open spec fn database(images: Seq<LoadedImage>, textures: Seq<PixelRect>) -> CharacterEntries
    decreases images.len(),
{
    if images.len() == 0 {
        Map::empty()
    } else {
        database(images.drop_last(), textures).insert(
            image_id(images.last()),
            image_data(images.last(), textures),
        )
    }
}

/// A fault after a faultless beginning is the first fault of every longer
/// beginning.
proof fn lemma_first_fault_found(
    images: Seq<LoadedImage>,
    textures: Seq<PixelRect>,
    k: int,
    n: int,
)
    requires
        0 <= k < n <= images.len(),
        first_fault(images.take(k), textures) is None,
        image_fault(images[k], textures) is Some,
    ensures
        first_fault(images.take(n), textures) == image_fault(images[k], textures),
    decreases n,
{
    assert(images.take(n).drop_last() == images.take(n - 1));
    if n > k + 1 {
        lemma_first_fault_found(images, textures, k, n - 1);
    }
}

/// There is no first fault exactly where no image has a fault.
pub proof fn lemma_faultless(images: Seq<LoadedImage>, textures: Seq<PixelRect>)
    ensures
        first_fault(images, textures) is None <==> forall|i: int|
            0 <= i < images.len() ==> image_fault(#[trigger] images[i], textures) is None,
    decreases images.len(),
{
    if images.len() > 0 {
        let front = images.drop_last();
        lemma_faultless(front, textures);
        if first_fault(images, textures) is None {
            assert forall|i: int| 0 <= i < images.len() implies image_fault(
                #[trigger] images[i],
                textures,
            ) is None by {
                if i < front.len() {
                    assert(front[i] == images[i]);
                }
            }
        }
    }
}

/// The first fault is the fault of an image before which no image has one.
pub proof fn lemma_first_fault_is_first(images: Seq<LoadedImage>, textures: Seq<PixelRect>)
    requires
        first_fault(images, textures) is Some,
    ensures
        exists|i: int|
            {
                &&& 0 <= i < images.len()
                &&& image_fault(#[trigger] images[i], textures) == first_fault(images, textures)
                &&& first_fault(images.take(i), textures) is None
            },
    decreases images.len(),
{
    let front = images.drop_last();
    if first_fault(front, textures) is Some {
        lemma_first_fault_is_first(front, textures);
        let i = choose|i: int|
            {
                &&& 0 <= i < front.len()
                &&& image_fault(#[trigger] front[i], textures) == first_fault(front, textures)
                &&& first_fault(front.take(i), textures) is None
            };
        assert(front.take(i) == images.take(i));
    } else {
        assert(images.take(images.len() - 1) == front);
    }
}

/// The database holds an id exactly where an image has it for its path.
pub proof fn lemma_database_ids(
    images: Seq<LoadedImage>,
    textures: Seq<PixelRect>,
    id: Seq<char>,
)
    ensures
        database(images, textures).contains_key(id) <==> exists|i: int|
            0 <= i < images.len() && image_id(#[trigger] images[i]) == id,
    decreases images.len(),
{
    if images.len() > 0 {
        let front = images.drop_last();
        lemma_database_ids(front, textures, id);
        if database(images, textures).contains_key(id) && image_id(images.last()) != id {
            let i = choose|i: int| 0 <= i < front.len() && image_id(#[trigger] front[i]) == id;
            assert(image_id(images[i]) == id);
        }
        if exists|i: int| 0 <= i < images.len() && image_id(#[trigger] images[i]) == id {
            let i = choose|i: int| 0 <= i < images.len() && image_id(#[trigger] images[i]) == id;
            if i < front.len() {
                assert(image_id(front[i]) == id);
            }
        }
    }
}

/// Under the path of an image the database holds what is recorded of the
/// last image of that path.
pub proof fn lemma_database_last_wins(
    images: Seq<LoadedImage>,
    textures: Seq<PixelRect>,
    i: int,
)
    requires
        0 <= i < images.len(),
        forall|j: int| i < j < images.len() ==> image_id(#[trigger] images[j]) != image_id(images[i]),
    ensures
        database(images, textures).contains_key(image_id(images[i])),
        database(images, textures)[image_id(images[i])] == image_data(images[i], textures),
    decreases images.len(),
{
    let front = images.drop_last();
    if i < images.len() - 1 {
        assert forall|j: int| i < j < front.len() implies image_id(#[trigger] front[j])
            != image_id(front[i]) by {
            assert(front[j] == images[j]);
        }
        lemma_database_last_wins(front, textures, i);
    }
}

/// Every character of the database starts with the same stats and has a
/// sheet of `FRAME_COUNT` frames.
pub proof fn lemma_database_entries(
    images: Seq<LoadedImage>,
    textures: Seq<PixelRect>,
    id: Seq<char>,
)
    requires
        database(images, textures).contains_key(id),
    ensures
        database(images, textures)[id].stats == (BaseStats {
            speed: BASE_SPEED,
            hp: BASE_HP,
            mp: BASE_MP,
        }),
        database(images, textures)[id].atlas_layout.textures.len() == FRAME_COUNT,
        database(images, textures)[id].atlas_layout.width == FRAME_SIZE * FRAME_COUNT,
        database(images, textures)[id].atlas_layout.height == FRAME_SIZE,
    decreases images.len(),
{
    if images.len() > 0 && image_id(images.last()) != id {
        lemma_database_entries(images.drop_last(), textures, id);
    }
}

/// The frames of a sheet that fits are squares of `FRAME_SIZE` pixels in one
/// row, each beginning where the one before it ends, the first one at the
/// corner of the texture.
pub proof fn lemma_sheet_frames(x: u32, y: u32, i: int)
    requires
        sheet_fits(x, y),
        0 <= i < FRAME_COUNT,
    ensures
        sheet_spec(x, y).textures.len() == FRAME_COUNT,
        sheet_spec(x, y).textures[i].width() == FRAME_SIZE,
        sheet_spec(x, y).textures[i].height() == FRAME_SIZE,
        sheet_spec(x, y).textures[i].min_y == y,
        sheet_spec(x, y).textures[0].min_x == x,
        i > 0 ==> sheet_spec(x, y).textures[i].min_x == sheet_spec(x, y).textures[i - 1].max_x,
        sheet_spec(x, y).textures[i].max_x <= x + sheet_spec(x, y).width,
{
}

/// Makes the character database once the atlas is packed: for each image,
/// in order, the sheet cut out at its texture and the stats that every
/// character starts with, recorded under the image's asset path. Stops at the
/// first image that has a fault. The state to enter next is `Loaded`.
pub fn generate_atlas(images: Vec<LoadedImage>, textures: &[PixelRect]) -> (generated: Result<
    GeneratedAtlas,
    AtlasError,
>)
    ensures
        generated is Ok <==> first_fault(images@, textures@) is None,
        generated matches Ok(atlas) ==> atlas.characters@ == database(images@, textures@),
        generated matches Ok(atlas) ==> atlas.next_state == AssetLoadingState::Loaded,
        generated matches Err(fault) ==> first_fault(images@, textures@) == Some(fault),
{
    let ghost all = images@;
    let mut characters = Characters::new();
    for image in iter: images.into_iter()
        invariant
            iter.seq() == all,
            first_fault(all.take(iter.index() as int), textures@) is None,
            characters@ == database(all.take(iter.index() as int), textures@),
    {
        proof {
            let k = iter.index() as int;
            assert(all.take(k + 1).drop_last() == all.take(k));
            assert(all.take(all.len() as int) == all);
            if image_fault(all[k], textures@) is Some {
                lemma_first_fault_found(all, textures@, k, all.len() as int);
            }
        }
        let index = match image.atlas_index {
            Some(index) => index,
            None => return Err(AtlasError::MissingIndex),
        };
        if index >= textures.len() {
            return Err(AtlasError::MissingTexture);
        }
        let atlas_layout = match character_sheet(&textures[index]) {
            Some(layout) => layout,
            None => return Err(AtlasError::SheetOutOfRange),
        };
        let id = match image.path {
            Some(path) => path,
            None => return Err(AtlasError::MissingPath),
        };
        characters.insert(
            id,
            CharacterRawData { speed: BASE_SPEED, hp: BASE_HP, mp: BASE_MP, atlas_layout },
        );
    }
    assert(all.take(all.len() as int) == all);
    Ok(GeneratedAtlas { characters, next_state: AssetLoadingState::Loaded })
}

} // verus!

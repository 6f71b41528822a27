//! The character database: what is known of each character, and what a
//! character is spawned with.

use crate::layout::{AtlasLayout, AtlasLayoutView};
use bevy::platform::collections::HashMap;
use vstd::prelude::*;

verus! {

/// A character is named by the asset path of its texture.
pub type CharacterId = Box<str>;

/// `bevy::platform::collections::HashMap`, of which the verifier sees
/// nothing but the name.
#[verifier::external_type_specification]
#[verifier::external_body]
#[verifier::reject_recursive_types(K)]
#[verifier::reject_recursive_types(V)]
#[verifier::reject_recursive_types(S)]
pub struct ExHashMap<K, V, S>(bevy::platform::collections::HashMap<K, V, S>);

/// `bevy::platform::hash::FixedHasher`, the hasher that such a map has
/// unless it is given another.
#[verifier::external_type_specification]
#[verifier::external_body]
pub struct ExFixedHasher(bevy::platform::hash::FixedHasher);

/// The stats a character starts with, in whole points.
#[derive(Clone, Copy, Debug, PartialEq, Eq, Structural)]
pub struct BaseStats {
    pub speed: u32,
    pub hp: u32,
    pub mp: u32,
}

impl From<CharacterRawData> for BaseStats {
    fn from(data: CharacterRawData) -> (stats: Self) {
        Self { speed: data.speed, hp: data.hp, mp: data.mp }
    }
}

impl vstd::std_specs::convert::FromSpecImpl<CharacterRawData> for BaseStats {
    open spec fn obeys_from_spec() -> bool {
        true
    }

    open spec fn from_spec(data: CharacterRawData) -> BaseStats {
        data@.stats
    }
}

/// What the database holds of one character.
#[derive(Debug, PartialEq, Eq)]
pub struct CharacterRawData {
    pub speed: u32,
    pub hp: u32,
    pub mp: u32,
    /// The frames of the character's animation within the atlas image.
    pub atlas_layout: AtlasLayout,
}

/// The mathematical value of a [`CharacterRawData`].
pub struct CharacterRawDataView {
    pub stats: BaseStats,
    pub atlas_layout: AtlasLayoutView,
}

impl Clone for CharacterRawData {
    fn clone(&self) -> (copy: Self)
        ensures
            copy@ == self@,
    {
        CharacterRawData {
            speed: self.speed,
            hp: self.hp,
            mp: self.mp,
            atlas_layout: self.atlas_layout.clone(),
        }
    }
}

impl View for CharacterRawData {
    type V = CharacterRawDataView;

    open spec fn view(&self) -> CharacterRawDataView {
        CharacterRawDataView {
            stats: BaseStats { speed: self.speed, hp: self.hp, mp: self.mp },
            atlas_layout: self.atlas_layout@,
        }
    }
}

/// How many times its pixels a sprite is drawn: six times as wide and as
/// high.
pub const SPRITE_SCALE: u32 = 6;

/// How a character's sprite is drawn.
#[derive(Clone, Copy, Debug, PartialEq, Eq, Structural)]
pub struct SpriteSettings {
    /// The factor by which the sprite is enlarged in both directions.
    pub scale: u32,
    /// Whether the sprite is mirrored left to right.
    pub flip_x: bool,
    /// How far right of the origin the sprite stands.
    pub offset_x: i32,
}

/// A sprite sheet and the frame of it that is shown.
#[derive(Debug, PartialEq, Eq)]
pub struct AtlasFrame {
    pub layout: AtlasLayout,
    pub index: usize,
}

impl AtlasFrame {
    /// The first frame of `layout`.
    pub fn new(layout: AtlasLayout) -> (frame: AtlasFrame)
        ensures
            frame.layout == layout,
            frame.index == 0,
    {
        AtlasFrame { layout, index: 0 }
    }
}

/// What a character is spawned with.
#[derive(Debug, PartialEq, Eq)]
pub struct CharacterBundle {
    pub sprite: SpriteSettings,
    pub atlas: AtlasFrame,
    pub stats: BaseStats,
}

/// The mathematical value of a [`CharacterBundle`].
pub struct CharacterBundleView {
    pub sprite: SpriteSettings,
    pub layout: AtlasLayoutView,
    pub index: usize,
    pub stats: BaseStats,
}

impl View for CharacterBundle {
    type V = CharacterBundleView;

    open spec fn view(&self) -> CharacterBundleView {
        CharacterBundleView {
            sprite: self.sprite,
            layout: self.atlas.layout@,
            index: self.atlas.index,
            stats: self.stats,
        }
    }
}

impl CharacterBundleView {
    /// The bundle of a character of which the database holds `data`: its
    /// sprite enlarged, unmirrored and at the origin, the first frame of its
    /// sheet, and its stats.
    pub open spec fn of(data: CharacterRawDataView) -> CharacterBundleView {
        CharacterBundleView {
            sprite: SpriteSettings { scale: SPRITE_SCALE, flip_x: false, offset_x: 0 },
            layout: data.atlas_layout,
            index: 0,
            stats: data.stats,
        }
    }
}

/// What a character map holds: for each id the value of its data.
pub type CharacterEntries = Map<Seq<char>, CharacterRawDataView>;

/// The entries of a character map.
pub uninterp spec fn character_entries(map: HashMap<CharacterId, CharacterRawData>) -> Map<
    Seq<char>,
    CharacterRawDataView,
>;

/// Calls `HashMap::new` of `bevy::platform::collections`, which returns a map
/// without entries.
#[verifier::external_body]
fn map_new() -> (made: HashMap<CharacterId, CharacterRawData>)
    ensures
        character_entries(made) == CharacterEntries::empty(),
{
    HashMap::new()
}

/// Calls `HashMap::insert`, which binds `id` to `data` in place of what `id`
/// was bound to before and leaves the other entries as they were.
#[verifier::external_body]
fn map_insert(
    map: &mut HashMap<CharacterId, CharacterRawData>,
    id: CharacterId,
    data: CharacterRawData,
)
    ensures
        character_entries(*final(map)) == character_entries(*old(map)).insert(id@, data@),
{
    map.insert(id, data);
}

/// Calls `HashMap::get`, which returns the data that `id` is bound to, if
/// any.
#[verifier::external_body]
fn map_get<'a>(map: &'a HashMap<CharacterId, CharacterRawData>, id: &CharacterId) -> (found:
    Option<&'a CharacterRawData>)
    ensures
        found is Some <==> character_entries(*map).contains_key(id@),
        found matches Some(data) ==> data@ == character_entries(*map)[id@],
{
    map.get(id)
}

/// Calls `Box::<str>::from`, which copies the text of `path` into a box.
#[verifier::external_body]
pub(crate) fn character_id(path: &str) -> (id: CharacterId)
    ensures
        id@ == path@,
{
    Box::from(path)
}

/// The characters that can be spawned.
#[derive(Debug)]
pub struct Characters {
    pub character_map: HashMap<CharacterId, CharacterRawData>,
}

impl View for Characters {
    type V = Map<Seq<char>, CharacterRawDataView>;

    open spec fn view(&self) -> Map<Seq<char>, CharacterRawDataView> {
        character_entries(self.character_map)
    }
}

impl Characters {
    /// A database without characters.
    pub fn new() -> (characters: Characters)
        ensures
            characters@ == CharacterEntries::empty(),
    {
        Characters { character_map: map_new() }
    }

    /// Records `data` under `id`, in place of what was recorded under `id`
    /// before.
    pub fn insert(&mut self, id: CharacterId, data: CharacterRawData)
        ensures
            final(self)@ == old(self)@.insert(id@, data@),
    {
        map_insert(&mut self.character_map, id, data);
    }

    /// The bundle to spawn the character `id` with, or `None` where the
    /// database holds no such character.
    pub fn character(&self, id: CharacterId) -> (bundle: Option<CharacterBundle>)
        ensures
            bundle is Some <==> self@.contains_key(id@),
            bundle matches Some(b) ==> b@ == CharacterBundleView::of(self@[id@]),
    {
        let data = map_get(&self.character_map, &id)?;
        Some(
            CharacterBundle {
                sprite: SpriteSettings { scale: SPRITE_SCALE, flip_x: false, offset_x: 0 },
                atlas: AtlasFrame::new(data.atlas_layout.clone()),
                stats: BaseStats::from(data.clone()),
            },
        )
    }
}

} // verus!

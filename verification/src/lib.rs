//! Verified rules of a small sprite demo: which images are loaded, how the
//! packed atlas is cut into one sprite sheet per character, how characters
//! are looked up, and how a sprite steps through its frames.

pub mod animation;
pub mod atlas_asset_loading;
pub mod characters;
pub mod layout;
pub mod spawn;

//! The loaded game assets: handle tables for blueprints, emote images and
//! sound waves, keyed by the asset's file stem. Loading the files is the
//! asset layer's work; the engine only looks handles up.

use vstd::prelude::*;

use crate::animation::AnimationClips;
use crate::animation::lookup_handle;

verus! {

/// Handle tables for the game's loaded assets.
#[derive(Debug)]
pub struct GameAssets {
    pub blueprints: Vec<(String, u64)>,
    pub emotes: Vec<(String, u64)>,
    pub sound_waves: Vec<(String, u64)>,
}

impl GameAssets {
    /// The handle of the named sound wave, if loaded: the lookup a footsteps
    /// property resolves through.
    pub fn sound_wave(&self, name: &String) -> (r: Option<u64>)
        ensures
            r == AnimationClips::lookup(self.sound_waves@, name@),
    {
        lookup_handle(&self.sound_waves, name)
    }

    /// The handle of the named emote image, for the emote action's pop-up.
    pub fn emote(&self, name: &String) -> (r: Option<u64>)
        ensures
            r == AnimationClips::lookup(self.emotes@, name@),
    {
        lookup_handle(&self.emotes, name)
    }
}

} // verus!

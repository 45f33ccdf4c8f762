//! A tiny registry for the raw assets the application ships with.
//!
//! The bytes themselves (menu artwork, the reserved leaderboard block) are
//! embedded by the host binary; the registry only fixes the handle each asset
//! is looked up by. An asset the host has not wired up yet resolves to an
//! empty byte block.

use vstd::prelude::*;

verus! {

/// The assets the application can ask for.
#[derive(Clone, Copy, PartialEq, Eq, Structural, Debug)]
pub enum AppAsset {
    MainMenuImage,
    Leaderboard,
}

/// A raw asset: a borrowed block of bytes.
pub struct Asset {
    pub bytes: &'static [u8],
}

impl Asset {
    /// Wraps a byte block the host embedded.
    pub fn new(bytes: &'static [u8]) -> (a: Asset)
        ensures
            a.bytes@ == bytes@,
    {
        Asset { bytes }
    }
}

/// Resolves an asset handle. Both assets are supplied by the host binary at
/// startup (the artwork to the renderer, the leaderboard block through the
/// reserved section), so the registry itself carries no bytes for them.
pub fn get_resource(asset: AppAsset) -> (a: Asset)
    ensures
        a.bytes@.len() == 0,
{
    match asset {
        AppAsset::MainMenuImage => Asset::new(&[]),
        AppAsset::Leaderboard => Asset::new(&[]),
    }
}

} // verus!

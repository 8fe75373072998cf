//! The asset kinds the viewer loads, and the file extension each is known by.
//! The asset server's loading itself is done on the application side.
use vstd::prelude::*;

verus! {

broadcast use vstd::string::group_string_axioms;

/// Loads a character's collision archive.
#[derive(Clone, Copy, Debug, Default)]
pub struct PacLoader;

/// A compiled behaviour script, as raw bytes.
#[derive(Debug, Default)]
pub struct BBSAsset {
    /// The script's bytes.
    pub value: Vec<u8>,
}

/// Loads a compiled behaviour script.
#[derive(Clone, Copy, Debug, Default)]
pub struct BBSLoader;

/// Loads the command database of a game.
#[derive(Clone, Copy, Debug, Default)]
pub struct RonLoader;

impl PacLoader {
    /// The extensions of the files this loader takes: `pac`.
    pub fn extensions(&self) -> (r: &'static [&'static str])
        ensures
            r@.len() == 1,
            r@[0]@ == "pac"@,
    {
        &["pac"]
    }
}

impl BBSAsset {
    /// An asset that holds `bytes`.
    pub fn new(bytes: Vec<u8>) -> (r: BBSAsset)
        ensures
            r.value == bytes,
    {
        BBSAsset { value: bytes }
    }
}

impl BBSLoader {
    /// The extensions of the files this loader takes: `bbscript`.
    pub fn extensions(&self) -> (r: &'static [&'static str])
        ensures
            r@.len() == 1,
            r@[0]@ == "bbscript"@,
    {
        &["bbscript"]
    }

    /// The asset made of a loaded file's bytes, which it keeps as they are.
    pub fn load(&self, bytes: &[u8]) -> (r: BBSAsset)
        ensures
            r.value@ == bytes@,
    {
        BBSAsset { value: vstd::slice::slice_to_vec(bytes) }
    }
}

impl RonLoader {
    /// The extensions of the files this loader takes: `ron`.
    pub fn extensions(&self) -> (r: &'static [&'static str])
        ensures
            r@.len() == 1,
            r@[0]@ == "ron"@,
    {
        &["ron"]
    }
}

} // verus!

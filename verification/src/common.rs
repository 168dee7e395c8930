//! Structures shared between the clientbound and the serverbound packets of
//! the Configuration state.

use vstd::prelude::*;
use vstd::string::StringExecFns;

verus! {

/// A data pack the two ends agree on: a namespaced name such as
/// `minecraft:core`, and a version.
#[derive(Clone, PartialEq, Eq, Debug)]
pub struct ConfigKnownPackEntry {
    pub name: String,
    pub version: String,
}

/// The spec-level shape of an entry: the character sequences of its fields.
pub struct KnownPackView {
    pub name: Seq<char>,
    pub version: Seq<char>,
}

impl View for ConfigKnownPackEntry {
    type V = KnownPackView;

    open spec fn view(&self) -> KnownPackView {
        KnownPackView { name: self.name@, version: self.version@ }
    }
}

impl ConfigKnownPackEntry {
    /// The core pack every client is expected to know.
    pub fn minecraft_core() -> (r: ConfigKnownPackEntry)
        ensures
            r.name@ == "minecraft:core"@,
            r.version@ == "1.21.6"@,
    {
        ConfigKnownPackEntry {
            name: String::from_str("minecraft:core"),
            version: String::from_str("1.21.6"),
        }
    }
}

} // verus!

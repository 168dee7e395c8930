//! The server-wide list of worlds.

use vstd::prelude::*;

use crate::dimension::DimensionType;

verus! {

/// One world: the dimension type it lives in. Terrain generation is the
/// caller's collaborator, keyed to the world by its index.
pub struct World {
    pub dimension_type: DimensionType,
}

/// Owns every world the server runs.
pub struct WorldManager {
    pub worlds: Vec<World>,
}

impl Default for WorldManager {
    /// A manager with no worlds yet.
    fn default() -> (r: Self)
        ensures
            r.worlds@.len() == 0,
    {
        WorldManager { worlds: Vec::new() }
    }
}

impl WorldManager {
    /// Creates a world of the given dimension type and returns its index,
    /// by which callers and their terrain generators refer to it.
    pub fn create_world(&mut self, dimension: DimensionType) -> (r: usize)
        ensures
            final(self).worlds@ == old(self).worlds@.push(World { dimension_type: dimension }),
            r == old(self).worlds@.len(),
    {
        let index = self.worlds.len();
        self.worlds.push(World { dimension_type: dimension });
        index
    }
}

} // verus!

use vstd::prelude::*;

verus! {

/// A mega tile: the four micro tiles (level pieces) of a 2x2 block, in the order
/// top-left, top-right, bottom-left, bottom-right.
#[derive(Debug, Clone, Copy, PartialEq, Eq, Structural)]
pub struct MegaTile {
    pub micro1: u16,
    pub micro2: u16,
    pub micro3: u16,
    pub micro4: u16,
}

/// The mega tile definitions of a level type, indexed from 0.
#[derive(Debug, Clone)]
pub struct TilData {
    pub mega_tiles: Vec<MegaTile>,
}

impl TilData {
    /// The mega tile at `index`, if there is one.
    pub fn get(&self, index: usize) -> (r: Option<&MegaTile>)
        ensures
            index < self.mega_tiles@.len() ==> r == Some(&self.mega_tiles@[index as int]),
            index >= self.mega_tiles@.len() ==> r is None,
    {
        if index < self.mega_tiles.len() {
            Some(&self.mega_tiles[index])
        } else {
            None
        }
    }

    /// The number of mega tiles.
    pub fn len(&self) -> (n: usize)
        ensures
            n == self.mega_tiles@.len(),
    {
        self.mega_tiles.len()
    }
}

} // verus!

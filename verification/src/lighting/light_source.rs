use vstd::prelude::*;

verus! {

/// What emits a light.
#[derive(Debug, Clone, Copy, PartialEq, Eq, Structural)]
pub enum LightType {
    Player,
    Torch,
    Spell,
    Monster,
}

/// A light on the micro tile map.
#[derive(Debug, Clone, Copy)]
pub struct LightSource {
    pub id: usize,
    pub light_type: LightType,
    /// Micro tile coordinates.
    pub position: (usize, usize),
    /// Radius in tiles.
    pub radius: u8,
    pub active: bool,
}

impl LightSource {
    /// The player's light: radius 10, active, id assigned later.
    pub fn player(position: (usize, usize)) -> (s: LightSource)
        ensures
            s == (LightSource { id: 0, light_type: LightType::Player, position, radius: 10, active: true }),
    {
        LightSource { id: 0, light_type: LightType::Player, position, radius: 10, active: true }
    }

    /// A torch: radius 8, active, id assigned later.
    pub fn torch(position: (usize, usize)) -> (s: LightSource)
        ensures
            s == (LightSource { id: 0, light_type: LightType::Torch, position, radius: 8, active: true }),
    {
        LightSource { id: 0, light_type: LightType::Torch, position, radius: 8, active: true }
    }
}

} // verus!

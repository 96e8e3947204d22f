//! Pools of model handles. A handle is an opaque number that the renderer
//! understands; nothing here looks inside one.

use crate::random::choose_from;
use vstd::prelude::*;

verus! {

/// The models that each kind of body can be drawn with.
#[derive(PartialEq, Eq, Debug)]
pub struct SceneAssets {
    pub spaceship: Vec<u64>,
    pub asteroid: Vec<u64>,
    pub bullet: Vec<u64>,
}

/// Whether `picked` is a fair answer for a draw from `pool`: nothing from
/// an empty pool, otherwise one of its items.
pub open spec fn drawn_from(pool: Seq<u64>, picked: Option<u64>) -> bool {
    match picked {
        Some(handle) => pool.contains(handle),
        None => pool.len() == 0,
    }
}

impl SceneAssets {
    /// Pools without models.
    pub fn new() -> (assets: SceneAssets)
        ensures
            assets.spaceship@.len() == 0,
            assets.asteroid@.len() == 0,
            assets.bullet@.len() == 0,
    {
        SceneAssets { spaceship: Vec::new(), asteroid: Vec::new(), bullet: Vec::new() }
    }

    /// One of the spaceship models at random; `None` when there is none.
    pub fn get_random_spaceship(&self) -> (picked: Option<u64>)
        ensures
            drawn_from(self.spaceship@, picked),
    {
        choose_from(&self.spaceship)
    }

    /// One of the asteroid models at random; `None` when there is none.
    pub fn get_random_asteroid(&self) -> (picked: Option<u64>)
        ensures
            drawn_from(self.asteroid@, picked),
    {
        choose_from(&self.asteroid)
    }

    /// One of the bullet models at random; `None` when there is none.
    pub fn get_random_bullet(&self) -> (picked: Option<u64>)
        ensures
            drawn_from(self.bullet@, picked),
    {
        choose_from(&self.bullet)
    }
}

impl Default for SceneAssets {
    fn default() -> (assets: SceneAssets)
        ensures
            assets.spaceship@.len() == 0,
            assets.asteroid@.len() == 0,
            assets.bullet@.len() == 0,
    {
        SceneAssets::new()
    }
}

} // verus!

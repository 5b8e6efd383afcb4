//! Labels of the engine's systems, and marker data of its entities.

use vstd::prelude::*;
use crate::ecs::Entity;

verus! {

/// Labels for animation systems.
#[derive(Debug, Clone, Copy, PartialEq, Eq, Hash)]
pub enum AnimationSystem {
    /// Ticking the time in animation players.
    PlayerTicking,
    /// Initialize/update curve bindings.
    PlayerCurveBind,
    /// Sample the curves and apply to the entities.
    PlayerSampling,
}

/// System label for kinetics systems.
#[derive(Debug, Clone, Copy, PartialEq, Eq, Hash)]
pub enum KineticsSystem {
    /// Update velocity from acceleration.
    Acceleration,
    /// Update position from velocity.
    Movement,
    /// Coordinate conversion from pseudo 3D to 2D.
    CoordinateTranslation,
}

/// Labels for the bounding box systems.
#[derive(Debug, Clone, Copy, PartialEq, Eq, Hash)]
pub enum BoundingBoxSystem {
    /// Set up for newly added [`BoundingBoxRoot`]s.
    AddBoundingBox,
    /// Update bounding boxes upon changes of sprites or textures.
    UpdateBoundingBox,
}

/// Default asset loading states.
#[derive(Debug, Clone, Copy, PartialEq, Eq, Hash, Default)]
pub enum AssetState {
    /// State where at least one asset in one asset collection is loading.
    #[default]
    AssetLoading,
    /// All assets in all asset collections have finished loading successfully.
    AssetReady,
    /// At least one asset in one asset collection failed loading.
    LoadFailure,
}

/// Tag component for projectiles.
#[derive(Debug, Clone, Copy)]
pub struct Projectile;

/// Component marking the root entity for bounding boxes.
#[derive(Debug, Clone, Copy, Default)]
pub struct BoundingBoxRoot {
    /// Visibility of all these bounding boxes.
    pub is_visible: bool,
}

/// The almanac entity.
#[derive(Debug, Clone, Copy, PartialEq, Eq)]
pub struct Almanac(pub Entity);

} // verus!

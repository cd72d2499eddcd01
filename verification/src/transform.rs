//! Positions and the slice of a scene transform that the plugin logic touches.

use vstd::prelude::*;

verus! {

/// A point (or translation) with non-negative integer coordinates, as the
/// plugin stores on each entity it spawns.
#[derive(Clone, Copy, PartialEq, Eq, Structural, Debug)]
pub struct Vec3u {
    pub x: u64,
    pub y: u64,
    pub z: u64,
}

impl Vec3u {
    /// The origin, (0, 0, 0).
    pub open spec fn spec_zero() -> Vec3u {
        Vec3u { x: 0, y: 0, z: 0 }
    }

    pub fn zero() -> (r: Vec3u)
        ensures
            r == Vec3u::spec_zero(),
    {
        Vec3u { x: 0, y: 0, z: 0 }
    }
}

/// What the plugin reads and writes of a scene transform. The host engine
/// stores a transform as a floating-point translation, rotation and scale;
/// the routines here only ever write integer translations with the rotation
/// left at the identity and the scale at one, and only ever compare whole
/// transforms against the engine's default. So a transform is kept as its
/// integer translation plus whether rotation and scale still hold those
/// neutral values.
#[derive(Clone, Copy, PartialEq, Eq, Structural, Debug)]
pub struct Transform3 {
    pub translation: Vec3u,
    pub rotation_is_identity: bool,
    pub scale_is_unit: bool,
}

impl Transform3 {
    /// Identity-at-origin: the engine's default for a fresh local or world
    /// transform.
    pub open spec fn spec_identity() -> Transform3 {
        Transform3 {
            translation: Vec3u { x: 0, y: 0, z: 0 },
            rotation_is_identity: true,
            scale_is_unit: true,
        }
    }

    pub fn identity() -> (r: Transform3)
        ensures
            r == Transform3::spec_identity(),
    {
        Transform3 {
            translation: Vec3u { x: 0, y: 0, z: 0 },
            rotation_is_identity: true,
            scale_is_unit: true,
        }
    }

    /// Whether this transform is (bit-)equal to the engine's default.
    pub open spec fn is_default(self) -> bool {
        self == Transform3::spec_identity()
    }

    /// The translation-only transform at `p`: rotation identity, scale one.
    pub open spec fn spec_translation(p: Vec3u) -> Transform3 {
        Transform3 { translation: p, rotation_is_identity: true, scale_is_unit: true }
    }

    /// Build the translation-only transform at `p`, discarding any prior
    /// rotation or scale.
    pub fn translation_at(p: Vec3u) -> (r: Transform3)
        ensures
            r == Transform3::spec_translation(p),
    {
        Transform3 { translation: p, rotation_is_identity: true, scale_is_unit: true }
    }
}

} // verus!

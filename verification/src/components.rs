//! Plain components and system sets of the plugin.
use vstd::prelude::*;

verus! {

/// Public system sets for ordering gameplay around Box3D.
#[derive(Clone, Copy, Debug, PartialEq, Eq, Hash, Structural)]
pub enum Box3dSet {
    Sync,
    Step,
    Writeback,
}

/// Bevy rigid-body marker.
#[derive(Clone, Copy, Debug, PartialEq, Eq, Structural)]
pub enum RigidBody {
    Static,
    Kinematic,
    Dynamic,
}

/// Linear and angular motion locks synced into Box3D
#[derive(Clone, Copy, Debug, Default, PartialEq, Eq, Structural)]
pub struct MotionLocks {
    pub linear_x: bool,
    pub linear_y: bool,
    pub linear_z: bool,
    pub angular_x: bool,
    pub angular_y: bool,
    pub angular_z: bool,
}

/// Allow higher angular velocity for small dynamic bodies such as vehicle wheels.
#[derive(Clone, Copy, Debug, Default)]
pub struct FastRotation;

impl MotionLocks {
    /// Restricts a body to the XY plane while allowing rotation around Z
    pub fn planar_xy() -> (locks: MotionLocks)
        ensures
            locks == (MotionLocks {
                linear_x: false,
                linear_y: false,
                linear_z: true,
                angular_x: true,
                angular_y: true,
                angular_z: false,
            }),
    {
        MotionLocks {
            linear_x: false,
            linear_y: false,
            linear_z: true,
            angular_x: true,
            angular_y: true,
            angular_z: false,
        }
    }
}

} // verus!

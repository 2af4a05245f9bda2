//! Verified core of the Box3D integration: stable handle encodings, the
//! registry that maps entities to native handles, and the bookkeeping rules
//! that the plugin applies around each physics step.
pub mod components;
pub mod counts;
pub mod entity;
pub mod ids;
pub mod interpolation;
pub mod messages;
pub mod registry;

pub use components::{Box3dSet, FastRotation, MotionLocks, RigidBody};
pub use ids::{BodyId, ContactId, JointId, ShapeId, ShapeQueryHandle, WorldId};
pub use messages::{
    Box3dContactEnded, Box3dContactStarted, Box3dSensorEnded, Box3dSensorStarted,
    ContactTouchEvent, JointEvent, SensorTouchEvent,
};
pub use registry::Box3dWorld;

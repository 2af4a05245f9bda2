use bevy_box3d::{Box3dSet, MotionLocks, RigidBody};

#[test]
fn planar_xy_locks_depth_and_tilt() {
    let locks = MotionLocks::planar_xy();
    assert!(!locks.linear_x);
    assert!(!locks.linear_y);
    assert!(locks.linear_z);
    assert!(locks.angular_x);
    assert!(locks.angular_y);
    assert!(!locks.angular_z);
    assert_ne!(locks, MotionLocks::default());
}

#[test]
fn markers_compare_by_variant() {
    assert_eq!(RigidBody::Static, RigidBody::Static);
    assert_ne!(RigidBody::Static, RigidBody::Dynamic);
    assert_ne!(Box3dSet::Sync, Box3dSet::Step);
}

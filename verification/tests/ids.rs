use bevy_box3d::{BodyId, ContactId, JointId, ShapeId, ShapeQueryHandle, WorldId};

#[test]
fn ids_round_trip_through_stable_bits() {
    let world_bits = 0x0012_0034;
    let body_bits = 0x0000_0042_0007_0011;
    let shape_bits = 0x0000_0043_0007_0012;
    let joint_bits = 0x0000_0044_0007_0013;
    let contact_bits = [42, 7, 99];

    let world = WorldId::from_bits(world_bits);
    assert_eq!(world.to_bits(), world_bits);
    assert_eq!(WorldId::from_bits(world.to_bits()), world);

    let body = BodyId::from_bits(body_bits);
    assert_eq!(body.to_bits(), body_bits);
    assert_eq!(BodyId::from_bits(body.to_bits()), body);

    let shape = ShapeId::from_bits(shape_bits);
    assert_eq!(shape.to_bits(), shape_bits);
    assert_eq!(ShapeId::from_bits(shape.to_bits()), shape);

    let joint = JointId::from_bits(joint_bits);
    assert_eq!(joint.to_bits(), joint_bits);
    assert_eq!(JointId::from_bits(joint.to_bits()), joint);

    let contact = ContactId::from_bits(contact_bits);
    assert_eq!(contact.to_bits(), contact_bits);
    assert_eq!(ContactId::from_bits(contact.to_bits()), contact);
}

#[test]
fn packed_parts_land_in_their_fields() {
    let world = WorldId::from_bits(0x0012_0034);
    assert_eq!(world.index1(), 0x12);
    assert_eq!(world.generation(), 0x34);

    let body = BodyId::from_bits(0x0000_0042_0007_0011);
    assert_eq!(body.index1(), 0x42);
    assert_eq!(body.world0(), 7);
    assert_eq!(body.generation(), 0x11);

    let built = ShapeId::from_raw(0x43, 7, 0x12);
    assert_eq!(built.to_bits(), 0x0000_0043_0007_0012);
}

#[test]
fn negative_index_round_trips() {
    let body = BodyId::from_raw(-1, 3, 9);
    assert_eq!(body.to_bits(), 0xFFFF_FFFF_0003_0009);
    assert_eq!(BodyId::from_bits(body.to_bits()), body);
    let joint = JointId::from_bits(0x8000_0000_0000_0000);
    assert_eq!(joint.index1(), i32::MIN);
    assert_eq!(joint.to_bits(), 0x8000_0000_0000_0000);
}

#[test]
fn handles_compare_by_bits() {
    assert_eq!(ShapeId::from_raw(1, 2, 3), ShapeId::from_bits(ShapeId::from_raw(1, 2, 3).to_bits()));
    assert_ne!(ShapeId::from_raw(1, 2, 3), ShapeId::from_raw(1, 2, 4));
    assert_ne!(BodyId::from_raw(1, 2, 3), BodyId::from_raw(2, 2, 3));
}

#[test]
fn shape_query_handle_holds_shape_bits() {
    let shape = ShapeId::from_raw(5, 1, 2);
    assert_eq!(shape.handle(), ShapeQueryHandle(0x0000_0005_0001_0002));
    let via_from: ShapeQueryHandle = shape.into();
    assert_eq!(via_from, shape.handle());
}

#[test]
fn contact_world_keeps_lower_sixteen_bits() {
    let contact = ContactId::from_bits([1, 0x0001_0005, 2]);
    assert_eq!(contact.world0(), 5);
    assert_eq!(contact.to_bits(), [1, 5, 2]);
    let negative = ContactId::from_raw(-2, 1, 3);
    assert_eq!(negative.to_bits(), [0xFFFF_FFFE, 1, 3]);
    assert_eq!(ContactId::from_bits(negative.to_bits()), negative);
}

use bevy_box3d::interpolation::drop_entity_entries;
use bevy_box3d::{BodyId, Box3dWorld, ShapeId};

fn mapping_test_world() -> Box3dWorld {
    Box3dWorld::new(16, 16, 32, 32)
}

/// What the body system does for an entity with a rigid body.
fn spawn_body(physics: &mut Box3dWorld, entity: u64, body: BodyId) {
    physics.register_body(entity, body);
}

/// What the shape systems do for a collider entity, with its parent if any.
fn spawn_collider(physics: &mut Box3dWorld, entity: u64, parent: Option<u64>, shape: ShapeId) {
    let (owner, _) = physics.collider_attachment(entity, parent).unwrap();
    physics.track_shape(entity, owner, shape, false);
}

/// What the cleanup systems do for a despawned entity.
fn despawn(physics: &mut Box3dWorld, entity: u64) {
    physics.remove_shape(entity);
    physics.remove_body(entity);
}

#[test]
fn mappings_round_trip() {
    let mut physics = mapping_test_world();
    let body = 11u64;
    let collider = 12u64;
    let unrelated = 13u64;
    spawn_body(&mut physics, body, BodyId::from_raw(0, 0, 1));
    spawn_collider(&mut physics, body, None, ShapeId::from_raw(0, 0, 1));
    spawn_collider(&mut physics, collider, Some(body), ShapeId::from_raw(1, 0, 1));

    let body_id = physics.body_id(body).unwrap();
    assert_eq!(physics.body_entity(body_id), Some(body));
    assert_eq!(physics.body_id(collider), None);

    for entity in [body, collider] {
        let shape_id = physics.shape_id(entity).unwrap();
        assert_eq!(physics.shape_entity(shape_id.into()), Some(entity));
        assert_eq!(physics.collider_body_entity(entity), Some(body));
    }

    assert_ne!(physics.shape_id(body), physics.shape_id(collider));
    assert_eq!(physics.body_id(unrelated), None);
    assert_eq!(physics.shape_id(unrelated), None);
    assert_eq!(physics.collider_body_entity(unrelated), None);
}

#[test]
fn mappings_clean_up_despawned_collider() {
    let mut physics = mapping_test_world();
    let body = 21u64;
    let collider = 22u64;
    spawn_body(&mut physics, body, BodyId::from_raw(0, 0, 1));
    spawn_collider(&mut physics, collider, Some(body), ShapeId::from_raw(0, 0, 1));

    let (body_id, shape_id) = (physics.body_id(body).unwrap(), physics.shape_id(collider).unwrap());

    despawn(&mut physics, collider);

    assert_eq!(physics.shape_id(collider), None);
    assert_eq!(physics.shape_entity(shape_id.into()), None);
    assert_eq!(physics.collider_body_entity(collider), None);

    assert_eq!(physics.body_id(body), Some(body_id));
    assert_eq!(physics.body_entity(body_id), Some(body));
}

#[test]
fn mappings_clean_up_despawned_body_and_owned_shapes() {
    let mut physics = mapping_test_world();
    let body = 31u64;
    let collider = 32u64;
    spawn_body(&mut physics, body, BodyId::from_raw(0, 0, 1));
    spawn_collider(&mut physics, body, None, ShapeId::from_raw(0, 0, 1));
    spawn_collider(&mut physics, collider, Some(body), ShapeId::from_raw(1, 0, 1));

    let (body_id, own_shape, child_shape) = (
        physics.body_id(body).unwrap(),
        physics.shape_id(body).unwrap(),
        physics.shape_id(collider).unwrap(),
    );

    despawn(&mut physics, body);

    assert_eq!(physics.body_id(body), None);
    assert_eq!(physics.body_entity(body_id), None);

    for (entity, shape) in [(body, own_shape), (collider, child_shape)] {
        assert_eq!(physics.shape_id(entity), None);
        assert_eq!(physics.shape_entity(shape.into()), None);
        assert_eq!(physics.collider_body_entity(entity), None);
    }
}

#[test]
fn mappings_follow_collider_reparenting() {
    let mut physics = mapping_test_world();
    let first = 41u64;
    let second = 42u64;
    let collider = 43u64;
    spawn_body(&mut physics, first, BodyId::from_raw(0, 0, 1));
    spawn_body(&mut physics, second, BodyId::from_raw(1, 0, 1));
    spawn_collider(&mut physics, collider, Some(first), ShapeId::from_raw(0, 0, 1));

    assert_eq!(physics.collider_body_entity(collider), Some(first));
    let (first_id, second_id, old_shape) = (
        physics.body_id(first).unwrap(),
        physics.body_id(second).unwrap(),
        physics.shape_id(collider).unwrap(),
    );

    // A changed parent replaces the native shape.
    physics.remove_shape(collider);
    spawn_collider(&mut physics, collider, Some(second), ShapeId::from_raw(1, 0, 1));

    let new_shape = physics.shape_id(collider).unwrap();
    assert_ne!(new_shape, old_shape);
    assert_eq!(physics.shape_entity(old_shape.into()), None);
    assert_eq!(physics.shape_entity(new_shape.into()), Some(collider));
    assert_eq!(physics.collider_body_entity(collider), Some(second));
    for (entity, id) in [(first, first_id), (second, second_id)] {
        assert_eq!(physics.body_id(entity), Some(id));
        assert_eq!(physics.body_entity(id), Some(entity));
    }

    // Removing the previous owner must leave the reparented collider intact
    despawn(&mut physics, first);

    assert_eq!(physics.body_entity(first_id), None);
    assert_eq!(physics.body_id(second), Some(second_id));
    assert_eq!(physics.shape_id(collider), Some(new_shape));
    assert_eq!(physics.shape_entity(new_shape.into()), Some(collider));
    assert_eq!(physics.collider_body_entity(collider), Some(second));
}

#[test]
fn mappings_resolve_query_handles_and_remove_them_after_despawn() {
    let mut physics = mapping_test_world();
    let entity = 51u64;
    spawn_body(&mut physics, entity, BodyId::from_raw(0, 0, 1));
    spawn_collider(&mut physics, entity, None, ShapeId::from_raw(0, 0, 1));

    let shape_id = physics.shape_id(entity).unwrap();
    let handle = shape_id.handle();
    assert_eq!(handle, shape_id.handle());
    assert_eq!(physics.shape_entity(handle), Some(entity));

    despawn(&mut physics, entity);

    assert_eq!(physics.shape_entity(handle), None);
}

#[test]
fn register_body_overwrites_earlier_entries() {
    let mut physics = mapping_test_world();
    let first = BodyId::from_raw(0, 0, 1);
    let second = BodyId::from_raw(5, 0, 1);
    physics.register_body(1, first);
    physics.register_body(1, second);
    assert_eq!(physics.body_id(1), Some(second));
    assert_eq!(physics.body_entity(second), Some(1));
    assert_eq!(physics.body_entity(first), Some(1));
    physics.register_body(2, second);
    assert_eq!(physics.body_entity(second), Some(2));
    assert_eq!(physics.body_id(1), Some(second));
    assert_eq!(physics.body_id(2), Some(second));
}

#[test]
fn track_shape_overwrites_earlier_entries() {
    let mut physics = mapping_test_world();
    let first = ShapeId::from_raw(0, 0, 1);
    let second = ShapeId::from_raw(1, 0, 1);
    physics.track_shape(7, 1, first, true);
    assert_eq!(physics.shape_id(7), Some(first));
    assert_eq!(physics.collider_body_entity(7), Some(1));
    physics.track_shape(7, 2, second, false);
    assert_eq!(physics.shape_id(7), Some(second));
    assert_eq!(physics.collider_body_entity(7), Some(2));
    assert_eq!(physics.shape_entity(second.handle()), Some(7));
    assert_eq!(physics.shape_entity(first.handle()), Some(7));
    assert!(physics.has_event_shapes());
    assert_eq!(physics.remove_shape(7), Some(second));
    assert_eq!(physics.shape_entity(second.handle()), None);
    assert_eq!(physics.shape_entity(first.handle()), Some(7));
    assert!(!physics.has_event_shapes());
    assert_eq!(physics.remove_shape(7), None);
}

#[test]
fn collider_attachment_follows_parent_or_self() {
    let mut physics = mapping_test_world();
    let body = BodyId::from_raw(3, 0, 1);
    assert_eq!(physics.collider_attachment(1, None), None);
    physics.register_body(1, body);
    assert_eq!(physics.collider_attachment(1, None), Some((1, body)));
    assert_eq!(physics.collider_attachment(2, Some(1)), Some((1, body)));
    assert_eq!(physics.collider_attachment(2, Some(9)), None);
    physics.track_shape(2, 1, ShapeId::from_raw(0, 0, 1), false);
    assert_eq!(physics.collider_attachment(2, Some(1)), None);
}

#[test]
fn remove_body_reports_body_and_owned_colliders() {
    let mut physics = mapping_test_world();
    let body = BodyId::from_raw(0, 0, 1);
    physics.register_body(1, body);
    physics.register_body(2, BodyId::from_raw(1, 0, 1));
    physics.track_shape(1, 1, ShapeId::from_raw(0, 0, 1), false);
    physics.track_shape(3, 1, ShapeId::from_raw(1, 0, 1), true);
    physics.track_shape(4, 2, ShapeId::from_raw(2, 0, 1), false);
    let (removed, mut shapes) = physics.remove_body(1);
    shapes.sort();
    assert_eq!(removed, Some(body));
    assert_eq!(shapes, vec![1, 3]);
    assert_eq!(physics.collider_body_entity(4), Some(2));
    assert!(!physics.has_event_shapes());
    assert_eq!(physics.remove_body(1), (None, vec![]));
}

#[test]
fn move_events_prefer_user_data_entity() {
    let mut physics = mapping_test_world();
    let body = BodyId::from_raw(0, 0, 1);
    physics.register_body(0x0000_0001_0000_0005, body);
    assert_eq!(physics.move_event_entity(0, body), Some(0x0000_0001_0000_0005));
    assert_eq!(physics.move_event_entity(9, body), Some(9));
    assert_eq!(physics.move_event_entity(0, BodyId::from_raw(4, 0, 1)), None);
}

#[test]
fn clear_hands_back_every_body() {
    let mut physics = mapping_test_world();
    let first = BodyId::from_raw(0, 0, 1);
    let second = BodyId::from_raw(1, 0, 1);
    physics.register_body(1, first);
    physics.register_body(2, second);
    physics.track_shape(3, 2, ShapeId::from_raw(0, 0, 1), true);
    let mut bodies = physics.clear();
    bodies.sort_by_key(|body| body.to_bits());
    assert_eq!(bodies, vec![first, second]);
    assert_eq!(physics.body_id(1), None);
    assert_eq!(physics.body_entity(second), None);
    assert_eq!(physics.shape_id(3), None);
    assert!(!physics.has_event_shapes());
}

#[test]
fn dropping_an_entity_keeps_other_entries_in_order() {
    let mut entries: Vec<(u64, u32)> = vec![(1, 10), (2, 20), (1, 11), (3, 30)];
    drop_entity_entries(&mut entries, 1);
    assert_eq!(entries, vec![(2, 20), (3, 30)]);
    drop_entity_entries(&mut entries, 9);
    assert_eq!(entries, vec![(2, 20), (3, 30)]);
}

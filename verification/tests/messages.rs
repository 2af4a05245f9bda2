use bevy_box3d::{
    BodyId, Box3dContactEnded, Box3dContactStarted, Box3dSensorEnded, Box3dSensorStarted,
    Box3dWorld, ContactId, ContactTouchEvent, SensorTouchEvent, ShapeId,
};

fn world_with_two_colliders() -> Box3dWorld {
    let mut physics = Box3dWorld::new(0, 0, 0, 0);
    physics.register_body(1, BodyId::from_raw(0, 0, 1));
    physics.register_body(2, BodyId::from_raw(1, 0, 1));
    physics.track_shape(1, 1, ShapeId::from_raw(0, 0, 1), true);
    physics.track_shape(2, 2, ShapeId::from_raw(1, 0, 1), true);
    physics
}

#[test]
fn contact_messages_name_registered_entities() {
    let physics = world_with_two_colliders();
    let a = ShapeId::from_raw(0, 0, 1);
    let b = ShapeId::from_raw(1, 0, 1);
    let unknown = ShapeId::from_raw(7, 0, 1);
    let contact = ContactId::from_raw(3, 0, 4);
    let events = vec![
        ContactTouchEvent { shape_a: a, shape_b: b, contact },
        ContactTouchEvent { shape_a: a, shape_b: unknown, contact },
        ContactTouchEvent { shape_a: b, shape_b: a, contact },
    ];
    assert_eq!(
        physics.contact_started_messages(&events),
        vec![
            Box3dContactStarted { entity_a: 1, entity_b: 2, shape_a: a, shape_b: b, contact },
            Box3dContactStarted { entity_a: 2, entity_b: 1, shape_a: b, shape_b: a, contact },
        ]
    );
    assert_eq!(
        physics.contact_ended_messages(&events[1..].to_vec()),
        vec![Box3dContactEnded { entity_a: 2, entity_b: 1, shape_a: b, shape_b: a, contact }]
    );
}

#[test]
fn sensor_messages_name_registered_entities() {
    let physics = world_with_two_colliders();
    let sensor = ShapeId::from_raw(0, 0, 1);
    let visitor = ShapeId::from_raw(1, 0, 1);
    let unknown = ShapeId::from_raw(7, 0, 1);
    let events = vec![
        SensorTouchEvent { sensor, visitor },
        SensorTouchEvent { sensor: unknown, visitor },
    ];
    assert_eq!(
        physics.sensor_started_messages(&events),
        vec![Box3dSensorStarted { sensor_entity: 1, visitor_entity: 2, sensor, visitor }]
    );
    assert_eq!(
        physics.sensor_ended_messages(&events),
        vec![Box3dSensorEnded { sensor_entity: 1, visitor_entity: 2, sensor, visitor }]
    );
    assert_eq!(physics.sensor_started_messages(&vec![]), vec![]);
}

#[test]
fn hit_pairs_keep_one_entry_per_event() {
    let physics = world_with_two_colliders();
    let a = ShapeId::from_raw(0, 0, 1);
    let b = ShapeId::from_raw(1, 0, 1);
    let unknown = ShapeId::from_raw(7, 0, 1);
    assert_eq!(
        physics.hit_entity_pairs(&vec![(a, b), (unknown, b), (b, a)]),
        vec![Some((1, 2)), None, Some((2, 1))]
    );
    assert_eq!(physics.shape_pair(a, unknown), None);
}

use bevy_box3d::entity::{entity_from_user_data, entity_user_data};

#[test]
fn user_data_round_trips_entities() {
    let entity = 0x0000_0002_0000_0007u64;
    let data = entity_user_data(entity);
    assert_eq!(data as u64, entity);
    assert_eq!(entity_from_user_data(data), Some(entity));
}

#[test]
fn zero_user_data_names_no_entity() {
    assert_eq!(entity_from_user_data(0), None);
}

#[test]
fn zero_entity_index_names_no_entity() {
    assert_eq!(entity_from_user_data(0x1_0000_0000), None);
    assert_eq!(entity_from_user_data(1), Some(1));
}

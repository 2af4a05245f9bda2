//! Native contact and sensor events, and the messages the plugin sends for
//! them: each message names the entities registered for the event's shapes,
//! and an event whose shapes are not both registered sends nothing.
use vstd::prelude::*;

use crate::ids::{ContactId, JointId, ShapeId};
use crate::registry::{Box3dWorld, RegistryModel, lemma_pair_entities_resolve};

verus! {

/// Two shapes started or stopped touching.
#[derive(Clone, Copy, Debug, PartialEq, Eq, Structural)]
pub struct ContactTouchEvent {
    pub shape_a: ShapeId,
    pub shape_b: ShapeId,
    pub contact: ContactId,
}

/// A shape started or stopped overlapping a sensor.
#[derive(Clone, Copy, Debug, PartialEq, Eq, Structural)]
pub struct SensorTouchEvent {
    pub sensor: ShapeId,
    pub visitor: ShapeId,
}

/// A joint reported an event.
#[derive(Clone, Copy, Debug, PartialEq, Eq, Structural)]
pub struct JointEvent {
    pub joint: JointId,
    pub user_data: usize,
}

/// Two registered colliders started touching.
#[derive(Clone, Copy, Debug, PartialEq, Eq, Structural)]
pub struct Box3dContactStarted {
    pub entity_a: u64,
    pub entity_b: u64,
    pub shape_a: ShapeId,
    pub shape_b: ShapeId,
    pub contact: ContactId,
}

/// Two registered colliders stopped touching.
#[derive(Clone, Copy, Debug, PartialEq, Eq, Structural)]
pub struct Box3dContactEnded {
    pub entity_a: u64,
    pub entity_b: u64,
    pub shape_a: ShapeId,
    pub shape_b: ShapeId,
    pub contact: ContactId,
}

/// A registered collider started overlapping a registered sensor.
#[derive(Clone, Copy, Debug, PartialEq, Eq, Structural)]
pub struct Box3dSensorStarted {
    pub sensor_entity: u64,
    pub visitor_entity: u64,
    pub sensor: ShapeId,
    pub visitor: ShapeId,
}

/// A registered collider stopped overlapping a registered sensor.
#[derive(Clone, Copy, Debug, PartialEq, Eq, Structural)]
pub struct Box3dSensorEnded {
    pub sensor_entity: u64,
    pub visitor_entity: u64,
    pub sensor: ShapeId,
    pub visitor: ShapeId,
}

/// The started message for a contact event, when both shapes are registered.
pub open spec fn started_message(m: RegistryModel, event: ContactTouchEvent) -> Option<Box3dContactStarted> {
    match m.pair_entities(event.shape_a, event.shape_b) {
        Some((a, b)) => Some(
            Box3dContactStarted {
                entity_a: a,
                entity_b: b,
                shape_a: event.shape_a,
                shape_b: event.shape_b,
                contact: event.contact,
            },
        ),
        None => None,
    }
}

/// The ended message for a contact event, when both shapes are registered.
pub open spec fn ended_message(m: RegistryModel, event: ContactTouchEvent) -> Option<Box3dContactEnded> {
    match m.pair_entities(event.shape_a, event.shape_b) {
        Some((a, b)) => Some(
            Box3dContactEnded {
                entity_a: a,
                entity_b: b,
                shape_a: event.shape_a,
                shape_b: event.shape_b,
                contact: event.contact,
            },
        ),
        None => None,
    }
}

/// The started message for a sensor event, when both shapes are registered.
pub open spec fn sensor_started_message(m: RegistryModel, event: SensorTouchEvent) -> Option<Box3dSensorStarted> {
    match m.pair_entities(event.sensor, event.visitor) {
        Some((s, v)) => Some(
            Box3dSensorStarted {
                sensor_entity: s,
                visitor_entity: v,
                sensor: event.sensor,
                visitor: event.visitor,
            },
        ),
        None => None,
    }
}

/// The ended message for a sensor event, when both shapes are registered.
pub open spec fn sensor_ended_message(m: RegistryModel, event: SensorTouchEvent) -> Option<Box3dSensorEnded> {
    match m.pair_entities(event.sensor, event.visitor) {
        Some((s, v)) => Some(
            Box3dSensorEnded {
                sensor_entity: s,
                visitor_entity: v,
                sensor: event.sensor,
                visitor: event.visitor,
            },
        ),
        None => None,
    }
}

/// A contact-began event gets a message exactly when both of its shapes
/// resolve to a collider entity; the message names those collider entities,
/// in the event's order, and repeats the event's shapes and contact. Under the
/// registry invariant the named entities are the colliders whose shapes the
/// event reports.
pub proof fn lemma_started_message_names_colliders(m: RegistryModel, e: ContactTouchEvent)
    ensures
        started_message(m, e) is Some <==> (m.entity_of_shape(e.shape_a.spec_to_bits()) is Some
            && m.entity_of_shape(e.shape_b.spec_to_bits()) is Some),
        started_message(m, e) matches Some(msg) ==> m.entity_of_shape(e.shape_a.spec_to_bits()) == Some(
            msg.entity_a,
        ) && m.entity_of_shape(e.shape_b.spec_to_bits()) == Some(msg.entity_b) && msg.shape_a
            == e.shape_a && msg.shape_b == e.shape_b && msg.contact == e.contact,
        m.wf() ==> (started_message(m, e) matches Some(msg) ==> m.shapes.contains_key(msg.entity_a)
            && m.shapes[msg.entity_a] == e.shape_a && m.shapes.contains_key(msg.entity_b)
            && m.shapes[msg.entity_b] == e.shape_b),
{
    if let Some(msg) = started_message(m, e) {
        lemma_pair_entities_resolve(m, e.shape_a, e.shape_b, msg.entity_a, msg.entity_b);
    }
}

/// A contact-ended event gets a message exactly when both of its shapes
/// resolve to a collider entity; the message names those collider entities.
pub proof fn lemma_ended_message_names_colliders(m: RegistryModel, e: ContactTouchEvent)
    ensures
        ended_message(m, e) is Some <==> (m.entity_of_shape(e.shape_a.spec_to_bits()) is Some
            && m.entity_of_shape(e.shape_b.spec_to_bits()) is Some),
        ended_message(m, e) matches Some(msg) ==> m.entity_of_shape(e.shape_a.spec_to_bits()) == Some(
            msg.entity_a,
        ) && m.entity_of_shape(e.shape_b.spec_to_bits()) == Some(msg.entity_b) && msg.shape_a
            == e.shape_a && msg.shape_b == e.shape_b && msg.contact == e.contact,
        m.wf() ==> (ended_message(m, e) matches Some(msg) ==> m.shapes.contains_key(msg.entity_a)
            && m.shapes[msg.entity_a] == e.shape_a && m.shapes.contains_key(msg.entity_b)
            && m.shapes[msg.entity_b] == e.shape_b),
{
    if let Some(msg) = ended_message(m, e) {
        lemma_pair_entities_resolve(m, e.shape_a, e.shape_b, msg.entity_a, msg.entity_b);
    }
}

/// A sensor-began event gets a message exactly when the sensor and the
/// visitor shape both resolve to a collider entity; the message names the
/// sensor collider and the visitor collider.
pub proof fn lemma_sensor_started_message_names_colliders(m: RegistryModel, e: SensorTouchEvent)
    ensures
        sensor_started_message(m, e) is Some <==> (m.entity_of_shape(e.sensor.spec_to_bits()) is Some
            && m.entity_of_shape(e.visitor.spec_to_bits()) is Some),
        sensor_started_message(m, e) matches Some(msg) ==> m.entity_of_shape(e.sensor.spec_to_bits())
            == Some(msg.sensor_entity) && m.entity_of_shape(e.visitor.spec_to_bits()) == Some(
            msg.visitor_entity,
        ) && msg.sensor == e.sensor && msg.visitor == e.visitor,
        m.wf() ==> (sensor_started_message(m, e) matches Some(msg) ==> m.shapes.contains_key(
            msg.sensor_entity,
        ) && m.shapes[msg.sensor_entity] == e.sensor && m.shapes.contains_key(msg.visitor_entity)
            && m.shapes[msg.visitor_entity] == e.visitor),
{
    if let Some(msg) = sensor_started_message(m, e) {
        lemma_pair_entities_resolve(m, e.sensor, e.visitor, msg.sensor_entity, msg.visitor_entity);
    }
}

/// A sensor-ended event gets a message exactly when the sensor and the
/// visitor shape both resolve to a collider entity; the message names the
/// sensor collider and the visitor collider.
pub proof fn lemma_sensor_ended_message_names_colliders(m: RegistryModel, e: SensorTouchEvent)
    ensures
        sensor_ended_message(m, e) is Some <==> (m.entity_of_shape(e.sensor.spec_to_bits()) is Some
            && m.entity_of_shape(e.visitor.spec_to_bits()) is Some),
        sensor_ended_message(m, e) matches Some(msg) ==> m.entity_of_shape(e.sensor.spec_to_bits())
            == Some(msg.sensor_entity) && m.entity_of_shape(e.visitor.spec_to_bits()) == Some(
            msg.visitor_entity,
        ) && msg.sensor == e.sensor && msg.visitor == e.visitor,
        m.wf() ==> (sensor_ended_message(m, e) matches Some(msg) ==> m.shapes.contains_key(
            msg.sensor_entity,
        ) && m.shapes[msg.sensor_entity] == e.sensor && m.shapes.contains_key(msg.visitor_entity)
            && m.shapes[msg.visitor_entity] == e.visitor),
{
    if let Some(msg) = sensor_ended_message(m, e) {
        lemma_pair_entities_resolve(m, e.sensor, e.visitor, msg.sensor_entity, msg.visitor_entity);
    }
}

/// Every contact-began message of a batch of events comes from one of the
/// events and names the collider entities its shapes resolve to; under the
/// registry invariant those colliders carry exactly the message's shapes.
pub proof fn lemma_started_messages_name_colliders(m: RegistryModel, events: Seq<ContactTouchEvent>)
    ensures
        ({
            let r = events.filter_map(|e: ContactTouchEvent| started_message(m, e));
            &&& r.len() <= events.len()
            &&& forall|i: int| 0 <= i < r.len() ==> m.entity_of_shape(#[trigger] r[i].shape_a.spec_to_bits()) == Some(r[i].entity_a)
                && m.entity_of_shape(r[i].shape_b.spec_to_bits()) == Some(r[i].entity_b)
            &&& m.wf() ==> forall|i: int| 0 <= i < r.len() ==> m.shapes.contains_key(#[trigger] r[i].entity_a)
                && m.shapes[r[i].entity_a] == r[i].shape_a && m.shapes.contains_key(r[i].entity_b)
                && m.shapes[r[i].entity_b] == r[i].shape_b
        }),
    decreases events.len(),
{
    let f = |e: ContactTouchEvent| started_message(m, e);
    let r = events.filter_map(f);
    if events.len() > 0 {
        lemma_started_messages_name_colliders(m, events.drop_last());
        lemma_started_message_names_colliders(m, events.last());
        assert(r == events.drop_last().filter_map(f) + (match f(events.last()) {
            Some(x) => seq![x],
            None => Seq::empty(),
        }));
    }
}

/// Every contact-ended message of a batch names the collider entities its
/// shapes resolve to.
pub proof fn lemma_ended_messages_name_colliders(m: RegistryModel, events: Seq<ContactTouchEvent>)
    ensures
        ({
            let r = events.filter_map(|e: ContactTouchEvent| ended_message(m, e));
            &&& r.len() <= events.len()
            &&& forall|i: int| 0 <= i < r.len() ==> m.entity_of_shape(#[trigger] r[i].shape_a.spec_to_bits()) == Some(r[i].entity_a)
                && m.entity_of_shape(r[i].shape_b.spec_to_bits()) == Some(r[i].entity_b)
            &&& m.wf() ==> forall|i: int| 0 <= i < r.len() ==> m.shapes.contains_key(#[trigger] r[i].entity_a)
                && m.shapes[r[i].entity_a] == r[i].shape_a && m.shapes.contains_key(r[i].entity_b)
                && m.shapes[r[i].entity_b] == r[i].shape_b
        }),
    decreases events.len(),
{
    let f = |e: ContactTouchEvent| ended_message(m, e);
    let r = events.filter_map(f);
    if events.len() > 0 {
        lemma_ended_messages_name_colliders(m, events.drop_last());
        lemma_ended_message_names_colliders(m, events.last());
        assert(r == events.drop_last().filter_map(f) + (match f(events.last()) {
            Some(x) => seq![x],
            None => Seq::empty(),
        }));
    }
}

/// Every sensor-began message of a batch names the sensor and visitor
/// colliders its shapes resolve to.
pub proof fn lemma_sensor_started_messages_name_colliders(m: RegistryModel, events: Seq<SensorTouchEvent>)
    ensures
        ({
            let r = events.filter_map(|e: SensorTouchEvent| sensor_started_message(m, e));
            &&& r.len() <= events.len()
            &&& forall|i: int| 0 <= i < r.len() ==> m.entity_of_shape(#[trigger] r[i].sensor.spec_to_bits()) == Some(r[i].sensor_entity)
                && m.entity_of_shape(r[i].visitor.spec_to_bits()) == Some(r[i].visitor_entity)
            &&& m.wf() ==> forall|i: int| 0 <= i < r.len() ==> m.shapes.contains_key(#[trigger] r[i].sensor_entity)
                && m.shapes[r[i].sensor_entity] == r[i].sensor && m.shapes.contains_key(r[i].visitor_entity)
                && m.shapes[r[i].visitor_entity] == r[i].visitor
        }),
    decreases events.len(),
{
    let f = |e: SensorTouchEvent| sensor_started_message(m, e);
    let r = events.filter_map(f);
    if events.len() > 0 {
        lemma_sensor_started_messages_name_colliders(m, events.drop_last());
        lemma_sensor_started_message_names_colliders(m, events.last());
        assert(r == events.drop_last().filter_map(f) + (match f(events.last()) {
            Some(x) => seq![x],
            None => Seq::empty(),
        }));
    }
}

/// Every sensor-ended message of a batch names the sensor and visitor
/// colliders its shapes resolve to.
pub proof fn lemma_sensor_ended_messages_name_colliders(m: RegistryModel, events: Seq<SensorTouchEvent>)
    ensures
        ({
            let r = events.filter_map(|e: SensorTouchEvent| sensor_ended_message(m, e));
            &&& r.len() <= events.len()
            &&& forall|i: int| 0 <= i < r.len() ==> m.entity_of_shape(#[trigger] r[i].sensor.spec_to_bits()) == Some(r[i].sensor_entity)
                && m.entity_of_shape(r[i].visitor.spec_to_bits()) == Some(r[i].visitor_entity)
            &&& m.wf() ==> forall|i: int| 0 <= i < r.len() ==> m.shapes.contains_key(#[trigger] r[i].sensor_entity)
                && m.shapes[r[i].sensor_entity] == r[i].sensor && m.shapes.contains_key(r[i].visitor_entity)
                && m.shapes[r[i].visitor_entity] == r[i].visitor
        }),
    decreases events.len(),
{
    let f = |e: SensorTouchEvent| sensor_ended_message(m, e);
    let r = events.filter_map(f);
    if events.len() > 0 {
        lemma_sensor_ended_messages_name_colliders(m, events.drop_last());
        lemma_sensor_ended_message_names_colliders(m, events.last());
        assert(r == events.drop_last().filter_map(f) + (match f(events.last()) {
            Some(x) => seq![x],
            None => Seq::empty(),
        }));
    }
}

impl Box3dWorld {
    /// The messages for contacts that began, in event order.
    pub fn contact_started_messages(&self, events: &Vec<ContactTouchEvent>) -> (messages: Vec<Box3dContactStarted>)
        ensures
            messages@ == events@.filter_map(|e: ContactTouchEvent| started_message(self@, e)),
            messages@.len() <= events@.len(),
            forall|i: int|
                0 <= i < messages@.len() ==> self@.shape_entities.contains_key(
                    #[trigger] messages@[i].shape_a.spec_to_bits(),
                ) && self@.shape_entities[messages@[i].shape_a.spec_to_bits()] == messages@[i].entity_a
                    && self@.shape_entities.contains_key(messages@[i].shape_b.spec_to_bits())
                    && self@.shape_entities[messages@[i].shape_b.spec_to_bits()] == messages@[i].entity_b,
            self.wf() ==> forall|i: int|
                0 <= i < messages@.len() ==> self@.shapes.contains_key(#[trigger] messages@[i].entity_a)
                    && self@.shapes[messages@[i].entity_a] == messages@[i].shape_a && self@.shapes.contains_key(
                    messages@[i].entity_b,
                ) && self@.shapes[messages@[i].entity_b] == messages@[i].shape_b,
    {
        let mut messages: Vec<Box3dContactStarted> = Vec::new();
        let mut index: usize = 0;
        while index < events.len()
            invariant
                0 <= index <= events@.len(),
                messages@ == events@.take(index as int).filter_map(|e: ContactTouchEvent| started_message(self@, e)),
            decreases events@.len() - index,
        {
            let event = events[index];
            proof {
                events@.lemma_filter_map_take_succ(|e: ContactTouchEvent| started_message(self@, e), index as int);
            }
            match self.shape_pair(event.shape_a, event.shape_b) {
                Some((entity_a, entity_b)) => {
                    messages.push(Box3dContactStarted {
                        entity_a,
                        entity_b,
                        shape_a: event.shape_a,
                        shape_b: event.shape_b,
                        contact: event.contact,
                    });
                },
                None => {},
            }
            index = index + 1;
        }
        proof {
            assert(events@.take(events@.len() as int) =~= events@);
            lemma_started_messages_name_colliders(self@, events@);
        }
        messages
    }

    /// The messages for contacts that ended, in event order.
    pub fn contact_ended_messages(&self, events: &Vec<ContactTouchEvent>) -> (messages: Vec<Box3dContactEnded>)
        ensures
            messages@ == events@.filter_map(|e: ContactTouchEvent| ended_message(self@, e)),
            messages@.len() <= events@.len(),
            forall|i: int|
                0 <= i < messages@.len() ==> self@.shape_entities.contains_key(
                    #[trigger] messages@[i].shape_a.spec_to_bits(),
                ) && self@.shape_entities[messages@[i].shape_a.spec_to_bits()] == messages@[i].entity_a
                    && self@.shape_entities.contains_key(messages@[i].shape_b.spec_to_bits())
                    && self@.shape_entities[messages@[i].shape_b.spec_to_bits()] == messages@[i].entity_b,
            self.wf() ==> forall|i: int|
                0 <= i < messages@.len() ==> self@.shapes.contains_key(#[trigger] messages@[i].entity_a)
                    && self@.shapes[messages@[i].entity_a] == messages@[i].shape_a && self@.shapes.contains_key(
                    messages@[i].entity_b,
                ) && self@.shapes[messages@[i].entity_b] == messages@[i].shape_b,
    {
        let mut messages: Vec<Box3dContactEnded> = Vec::new();
        let mut index: usize = 0;
        while index < events.len()
            invariant
                0 <= index <= events@.len(),
                messages@ == events@.take(index as int).filter_map(|e: ContactTouchEvent| ended_message(self@, e)),
            decreases events@.len() - index,
        {
            let event = events[index];
            proof {
                events@.lemma_filter_map_take_succ(|e: ContactTouchEvent| ended_message(self@, e), index as int);
            }
            match self.shape_pair(event.shape_a, event.shape_b) {
                Some((entity_a, entity_b)) => {
                    messages.push(Box3dContactEnded {
                        entity_a,
                        entity_b,
                        shape_a: event.shape_a,
                        shape_b: event.shape_b,
                        contact: event.contact,
                    });
                },
                None => {},
            }
            index = index + 1;
        }
        proof {
            assert(events@.take(events@.len() as int) =~= events@);
            lemma_ended_messages_name_colliders(self@, events@);
        }
        messages
    }

    /// The messages for sensor overlaps that began, in event order.
    pub fn sensor_started_messages(&self, events: &Vec<SensorTouchEvent>) -> (messages: Vec<Box3dSensorStarted>)
        ensures
            messages@ == events@.filter_map(|e: SensorTouchEvent| sensor_started_message(self@, e)),
            messages@.len() <= events@.len(),
            forall|i: int|
                0 <= i < messages@.len() ==> self@.shape_entities.contains_key(
                    #[trigger] messages@[i].sensor.spec_to_bits(),
                ) && self@.shape_entities[messages@[i].sensor.spec_to_bits()] == messages@[i].sensor_entity
                    && self@.shape_entities.contains_key(messages@[i].visitor.spec_to_bits())
                    && self@.shape_entities[messages@[i].visitor.spec_to_bits()] == messages@[i].visitor_entity,
            self.wf() ==> forall|i: int|
                0 <= i < messages@.len() ==> self@.shapes.contains_key(#[trigger] messages@[i].sensor_entity)
                    && self@.shapes[messages@[i].sensor_entity] == messages@[i].sensor && self@.shapes.contains_key(
                    messages@[i].visitor_entity,
                ) && self@.shapes[messages@[i].visitor_entity] == messages@[i].visitor,
    {
        let mut messages: Vec<Box3dSensorStarted> = Vec::new();
        let mut index: usize = 0;
        while index < events.len()
            invariant
                0 <= index <= events@.len(),
                messages@ == events@.take(index as int).filter_map(|e: SensorTouchEvent| sensor_started_message(self@, e)),
            decreases events@.len() - index,
        {
            let event = events[index];
            proof {
                events@.lemma_filter_map_take_succ(|e: SensorTouchEvent| sensor_started_message(self@, e), index as int);
            }
            match self.shape_pair(event.sensor, event.visitor) {
                Some((sensor_entity, visitor_entity)) => {
                    messages.push(Box3dSensorStarted {
                        sensor_entity,
                        visitor_entity,
                        sensor: event.sensor,
                        visitor: event.visitor,
                    });
                },
                None => {},
            }
            index = index + 1;
        }
        proof {
            assert(events@.take(events@.len() as int) =~= events@);
            lemma_sensor_started_messages_name_colliders(self@, events@);
        }
        messages
    }

    /// The messages for sensor overlaps that ended, in event order.
    pub fn sensor_ended_messages(&self, events: &Vec<SensorTouchEvent>) -> (messages: Vec<Box3dSensorEnded>)
        ensures
            messages@ == events@.filter_map(|e: SensorTouchEvent| sensor_ended_message(self@, e)),
            messages@.len() <= events@.len(),
            forall|i: int|
                0 <= i < messages@.len() ==> self@.shape_entities.contains_key(
                    #[trigger] messages@[i].sensor.spec_to_bits(),
                ) && self@.shape_entities[messages@[i].sensor.spec_to_bits()] == messages@[i].sensor_entity
                    && self@.shape_entities.contains_key(messages@[i].visitor.spec_to_bits())
                    && self@.shape_entities[messages@[i].visitor.spec_to_bits()] == messages@[i].visitor_entity,
            self.wf() ==> forall|i: int|
                0 <= i < messages@.len() ==> self@.shapes.contains_key(#[trigger] messages@[i].sensor_entity)
                    && self@.shapes[messages@[i].sensor_entity] == messages@[i].sensor && self@.shapes.contains_key(
                    messages@[i].visitor_entity,
                ) && self@.shapes[messages@[i].visitor_entity] == messages@[i].visitor,
    {
        let mut messages: Vec<Box3dSensorEnded> = Vec::new();
        let mut index: usize = 0;
        while index < events.len()
            invariant
                0 <= index <= events@.len(),
                messages@ == events@.take(index as int).filter_map(|e: SensorTouchEvent| sensor_ended_message(self@, e)),
            decreases events@.len() - index,
        {
            let event = events[index];
            proof {
                events@.lemma_filter_map_take_succ(|e: SensorTouchEvent| sensor_ended_message(self@, e), index as int);
            }
            match self.shape_pair(event.sensor, event.visitor) {
                Some((sensor_entity, visitor_entity)) => {
                    messages.push(Box3dSensorEnded {
                        sensor_entity,
                        visitor_entity,
                        sensor: event.sensor,
                        visitor: event.visitor,
                    });
                },
                None => {},
            }
            index = index + 1;
        }
        proof {
            assert(events@.take(events@.len() as int) =~= events@);
            lemma_sensor_ended_messages_name_colliders(self@, events@);
        }
        messages
    }

    /// The entities of the shapes of each hit event, one entry per event:
    /// `None` where either shape is not registered. The hit message itself
    /// carries the native contact point and speed along with these entities.
    pub fn hit_entity_pairs(&self, shapes: &Vec<(ShapeId, ShapeId)>) -> (pairs: Vec<Option<(u64, u64)>>)
        ensures
            pairs@.len() == shapes@.len(),
            forall|i: int| 0 <= i < shapes@.len() ==> #[trigger] pairs@[i] == self@.pair_entities(shapes@[i].0, shapes@[i].1),
            forall|i: int|
                0 <= i < shapes@.len() ==> (#[trigger] pairs@[i] is Some <==> (
                self@.shape_entities.contains_key(shapes@[i].0.spec_to_bits())
                    && self@.shape_entities.contains_key(shapes@[i].1.spec_to_bits()))),
            forall|i: int|
                0 <= i < shapes@.len() ==> (#[trigger] pairs@[i] matches Some((x, y)) ==> x
                    == self@.shape_entities[shapes@[i].0.spec_to_bits()] && y
                    == self@.shape_entities[shapes@[i].1.spec_to_bits()]),
            self.wf() ==> forall|i: int|
                0 <= i < shapes@.len() ==> (#[trigger] pairs@[i] matches Some((x, y))
                    ==> self@.shapes.contains_key(x) && self@.shapes[x] == shapes@[i].0
                    && self@.shapes.contains_key(y) && self@.shapes[y] == shapes@[i].1),
    {
        let mut pairs: Vec<Option<(u64, u64)>> = Vec::new();
        let mut index: usize = 0;
        while index < shapes.len()
            invariant
                0 <= index <= shapes@.len(),
                pairs@.len() == index,
                forall|i: int| 0 <= i < index ==> #[trigger] pairs@[i] == self@.pair_entities(shapes@[i].0, shapes@[i].1),
                forall|i: int|
                    0 <= i < index ==> (#[trigger] pairs@[i] is Some <==> (
                    self@.shape_entities.contains_key(shapes@[i].0.spec_to_bits())
                        && self@.shape_entities.contains_key(shapes@[i].1.spec_to_bits()))),
                forall|i: int|
                    0 <= i < index ==> (#[trigger] pairs@[i] matches Some((x, y)) ==> x
                        == self@.shape_entities[shapes@[i].0.spec_to_bits()] && y
                        == self@.shape_entities[shapes@[i].1.spec_to_bits()]),
                self.wf() ==> forall|i: int|
                    0 <= i < index ==> (#[trigger] pairs@[i] matches Some((x, y))
                        ==> self@.shapes.contains_key(x) && self@.shapes[x] == shapes@[i].0
                        && self@.shapes.contains_key(y) && self@.shapes[y] == shapes@[i].1),
            decreases shapes@.len() - index,
        {
            let (shape_a, shape_b) = shapes[index];
            pairs.push(self.shape_pair(shape_a, shape_b));
            index = index + 1;
        }
        pairs
    }
}

} // verus!

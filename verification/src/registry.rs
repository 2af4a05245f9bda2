//! The registry between ECS entities and native handles.
//!
//! Entities are identified by their 64-bit ECS encoding. The registry keeps
//! both directions of the body and shape mappings, the body that owns each
//! collider, and the colliders that asked for events. Every operation keeps the
//! directions consistent (see [`RegistryModel::wf`]).
use std::collections::HashMap;
use std::collections::HashSet;
use vstd::prelude::*;
use vstd::std_specs::iter::IteratorSpec;

use crate::counts::capacity_len;
use crate::entity::{entity_from_user_data, spec_entity_from_user_data};
use crate::ids::{BodyId, ShapeId, ShapeQueryHandle};

verus! {

/// The abstract state of a registry.
pub struct RegistryModel {
    /// Body entity to native body.
    pub bodies: Map<u64, BodyId>,
    /// Packed native body to body entity.
    pub body_entities: Map<u64, u64>,
    /// Collider entity to native shape.
    pub shapes: Map<u64, ShapeId>,
    /// Collider entity to the body entity that owns the shape.
    pub shape_bodies: Map<u64, u64>,
    /// Packed native shape to collider entity.
    pub shape_entities: Map<u64, u64>,
    /// Colliders that have contact, hit or sensor events enabled.
    pub event_shapes: Set<u64>,
}

impl RegistryModel {
    /// The two body directions are inverse to each other, as are the two shape
    /// directions; every collider has an owner, every owner is a registered
    /// body, and only registered colliders are marked for events.
    pub open spec fn wf(self) -> bool {
        &&& forall|e: u64| #[trigger]
            self.bodies.contains_key(e) ==> self.body_entities.contains_key(
                self.bodies[e].spec_to_bits(),
            ) && self.body_entities[self.bodies[e].spec_to_bits()] == e
        &&& forall|b: u64| #[trigger]
            self.body_entities.contains_key(b) ==> self.bodies.contains_key(self.body_entities[b])
                && self.bodies[self.body_entities[b]].spec_to_bits() == b
        &&& forall|e: u64| #[trigger]
            self.shapes.contains_key(e) ==> self.shape_entities.contains_key(
                self.shapes[e].spec_to_bits(),
            ) && self.shape_entities[self.shapes[e].spec_to_bits()] == e
        &&& forall|h: u64| #[trigger]
            self.shape_entities.contains_key(h) ==> self.shapes.contains_key(self.shape_entities[h])
                && self.shapes[self.shape_entities[h]].spec_to_bits() == h
        &&& self.shape_bodies.dom() == self.shapes.dom()
        &&& forall|e: u64| #[trigger]
            self.shape_bodies.contains_key(e) ==> self.bodies.contains_key(self.shape_bodies[e])
        &&& self.event_shapes.subset_of(self.shapes.dom())
    }

    /// The colliders owned by a body entity.
    pub open spec fn owned_shapes(self, body_entity: u64) -> Set<u64> {
        self.shape_bodies.dom().filter(|s: u64| self.shape_bodies[s] == body_entity)
    }

    /// The packed shapes registered for a set of colliders.
    pub open spec fn handles_of(self, colliders: Set<u64>) -> Set<u64> {
        Set::new(
            |h: u64|
                exists|x: u64| #[trigger]
                    colliders.contains(x) && self.shapes.contains_key(x) && self.shapes[x].spec_to_bits()
                        == h,
        )
    }

    /// The registry without a set of colliders: their shapes, owners, packed
    /// handles and event marks are gone; bodies are untouched.
    pub open spec fn without_shapes(self, gone: Set<u64>) -> RegistryModel {
        RegistryModel {
            shapes: self.shapes.remove_keys(gone),
            shape_bodies: self.shape_bodies.remove_keys(gone),
            shape_entities: self.shape_entities.remove_keys(self.handles_of(gone)),
            event_shapes: self.event_shapes.difference(gone),
            ..self
        }
    }

    /// The registry without a body entity, the colliders it owns, and its
    /// packed handle.
    pub open spec fn without_body(self, body_entity: u64) -> RegistryModel {
        let rest = self.without_shapes(self.owned_shapes(body_entity));
        RegistryModel {
            bodies: self.bodies.remove(body_entity),
            body_entities: if self.bodies.contains_key(body_entity) {
                self.body_entities.remove(self.bodies[body_entity].spec_to_bits())
            } else {
                self.body_entities
            },
            ..rest
        }
    }

    /// The entity registered for a packed shape, if any.
    pub open spec fn entity_of_shape(self, handle: u64) -> Option<u64> {
        if self.shape_entities.contains_key(handle) {
            Some(self.shape_entities[handle])
        } else {
            None
        }
    }

    /// The entities of two shapes, when both are registered.
    pub open spec fn pair_entities(self, a: ShapeId, b: ShapeId) -> Option<(u64, u64)> {
        if self.shape_entities.contains_key(a.spec_to_bits()) && self.shape_entities.contains_key(
            b.spec_to_bits(),
        ) {
            Some((self.shape_entities[a.spec_to_bits()], self.shape_entities[b.spec_to_bits()]))
        } else {
            None
        }
    }
}

/// The two body lookups agree: an entity's body is `body` exactly when
/// `body` is registered for that entity.
pub proof fn lemma_body_lookups_agree(m: RegistryModel, entity: u64, body: BodyId)
    requires
        m.wf(),
    ensures
        (m.bodies.contains_key(entity) && m.bodies[entity] == body) <==> (
        m.body_entities.contains_key(body.spec_to_bits()) && m.body_entities[body.spec_to_bits()]
            == entity),
{
    if m.body_entities.contains_key(body.spec_to_bits()) && m.body_entities[body.spec_to_bits()] == entity {
        let other = m.bodies[entity];
        crate::ids::lemma_body_bits_injective(other, body);
    }
}

/// The two shape lookups agree: a collider's shape is `shape` exactly when
/// the collider is what `shape`'s query handle resolves to.
pub proof fn lemma_shape_lookups_agree(m: RegistryModel, entity: u64, shape: ShapeId)
    requires
        m.wf(),
    ensures
        (m.shapes.contains_key(entity) && m.shapes[entity] == shape) <==> m.entity_of_shape(
            shape.spec_to_bits(),
        ) == Some(entity),
{
    if m.entity_of_shape(shape.spec_to_bits()) == Some(entity) {
        let other = m.shapes[entity];
        crate::ids::lemma_shape_bits_injective(other, shape);
    }
}

/// A shape resolves to the collider entity it was tracked for: under the
/// registry invariant, the entity a handle resolves to has exactly that shape.
pub proof fn lemma_resolved_shape_belongs_to_collider(m: RegistryModel, shape: ShapeId, entity: u64)
    requires
        m.wf(),
        m.entity_of_shape(shape.spec_to_bits()) == Some(entity),
    ensures
        m.shapes.contains_key(entity),
        m.shapes[entity] == shape,
{
    lemma_shape_lookups_agree(m, entity, shape);
}

/// The entity pair of two shapes is the pair of collider entities each
/// shape resolves to, and there is none as soon as one shape does not
/// resolve. Under the registry invariant the two entities are the colliders
/// whose shapes are exactly the two given shapes (not, say, their owners).
pub proof fn lemma_pair_entities_resolve(m: RegistryModel, a: ShapeId, b: ShapeId, x: u64, y: u64)
    ensures
        m.pair_entities(a, b) == Some((x, y)) <==> (m.entity_of_shape(a.spec_to_bits()) == Some(x)
            && m.entity_of_shape(b.spec_to_bits()) == Some(y)),
        m.pair_entities(a, b) is None <==> (m.entity_of_shape(a.spec_to_bits()) is None
            || m.entity_of_shape(b.spec_to_bits()) is None),
        m.wf() && m.pair_entities(a, b) == Some((x, y)) ==> m.shapes.contains_key(x) && m.shapes[x] == a
            && m.shapes.contains_key(y) && m.shapes[y] == b,
        m.wf() && m.shapes.contains_key(x) && m.shapes[x] == a && m.shapes.contains_key(y)
            && m.shapes[y] == b ==> m.pair_entities(a, b) == Some((x, y)),
{
    if m.wf() {
        lemma_shape_lookups_agree(m, x, a);
        lemma_shape_lookups_agree(m, y, b);
    }
}

/// Every registered collider is owned by a registered body.
pub proof fn lemma_collider_owner_is_registered(m: RegistryModel, collider: u64)
    requires
        m.wf(),
        m.shape_bodies.contains_key(collider),
    ensures
        m.bodies.contains_key(m.shape_bodies[collider]),
        m.shapes.contains_key(collider),
{
    assert(m.shape_bodies.dom().contains(collider));
}

/// After a body is registered, both lookups give it back, and every other
/// entity and handle resolves as before.
pub proof fn lemma_registered_body_reads_back(m: RegistryModel, entity: u64, body: BodyId, other: u64, other_bits: u64)
    requires
        m.wf(),
        !m.bodies.contains_key(entity),
        !m.body_entities.contains_key(body.spec_to_bits()),
        other != entity,
        other_bits != body.spec_to_bits(),
    ensures
        ({
            let n = RegistryModel {
                bodies: m.bodies.insert(entity, body),
                body_entities: m.body_entities.insert(body.spec_to_bits(), entity),
                ..m
            };
            &&& n.bodies[entity] == body
            &&& n.body_entities[body.spec_to_bits()] == entity
            &&& n.bodies.contains_key(other) == m.bodies.contains_key(other)
            &&& n.bodies[other] == m.bodies[other]
            &&& n.body_entities.contains_key(other_bits) == m.body_entities.contains_key(other_bits)
            &&& n.body_entities[other_bits] == m.body_entities[other_bits]
        }),
{
}

/// After a shape is tracked, both lookups and the owner lookup give it back,
/// and every other collider and handle resolves as before.
pub proof fn lemma_tracked_shape_reads_back(
    m: RegistryModel,
    entity: u64,
    body_entity: u64,
    shape: ShapeId,
    events_enabled: bool,
    other: u64,
    other_bits: u64,
)
    requires
        m.wf(),
        !m.shapes.contains_key(entity),
        m.bodies.contains_key(body_entity),
        !m.shape_entities.contains_key(shape.spec_to_bits()),
        other != entity,
        other_bits != shape.spec_to_bits(),
    ensures
        ({
            let n = RegistryModel {
                shapes: m.shapes.insert(entity, shape),
                shape_bodies: m.shape_bodies.insert(entity, body_entity),
                shape_entities: m.shape_entities.insert(shape.spec_to_bits(), entity),
                event_shapes: if events_enabled {
                    m.event_shapes.insert(entity)
                } else {
                    m.event_shapes
                },
                ..m
            };
            &&& n.shapes[entity] == shape
            &&& n.shape_bodies[entity] == body_entity
            &&& n.entity_of_shape(shape.spec_to_bits()) == Some(entity)
            &&& n.event_shapes.contains(entity) == events_enabled
            &&& n.shapes.contains_key(other) == m.shapes.contains_key(other)
            &&& n.shapes[other] == m.shapes[other]
            &&& n.shape_bodies[other] == m.shape_bodies[other]
            &&& n.entity_of_shape(other_bits) == m.entity_of_shape(other_bits)
        }),
{
    assert(!m.event_shapes.contains(entity));
}

/// Once a collider is removed, neither its entity nor its old shape handle
/// resolves any more, and every other collider resolves as before.
pub proof fn lemma_removed_shape_is_gone(m: RegistryModel, entity: u64, other: u64)
    requires
        m.wf(),
        m.shapes.contains_key(entity),
        other != entity,
    ensures
        ({
            let n = RegistryModel {
                shapes: m.shapes.remove(entity),
                shape_bodies: m.shape_bodies.remove(entity),
                shape_entities: m.shape_entities.remove(m.shapes[entity].spec_to_bits()),
                event_shapes: m.event_shapes.remove(entity),
                ..m
            };
            &&& !n.shapes.contains_key(entity)
            &&& !n.shape_bodies.contains_key(entity)
            &&& n.entity_of_shape(m.shapes[entity].spec_to_bits()) == None::<u64>
            &&& n.shapes.contains_key(other) == m.shapes.contains_key(other)
            &&& (m.shapes.contains_key(other) ==> n.entity_of_shape(m.shapes[other].spec_to_bits())
                == Some(other))
        }),
{
    if m.shapes.contains_key(other) {
        assert(m.shape_entities[m.shapes[other].spec_to_bits()] == other);
    }
}

/// Once a body is removed, it resolves in neither direction, none of the
/// colliders it owned resolves, no collider is left owned by it, and the
/// colliders of other bodies resolve as before.
pub proof fn lemma_removed_body_is_gone(m: RegistryModel, body_entity: u64, collider: u64)
    requires
        m.wf(),
        m.bodies.contains_key(body_entity),
    ensures
        ({
            let n = m.without_body(body_entity);
            &&& n.wf()
            &&& !n.bodies.contains_key(body_entity)
            &&& !n.body_entities.contains_key(m.bodies[body_entity].spec_to_bits())
            &&& n.owned_shapes(body_entity) == Set::<u64>::empty()
            &&& (m.shape_bodies.contains_key(collider) && m.shape_bodies[collider] == body_entity
                ==> !n.shapes.contains_key(collider) && n.entity_of_shape(
                m.shapes[collider].spec_to_bits(),
            ) == None::<u64>)
            &&& (m.shape_bodies.contains_key(collider) && m.shape_bodies[collider] != body_entity
                ==> n.shapes.contains_key(collider) && n.shapes[collider] == m.shapes[collider]
                && n.shape_bodies[collider] == m.shape_bodies[collider] && n.entity_of_shape(
                m.shapes[collider].spec_to_bits(),
            ) == Some(collider))
        }),
{
    let n = m.without_body(body_entity);
    let gone = m.owned_shapes(body_entity);
    assert(n.owned_shapes(body_entity) =~= Set::<u64>::empty());
    if m.shape_bodies.contains_key(collider) {
        let h = m.shapes[collider].spec_to_bits();
        assert(m.shape_entities[h] == collider);
        assert(gone.contains(collider) <==> m.shape_bodies[collider] == body_entity);
        assert(m.handles_of(gone).contains(h) <==> gone.contains(collider));
    }
    lemma_without_body_wf(m, body_entity);
}

proof fn lemma_without_body_wf(m: RegistryModel, body_entity: u64)
    requires
        m.wf(),
    ensures
        m.without_body(body_entity).wf(),
{
    let n = m.without_body(body_entity);
    let gone = m.owned_shapes(body_entity);
    assert forall|e: u64| #[trigger] n.shapes.contains_key(e) implies n.shape_entities.contains_key(
        n.shapes[e].spec_to_bits(),
    ) && n.shape_entities[n.shapes[e].spec_to_bits()] == e by {
        assert(m.shape_entities[m.shapes[e].spec_to_bits()] == e);
    }
    assert forall|h: u64| #[trigger] n.shape_entities.contains_key(h) implies n.shapes.contains_key(
        n.shape_entities[h],
    ) && n.shapes[n.shape_entities[h]].spec_to_bits() == h by {
        assert(m.shape_entities.contains_key(h));
    }
    assert(n.shape_bodies.dom() =~= n.shapes.dom());
    assert forall|e: u64| #[trigger] n.shape_bodies.contains_key(e) implies n.bodies.contains_key(
        n.shape_bodies[e],
    ) by {
        assert(m.shape_bodies.contains_key(e));
        assert(!gone.contains(e));
    }
    assert forall|e: u64| #[trigger] n.bodies.contains_key(e) implies n.body_entities.contains_key(
        n.bodies[e].spec_to_bits(),
    ) && n.body_entities[n.bodies[e].spec_to_bits()] == e by {
        assert(m.body_entities[m.bodies[e].spec_to_bits()] == e);
    }
    assert forall|b: u64| #[trigger] n.body_entities.contains_key(b) implies n.bodies.contains_key(
        n.body_entities[b],
    ) && n.bodies[n.body_entities[b]].spec_to_bits() == b by {
        assert(m.body_entities.contains_key(b));
    }
    assert forall|s: u64| #[trigger] n.event_shapes.contains(s) implies n.shapes.dom().contains(s) by {
        assert(m.event_shapes.contains(s));
    }
}

/// Non-send Box3D world resource owned by the plugin: the mappings between
/// entities and the native bodies and shapes created for them.
pub struct Box3dWorld {
    bodies: HashMap<u64, BodyId>,
    body_entities: HashMap<u64, u64>,
    shapes: HashMap<u64, ShapeId>,
    shape_bodies: HashMap<u64, u64>,
    shape_entities: HashMap<u64, u64>,
    event_shapes: HashSet<u64>,
}

impl View for Box3dWorld {
    type V = RegistryModel;

    closed spec fn view(&self) -> RegistryModel {
        RegistryModel {
            bodies: self.bodies@,
            body_entities: self.body_entities@,
            shapes: self.shapes@,
            shape_bodies: self.shape_bodies@,
            shape_entities: self.shape_entities@,
            event_shapes: self.event_shapes@,
        }
    }
}

impl Box3dWorld {
    /// The registry keeps its invariant.
    pub open spec fn wf(&self) -> bool {
        self@.wf()
    }

    /// An empty registry, with room reserved for the configured numbers of
    /// static and dynamic bodies and shapes (negative counts reserve nothing).
    pub fn new(
        static_body_count: i32,
        dynamic_body_count: i32,
        static_shape_count: i32,
        dynamic_shape_count: i32,
    ) -> (registry: Box3dWorld)
        ensures
            registry.wf(),
            registry@.bodies == Map::<u64, BodyId>::empty(),
            registry@.body_entities == Map::<u64, u64>::empty(),
            registry@.shapes == Map::<u64, ShapeId>::empty(),
            registry@.shape_bodies == Map::<u64, u64>::empty(),
            registry@.shape_entities == Map::<u64, u64>::empty(),
            registry@.event_shapes == Set::<u64>::empty(),
    {
        let body_capacity = capacity_len(static_body_count) + capacity_len(dynamic_body_count);
        let shape_capacity = capacity_len(static_shape_count) + capacity_len(dynamic_shape_count);
        let registry = Box3dWorld {
            bodies: HashMap::with_capacity(body_capacity),
            body_entities: HashMap::with_capacity(body_capacity),
            shapes: HashMap::with_capacity(shape_capacity),
            shape_bodies: HashMap::with_capacity(shape_capacity),
            shape_entities: HashMap::with_capacity(shape_capacity),
            event_shapes: HashSet::new(),
        };
        assert(registry@.shape_bodies.dom() =~= registry@.shapes.dom());
        registry
    }

    /// Returns the native handle registered for a body entity
    pub fn body_id(&self, entity: u64) -> (body: Option<BodyId>)
        ensures
            body == (if self@.bodies.contains_key(entity) {
                Some(self@.bodies[entity])
            } else {
                None
            }),
    {
        match self.bodies.get(&entity) {
            Some(body) => Some(*body),
            None => None,
        }
    }

    /// Returns the native handle registered for a collider entity
    pub fn shape_id(&self, entity: u64) -> (shape: Option<ShapeId>)
        ensures
            shape == (if self@.shapes.contains_key(entity) {
                Some(self@.shapes[entity])
            } else {
                None
            }),
    {
        match self.shapes.get(&entity) {
            Some(shape) => Some(*shape),
            None => None,
        }
    }

    /// Returns the entity registered for a native body
    pub fn body_entity(&self, body: BodyId) -> (entity: Option<u64>)
        ensures
            entity == (if self@.body_entities.contains_key(body.spec_to_bits()) {
                Some(self@.body_entities[body.spec_to_bits()])
            } else {
                None
            }),
    {
        match self.body_entities.get(&body.to_bits()) {
            Some(entity) => Some(*entity),
            None => None,
        }
    }

    /// Returns the collider entity registered for a shape query handle
    pub fn shape_entity(&self, shape: ShapeQueryHandle) -> (entity: Option<u64>)
        ensures
            entity == self@.entity_of_shape(shape.0),
    {
        match self.shape_entities.get(&shape.0) {
            Some(entity) => Some(*entity),
            None => None,
        }
    }

    /// Returns the owning body entity for a registered collider
    pub fn collider_body_entity(&self, collider: u64) -> (entity: Option<u64>)
        ensures
            entity == (if self@.shape_bodies.contains_key(collider) {
                Some(self@.shape_bodies[collider])
            } else {
                None
            }),
    {
        match self.shape_bodies.get(&collider) {
            Some(entity) => Some(*entity),
            None => None,
        }
    }

    /// The entities of two shapes, when both are registered.
    pub fn shape_pair(&self, shape_a: ShapeId, shape_b: ShapeId) -> (pair: Option<(u64, u64)>)
        ensures
            pair == self@.pair_entities(shape_a, shape_b),
            pair is Some <==> (self@.shape_entities.contains_key(shape_a.spec_to_bits())
                && self@.shape_entities.contains_key(shape_b.spec_to_bits())),
            pair matches Some((x, y)) ==> x == self@.shape_entities[shape_a.spec_to_bits()]
                && y == self@.shape_entities[shape_b.spec_to_bits()],
            self.wf() ==> (pair matches Some((x, y)) ==> self@.shapes.contains_key(x)
                && self@.shapes[x] == shape_a && self@.shapes.contains_key(y) && self@.shapes[y] == shape_b),
    {
        let entity_a = match self.shape_entities.get(&shape_a.to_bits()) {
            Some(entity) => *entity,
            None => {
                return None;
            },
        };
        let entity_b = match self.shape_entities.get(&shape_b.to_bits()) {
            Some(entity) => *entity,
            None => {
                return None;
            },
        };
        proof {
            lemma_pair_entities_resolve(self@, shape_a, shape_b, entity_a, entity_b);
        }
        Some((entity_a, entity_b))
    }

    /// Whether any registered collider asked for events; the plugin reads the
    /// event buffers only then.
    pub fn has_event_shapes(&self) -> (any: bool)
        ensures
            any == !self@.event_shapes.is_empty(),
    {
        !self.event_shapes.is_empty()
    }


    /// Where a collider entity's shape goes: to its parent's body, or to its
    /// own body without a parent. `None` when the collider already has a shape
    /// or that body entity has no native body yet.
    pub fn collider_attachment(&self, entity: u64, parent: Option<u64>) -> (target: Option<(u64, BodyId)>)
        ensures
            target == ({
                let body_entity = match parent {
                    Some(p) => p,
                    None => entity,
                };
                if self@.shapes.contains_key(entity) || !self@.bodies.contains_key(body_entity) {
                    None
                } else {
                    Some((body_entity, self@.bodies[body_entity]))
                }
            }),
    {
        if self.shapes.contains_key(&entity) {
            return None;
        }
        let body_entity = match parent {
            Some(p) => p,
            None => entity,
        };
        match self.body_id(body_entity) {
            Some(body) => Some((body_entity, body)),
            None => None,
        }
    }

    /// The entity a body move event belongs to: the one named by the body's
    /// user data when there is one, else the one registered for the body.
    pub fn move_event_entity(&self, user_data: usize, body: BodyId) -> (entity: Option<u64>)
        ensures
            entity == (match spec_entity_from_user_data(user_data) {
                Some(e) => Some(e),
                None => if self@.body_entities.contains_key(body.spec_to_bits()) {
                    Some(self@.body_entities[body.spec_to_bits()])
                } else {
                    None
                },
            }),
    {
        match entity_from_user_data(user_data) {
            Some(entity) => Some(entity),
            None => self.body_entity(body),
        }
    }

    /// Records the native body created for an entity, replacing what the
    /// entity or the handle was mapped to before. The registry stays
    /// consistent when both are new, as they are for a freshly created body of
    /// an entity that has none.
    pub fn register_body(&mut self, entity: u64, body: BodyId)
        ensures
            final(self)@ == (RegistryModel {
                bodies: old(self)@.bodies.insert(entity, body),
                body_entities: old(self)@.body_entities.insert(body.spec_to_bits(), entity),
                ..old(self)@
            }),
            old(self).wf() && !old(self)@.bodies.contains_key(entity)
                && !old(self)@.body_entities.contains_key(body.spec_to_bits()) ==> final(self).wf(),
    {
        let bits = body.to_bits();
        self.bodies.insert(entity, body);
        self.body_entities.insert(bits, entity);
        proof {
            let m = self@;
            let o = old(self)@;
            if o.wf() && !o.bodies.contains_key(entity) && !o.body_entities.contains_key(bits) {
                assert forall|b: u64| #[trigger] m.body_entities.contains_key(b) implies m.bodies.contains_key(
                    m.body_entities[b],
                ) && m.bodies[m.body_entities[b]].spec_to_bits() == b by {
                    if b != bits {
                        assert(o.body_entities.contains_key(b));
                        assert(m.body_entities[b] != entity);
                    }
                }
                assert forall|e: u64| #[trigger] m.shape_bodies.contains_key(e) implies m.bodies.contains_key(
                    m.shape_bodies[e],
                ) by {
                    assert(o.shape_bodies.contains_key(e));
                }
            }
        }
    }

    /// Records the native shape created for a collider entity, owned by a
    /// body entity, and marks it for events when it asked for them; earlier
    /// entries of the collider or the handle are replaced. The registry stays
    /// consistent when the collider and handle are new and the owner has a
    /// body, as the shape systems ensure before they create the shape.
    pub fn track_shape(&mut self, entity: u64, body_entity: u64, shape: ShapeId, events_enabled: bool)
        ensures
            final(self)@ == (RegistryModel {
                shapes: old(self)@.shapes.insert(entity, shape),
                shape_bodies: old(self)@.shape_bodies.insert(entity, body_entity),
                shape_entities: old(self)@.shape_entities.insert(shape.spec_to_bits(), entity),
                event_shapes: if events_enabled {
                    old(self)@.event_shapes.insert(entity)
                } else {
                    old(self)@.event_shapes
                },
                ..old(self)@
            }),
            old(self).wf() && !old(self)@.shapes.contains_key(entity) && old(self)@.bodies.contains_key(
                body_entity,
            ) && !old(self)@.shape_entities.contains_key(shape.spec_to_bits()) ==> final(self).wf(),
    {
        let handle = shape.handle();
        self.shapes.insert(entity, shape);
        self.shape_bodies.insert(entity, body_entity);
        self.shape_entities.insert(handle.0, entity);
        if events_enabled {
            self.event_shapes.insert(entity);
        }
        proof {
            let m = self@;
            let o = old(self)@;
            if o.wf() && !o.shapes.contains_key(entity) && o.bodies.contains_key(body_entity)
                && !o.shape_entities.contains_key(handle.0) {
                assert forall|h: u64| #[trigger] m.shape_entities.contains_key(h) implies m.shapes.contains_key(
                    m.shape_entities[h],
                ) && m.shapes[m.shape_entities[h]].spec_to_bits() == h by {
                    if h != handle.0 {
                        assert(o.shape_entities.contains_key(h));
                        assert(m.shape_entities[h] != entity);
                    }
                }
                assert(m.shape_bodies.dom() =~= m.shapes.dom());
            }
        }
    }

    /// The colliders owned by a body entity, each once, in the map's order.
    fn owned_shape_entities(&self, body_entity: u64) -> (owned: Vec<u64>)
        ensures
            owned@.to_set() == self@.owned_shapes(body_entity),
            owned@.no_duplicates(),
    {
        let ghost model = self@;
        let mut owned: Vec<u64> = Vec::new();
        let ghost mut positions: Seq<int> = Seq::empty();
        let keys = self.shape_bodies.keys();
        let ghost key_seq = keys.remaining();
        proof {
            vstd::std_specs::hash::axiom_spec_keys_iter(&self.shape_bodies);
        }
        for key in it: keys
            invariant
                self@ == model,
                it.seq() == key_seq,
                key_seq.unref().to_set() == model.shape_bodies.dom(),
                key_seq.no_duplicates(),
                positions.len() == owned@.len(),
                forall|i: int| 0 <= i < positions.len() ==> 0 <= #[trigger] positions[i] < it.index(),
                forall|i: int|
                    0 <= i < positions.len() ==> owned@[i] == *key_seq[#[trigger] positions[i]],
                forall|i: int, j: int|
                    0 <= i < j < positions.len() ==> #[trigger] positions[i] < #[trigger] positions[j],
                forall|k: u64| #[trigger]
                    owned@.contains(k) ==> model.shape_bodies.contains_key(k)
                        && model.shape_bodies[k] == body_entity,
                forall|j: int|
                    0 <= j < it.index() && model.shape_bodies[*#[trigger] key_seq[j]] == body_entity
                        ==> owned@.contains(*key_seq[j]),
        {
            let ghost index = it.index();
            proof {
                assert(key_seq.unref()[index] == *key_seq[index]);
                assert(key_seq.unref().to_set().contains(*key_seq[index]));
            }
            let owned_here = match self.shape_bodies.get(key) {
                Some(owner) => *owner == body_entity,
                None => false,
            };
            if owned_here {
                let ghost before = owned@;
                proof {
                    assert forall|i: int| 0 <= i < before.len() implies before[i] != *key by {
                        assert(before[i] == *key_seq[positions[i]]);
                        assert(positions[i] < index);
                    }
                }
                owned.push(*key);
                proof {
                    positions = positions.push(index);
                    assert(owned@.last() == *key);
                    assert forall|k: u64| #[trigger] owned@.contains(k) implies model.shape_bodies.contains_key(k)
                        && model.shape_bodies[k] == body_entity by {
                        let i = choose|i: int| 0 <= i < owned@.len() && owned@[i] == k;
                        if i < before.len() {
                            assert(before.contains(k));
                        }
                    }
                    assert forall|j: int|
                        0 <= j < index + 1 && model.shape_bodies[*#[trigger] key_seq[j]] == body_entity
                        implies owned@.contains(*key_seq[j]) by {
                        if j < index {
                            assert(before.contains(*key_seq[j]));
                            let i = choose|i: int| 0 <= i < before.len() && before[i] == *key_seq[j];
                            assert(owned@[i] == *key_seq[j]);
                        } else {
                            assert(owned@[before.len() as int] == *key_seq[j]);
                        }
                    }
                }
            }
        }
        proof {
            assert forall|k: u64| #[trigger] model.owned_shapes(body_entity).contains(k) implies owned@.to_set().contains(k) by {
                assert(key_seq.unref().to_set().contains(k));
                let j = choose|j: int| 0 <= j < key_seq.unref().len() && key_seq.unref()[j] == k;
                assert(*key_seq[j] == k);
            }
            assert(owned@.to_set() =~= model.owned_shapes(body_entity));
            assert forall|i: int, j: int| 0 <= i < owned@.len() && 0 <= j < owned@.len() && i != j
                implies owned@[i] != owned@[j] by {
                if i < j {
                    assert(positions[i] < positions[j]);
                } else {
                    assert(positions[j] < positions[i]);
                }
            }
        }
        owned
    }


    /// Forgets every collider owned by a body entity; returns them, each once.
    fn remove_body_shapes(&mut self, body_entity: u64) -> (removed: Vec<u64>)
        ensures
            old(self).wf() ==> final(self).wf(),
            removed@.to_set() == old(self)@.owned_shapes(body_entity),
            removed@.no_duplicates(),
            final(self)@ == old(self)@.without_shapes(old(self)@.owned_shapes(body_entity)),
    {
        let ghost start = self@;
        let owned = self.owned_shape_entities(body_entity);
        let count = owned.len();
        let mut index: usize = 0;
        proof {
            assert(owned@.take(0).to_set() =~= Set::<u64>::empty());
            assert(start.without_shapes(Set::<u64>::empty()) =~= start) by {
                assert(start.shapes.remove_keys(Set::<u64>::empty()) =~= start.shapes);
                assert(start.shape_bodies.remove_keys(Set::<u64>::empty()) =~= start.shape_bodies);
                assert(start.handles_of(Set::<u64>::empty()) =~= Set::<u64>::empty());
                assert(start.shape_entities.remove_keys(Set::<u64>::empty()) =~= start.shape_entities);
                assert(start.event_shapes.difference(Set::<u64>::empty()) =~= start.event_shapes);
            }
        }
        while index < count
            invariant
                start.wf() ==> self.wf(),
                count == owned@.len(),
                0 <= index <= count,
                owned@.to_set() == start.owned_shapes(body_entity),
                owned@.no_duplicates(),
                self@ == start.without_shapes(owned@.take(index as int).to_set()),
            decreases count - index,
        {
            let shape_entity = owned[index];
            let ghost done = owned@.take(index as int).to_set();
            proof {
                assert(owned@.to_set().contains(shape_entity));
                assert(!done.contains(shape_entity)) by {
                    if done.contains(shape_entity) {
                        let j = choose|j: int| 0 <= j < index && owned@.take(index as int)[j] == shape_entity;
                        assert(owned@[j] == owned@[index as int]);
                    }
                }
            }
            self.remove_shape(shape_entity);
            index = index + 1;
            proof {
                let now = owned@.take(index as int).to_set();
                assert(owned@.take(index as int) =~= owned@.take(index - 1).push(shape_entity));
                owned@.take(index - 1).lemma_push_to_set_commute(shape_entity);
                assert(now =~= done.insert(shape_entity));
                let h = start.shapes[shape_entity].spec_to_bits();
                assert forall|k: u64| start.handles_of(now).contains(k) <==> (start.handles_of(done).contains(k)
                    || (start.shapes.contains_key(shape_entity) && k == h)) by {
                    if start.handles_of(now).contains(k) {
                        let y = choose|y: u64| #[trigger] now.contains(y) && start.shapes.contains_key(y)
                            && start.shapes[y].spec_to_bits() == k;
                        if y != shape_entity {
                            assert(done.contains(y));
                        }
                    }
                    if start.handles_of(done).contains(k) {
                        let y = choose|y: u64| #[trigger] done.contains(y) && start.shapes.contains_key(y)
                            && start.shapes[y].spec_to_bits() == k;
                        assert(now.contains(y));
                    }
                    if start.shapes.contains_key(shape_entity) && k == h {
                        assert(now.contains(shape_entity));
                    }
                }
                assert(self@.shapes =~= start.shapes.remove_keys(now));
                assert(self@.shape_bodies =~= start.shape_bodies.remove_keys(now));
                assert(self@.shape_entities =~= start.shape_entities.remove_keys(start.handles_of(now)));
                assert(self@.event_shapes =~= start.event_shapes.difference(now));
            }
        }
        proof {
            assert(owned@.take(count as int) =~= owned@);
        }
        owned
    }

    /// Forgets a body entity together with the colliders it owns. Returns
    /// the native body that was registered for it, which the caller destroys,
    /// and the colliders that were dropped with it, each once.
    pub fn remove_body(&mut self, entity: u64) -> (removed: (Option<BodyId>, Vec<u64>))
        ensures
            old(self).wf() ==> final(self).wf(),
            removed.0 == (if old(self)@.bodies.contains_key(entity) {
                Some(old(self)@.bodies[entity])
            } else {
                None
            }),
            removed.1@.to_set() == old(self)@.owned_shapes(entity),
            removed.1@.no_duplicates(),
            final(self)@ == old(self)@.without_body(entity),
    {
        let ghost start = self@;
        let shapes = self.remove_body_shapes(entity);
        let ghost middle = self@;
        let body = self.bodies.remove(&entity);
        match body {
            Some(id) => {
                self.body_entities.remove(&id.to_bits());
            },
            None => {},
        }
        proof {
            let m = self@;
            assert(m == start.without_body(entity));
            if start.wf() {
                assert forall|e: u64| #[trigger] m.bodies.contains_key(e) implies m.body_entities.contains_key(
                    m.bodies[e].spec_to_bits(),
                ) && m.body_entities[m.bodies[e].spec_to_bits()] == e by {
                    assert(middle.bodies.contains_key(e));
                    assert(middle.body_entities[middle.bodies[e].spec_to_bits()] == e);
                }
                assert forall|e: u64| #[trigger] m.shape_bodies.contains_key(e) implies m.bodies.contains_key(
                    m.shape_bodies[e],
                ) by {
                    assert(middle.shape_bodies.contains_key(e));
                    assert(start.shape_bodies.contains_key(e));
                    assert(!start.owned_shapes(entity).contains(e));
                }
            }
        }
        (body, shapes)
    }


    /// Empties the registry when the world goes away. Returns every native
    /// body that was registered, for the caller to destroy; their shapes go
    /// with them.
    pub fn clear(&mut self) -> (bodies: Vec<BodyId>)
        ensures
            final(self).wf(),
            bodies@.to_set() == old(self)@.bodies.values(),
            bodies@.len() == old(self)@.bodies.len(),
            final(self)@.bodies == Map::<u64, BodyId>::empty(),
            final(self)@.body_entities == Map::<u64, u64>::empty(),
            final(self)@.shapes == Map::<u64, ShapeId>::empty(),
            final(self)@.shape_bodies == Map::<u64, u64>::empty(),
            final(self)@.shape_entities == Map::<u64, u64>::empty(),
            final(self)@.event_shapes == Set::<u64>::empty(),
    {
        let mut bodies: Vec<BodyId> = Vec::new();
        let values = self.bodies.values();
        let ghost value_seq = values.remaining();
        proof {
            vstd::std_specs::hash::axiom_spec_values_iter(&self.bodies);
        }
        for id in it: values
            invariant
                it.seq() == value_seq,
                bodies@ == value_seq.take(it.index()).unref(),
        {
            let ghost index = it.index();
            bodies.push(*id);
            proof {
                assert(bodies@ =~= value_seq.take(index + 1).unref());
            }
        }
        proof {
            assert(bodies@ =~= value_seq.unref());
        }
        self.bodies.clear();
        self.body_entities.clear();
        self.shapes.clear();
        self.shape_bodies.clear();
        self.shape_entities.clear();
        self.event_shapes.clear();
        proof {
            assert(self@.shape_bodies.dom() =~= self@.shapes.dom());
        }
        bodies
    }

    /// Forgets a collider: its shape, its owner and its event mark. Returns
    /// the native shape that was registered for it, which the caller destroys
    /// when it asked for that.
    pub fn remove_shape(&mut self, entity: u64) -> (removed: Option<ShapeId>)
        ensures
            old(self).wf() ==> final(self).wf(),
            removed == (if old(self)@.shapes.contains_key(entity) {
                Some(old(self)@.shapes[entity])
            } else {
                None
            }),
            final(self)@ == (RegistryModel {
                shapes: old(self)@.shapes.remove(entity),
                shape_bodies: old(self)@.shape_bodies.remove(entity),
                shape_entities: if old(self)@.shapes.contains_key(entity) {
                    old(self)@.shape_entities.remove(old(self)@.shapes[entity].spec_to_bits())
                } else {
                    old(self)@.shape_entities
                },
                event_shapes: old(self)@.event_shapes.remove(entity),
                ..old(self)@
            }),
    {
        let removed = self.shapes.remove(&entity);
        match removed {
            Some(shape) => {
                self.shape_entities.remove(&shape.to_bits());
            },
            None => {},
        }
        self.event_shapes.remove(&entity);
        self.shape_bodies.remove(&entity);
        proof {
            let m = self@;
            let o = old(self)@;
            if o.wf() {
                assert forall|e: u64| #[trigger] m.shapes.contains_key(e) implies m.shape_entities.contains_key(
                    m.shapes[e].spec_to_bits(),
                ) && m.shape_entities[m.shapes[e].spec_to_bits()] == e by {
                    assert(o.shapes.contains_key(e));
                    assert(o.shape_entities[o.shapes[e].spec_to_bits()] == e);
                }
                assert(m.shape_bodies.dom() =~= m.shapes.dom());
                assert forall|s: u64| #[trigger] m.event_shapes.contains(s) implies m.shapes.dom().contains(s) by {
                    assert(o.event_shapes.contains(s));
                }
            }
        }
        removed
    }
}

} // verus!

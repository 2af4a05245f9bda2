//! Stable integer encodings of the native handles: worlds, bodies, shapes,
//! joints and contacts.
//!
//! A handle is identified by its slot index, the world it lives in and a
//! generation counter. Each handle packs those parts into a fixed-width integer
//! (or, for contacts, three words) and unpacks them again; the laws at the end
//! of this file state that both directions are inverse to each other.
use vstd::prelude::*;

verus! {

/// Handle of a native world: a 16-bit slot index and a 16-bit generation.
#[derive(Clone, Copy, Debug, PartialEq, Eq, Structural)]
pub struct WorldId {
    index1: u16,
    generation: u16,
}

/// Handle of a native body.
#[derive(Clone, Copy, Debug, PartialEq, Eq, Structural)]
pub struct BodyId {
    index1: i32,
    world0: u16,
    generation: u16,
}

/// Handle of a native shape.
#[derive(Clone, Copy, Debug, PartialEq, Eq, Structural)]
pub struct ShapeId {
    index1: i32,
    world0: u16,
    generation: u16,
}

/// Handle of a native joint.
#[derive(Clone, Copy, Debug, PartialEq, Eq, Structural)]
pub struct JointId {
    index1: i32,
    world0: u16,
    generation: u16,
}

/// Handle of a native contact; its generation is a full 32-bit word.
#[derive(Clone, Copy, Debug, PartialEq, Eq, Structural)]
pub struct ContactId {
    index1: i32,
    world0: u16,
    generation: u32,
}

/// A read-only handle to a shape
///
/// Identifies a shape without exposing mutation operations
#[derive(Clone, Copy, Debug, PartialEq, Eq, Hash, Structural)]
pub struct ShapeQueryHandle(pub u64);

/// The packed form of a body, shape or joint handle: the index in the upper
/// 32 bits (two's complement), the world in the next 16, the generation in the
/// lowest 16.
pub open spec fn pack_handle(index1: i32, world0: u16, generation: u16) -> u64 {
    ((index1 as u64) << 32u64) | ((world0 as u64) << 16u64) | (generation as u64)
}

/// The index stored in a packed handle.
pub open spec fn packed_index(bits: u64) -> i32 {
    (bits >> 32u64) as i32
}

/// The world stored in a packed handle.
pub open spec fn packed_world(bits: u64) -> u16 {
    (bits >> 16u64) as u16
}

/// The generation stored in a packed handle.
pub open spec fn packed_generation(bits: u64) -> u16 {
    bits as u16
}

/// The packed form of a world handle.
pub open spec fn pack_world(index1: u16, generation: u16) -> u32 {
    ((index1 as u32) << 16u32) | (generation as u32)
}

proof fn lemma_pack_handle_parts(index1: i32, world0: u16, generation: u16)
    ensures
        packed_index(pack_handle(index1, world0, generation)) == index1,
        packed_world(pack_handle(index1, world0, generation)) == world0,
        packed_generation(pack_handle(index1, world0, generation)) == generation,
{
    assert((((((index1 as u64) << 32u64) | ((world0 as u64) << 16u64) | (generation as u64))
        >> 32u64) as i32) == index1) by (bit_vector);
    assert((((((index1 as u64) << 32u64) | ((world0 as u64) << 16u64) | (generation as u64))
        >> 16u64) as u16) == world0) by (bit_vector);
    assert(((((index1 as u64) << 32u64) | ((world0 as u64) << 16u64) | (generation as u64))
        as u16) == generation) by (bit_vector);
}

proof fn lemma_unpack_handle(bits: u64)
    ensures
        pack_handle(packed_index(bits), packed_world(bits), packed_generation(bits)) == bits,
{
    assert(((((bits >> 32u64) as i32) as u64) << 32u64) | ((((bits >> 16u64) as u16) as u64)
        << 16u64) | (((bits as u16) as u64)) == bits) by (bit_vector);
}

proof fn lemma_pack_world_parts(index1: u16, generation: u16)
    ensures
        ((pack_world(index1, generation) >> 16u32) as u16) == index1,
        (pack_world(index1, generation) as u16) == generation,
        pack_world(index1, generation) == index1 * 0x10000 + generation,
{
    assert((((((index1 as u32) << 16u32) | (generation as u32)) >> 16u32) as u16) == index1)
        by (bit_vector);
    assert(((((index1 as u32) << 16u32) | (generation as u32)) as u16) == generation)
        by (bit_vector);
    assert((((index1 as u32) << 16u32) | (generation as u32)) == index1 * 0x10000u32
        + generation) by (bit_vector);
}

proof fn lemma_unpack_world(bits: u32)
    ensures
        pack_world((bits >> 16u32) as u16, bits as u16) == bits,
{
    assert(((((bits >> 16u32) as u16) as u32) << 16u32) | (((bits as u16) as u32)) == bits)
        by (bit_vector);
}

impl WorldId {
    /// The slot index of this world.
    pub closed spec fn spec_index1(self) -> u16 {
        self.index1
    }

    /// The generation of this world.
    pub closed spec fn spec_generation(self) -> u16 {
        self.generation
    }

    /// The packed form of this handle.
    pub open spec fn spec_to_bits(self) -> u32 {
        pack_world(self.spec_index1(), self.spec_generation())
    }

    /// The handle that a packed value stands for.
    pub closed spec fn spec_from_bits(bits: u32) -> WorldId {
        WorldId { index1: (bits >> 16u32) as u16, generation: bits as u16 }
    }

    /// Builds a handle from its parts.
    pub fn from_raw(index1: u16, generation: u16) -> (id: WorldId)
        ensures
            id.spec_index1() == index1,
            id.spec_generation() == generation,
    {
        WorldId { index1, generation }
    }

    /// The slot index of this world.
    pub fn index1(self) -> (index1: u16)
        ensures
            index1 == self.spec_index1(),
    {
        self.index1
    }

    /// The generation of this world.
    pub fn generation(self) -> (generation: u16)
        ensures
            generation == self.spec_generation(),
    {
        self.generation
    }

    /// Packs the handle: the index in the upper 16 bits, the generation in the
    /// lower 16.
    pub fn to_bits(self) -> (bits: u32)
        ensures
            bits == self.spec_to_bits(),
            bits == self.spec_index1() * 0x10000 + self.spec_generation(),
    {
        proof {
            lemma_pack_world_parts(self.index1, self.generation);
        }
        ((self.index1 as u32) << 16u32) | self.generation as u32
    }

    /// Unpacks a value made by [`WorldId::to_bits`].
    pub fn from_bits(bits: u32) -> (id: WorldId)
        ensures
            id == WorldId::spec_from_bits(bits),
            id.spec_index1() == bits / 0x10000,
            id.spec_generation() == bits % 0x10000,
    {
        assert(((bits >> 16u32) as u16) == bits / 0x10000u32) by (bit_vector);
        assert((bits as u16) == bits % 0x10000u32) by (bit_vector);
        WorldId { index1: (bits >> 16u32) as u16, generation: bits as u16 }
    }
}

impl BodyId {
    /// The slot index of this body.
    pub closed spec fn spec_index1(self) -> i32 {
        self.index1
    }

    /// The world of this body.
    pub closed spec fn spec_world0(self) -> u16 {
        self.world0
    }

    /// The generation of this body.
    pub closed spec fn spec_generation(self) -> u16 {
        self.generation
    }

    /// The packed form of this handle.
    pub open spec fn spec_to_bits(self) -> u64 {
        pack_handle(self.spec_index1(), self.spec_world0(), self.spec_generation())
    }

    /// The handle that a packed value stands for.
    pub closed spec fn spec_from_bits(bits: u64) -> BodyId {
        BodyId {
            index1: packed_index(bits),
            world0: packed_world(bits),
            generation: packed_generation(bits),
        }
    }

    /// Builds a handle from its parts.
    pub fn from_raw(index1: i32, world0: u16, generation: u16) -> (id: BodyId)
        ensures
            id.spec_index1() == index1,
            id.spec_world0() == world0,
            id.spec_generation() == generation,
    {
        BodyId { index1, world0, generation }
    }

    /// The slot index of this body.
    pub fn index1(self) -> (index1: i32)
        ensures
            index1 == self.spec_index1(),
    {
        self.index1
    }

    /// The world of this body.
    pub fn world0(self) -> (world0: u16)
        ensures
            world0 == self.spec_world0(),
    {
        self.world0
    }

    /// The generation of this body.
    pub fn generation(self) -> (generation: u16)
        ensures
            generation == self.spec_generation(),
    {
        self.generation
    }

    /// Packs the handle into 64 bits.
    pub fn to_bits(self) -> (bits: u64)
        ensures
            bits == self.spec_to_bits(),
    {
        ((self.index1 as u64) << 32u64) | ((self.world0 as u64) << 16u64) | self.generation as u64
    }

    /// Unpacks a value made by [`BodyId::to_bits`].
    pub fn from_bits(bits: u64) -> (id: BodyId)
        ensures
            id == BodyId::spec_from_bits(bits),
            id.spec_index1() == packed_index(bits),
            id.spec_world0() == packed_world(bits),
            id.spec_generation() == packed_generation(bits),
    {
        BodyId {
            index1: (bits >> 32u64) as i32,
            world0: (bits >> 16u64) as u16,
            generation: bits as u16,
        }
    }
}

impl ShapeId {
    /// The slot index of this shape.
    pub closed spec fn spec_index1(self) -> i32 {
        self.index1
    }

    /// The world of this shape.
    pub closed spec fn spec_world0(self) -> u16 {
        self.world0
    }

    /// The generation of this shape.
    pub closed spec fn spec_generation(self) -> u16 {
        self.generation
    }

    /// The packed form of this handle.
    pub open spec fn spec_to_bits(self) -> u64 {
        pack_handle(self.spec_index1(), self.spec_world0(), self.spec_generation())
    }

    /// The handle that a packed value stands for.
    pub closed spec fn spec_from_bits(bits: u64) -> ShapeId {
        ShapeId {
            index1: packed_index(bits),
            world0: packed_world(bits),
            generation: packed_generation(bits),
        }
    }

    /// Builds a handle from its parts.
    pub fn from_raw(index1: i32, world0: u16, generation: u16) -> (id: ShapeId)
        ensures
            id.spec_index1() == index1,
            id.spec_world0() == world0,
            id.spec_generation() == generation,
    {
        ShapeId { index1, world0, generation }
    }

    /// The slot index of this shape.
    pub fn index1(self) -> (index1: i32)
        ensures
            index1 == self.spec_index1(),
    {
        self.index1
    }

    /// The world of this shape.
    pub fn world0(self) -> (world0: u16)
        ensures
            world0 == self.spec_world0(),
    {
        self.world0
    }

    /// The generation of this shape.
    pub fn generation(self) -> (generation: u16)
        ensures
            generation == self.spec_generation(),
    {
        self.generation
    }

    /// Returns a read-only identity handle for this shape
    pub fn handle(self) -> (handle: ShapeQueryHandle)
        ensures
            handle == ShapeQueryHandle(self.spec_to_bits()),
    {
        ShapeQueryHandle(self.to_bits())
    }

    /// Packs the handle into 64 bits.
    pub fn to_bits(self) -> (bits: u64)
        ensures
            bits == self.spec_to_bits(),
    {
        ((self.index1 as u64) << 32u64) | ((self.world0 as u64) << 16u64) | self.generation as u64
    }

    /// Unpacks a value made by [`ShapeId::to_bits`].
    pub fn from_bits(bits: u64) -> (id: ShapeId)
        ensures
            id == ShapeId::spec_from_bits(bits),
            id.spec_index1() == packed_index(bits),
            id.spec_world0() == packed_world(bits),
            id.spec_generation() == packed_generation(bits),
    {
        ShapeId {
            index1: (bits >> 32u64) as i32,
            world0: (bits >> 16u64) as u16,
            generation: bits as u16,
        }
    }
}

impl From<ShapeId> for ShapeQueryHandle {
    fn from(shape: ShapeId) -> (handle: ShapeQueryHandle) {
        shape.handle()
    }
}

impl vstd::std_specs::convert::FromSpecImpl<ShapeId> for ShapeQueryHandle {
    open spec fn obeys_from_spec() -> bool {
        true
    }

    open spec fn from_spec(shape: ShapeId) -> ShapeQueryHandle {
        ShapeQueryHandle(shape.spec_to_bits())
    }
}

impl JointId {
    /// The slot index of this joint.
    pub closed spec fn spec_index1(self) -> i32 {
        self.index1
    }

    /// The world of this joint.
    pub closed spec fn spec_world0(self) -> u16 {
        self.world0
    }

    /// The generation of this joint.
    pub closed spec fn spec_generation(self) -> u16 {
        self.generation
    }

    /// The packed form of this handle.
    pub open spec fn spec_to_bits(self) -> u64 {
        pack_handle(self.spec_index1(), self.spec_world0(), self.spec_generation())
    }

    /// The handle that a packed value stands for.
    pub closed spec fn spec_from_bits(bits: u64) -> JointId {
        JointId {
            index1: packed_index(bits),
            world0: packed_world(bits),
            generation: packed_generation(bits),
        }
    }

    /// Builds a handle from its parts.
    pub fn from_raw(index1: i32, world0: u16, generation: u16) -> (id: JointId)
        ensures
            id.spec_index1() == index1,
            id.spec_world0() == world0,
            id.spec_generation() == generation,
    {
        JointId { index1, world0, generation }
    }

    /// The slot index of this joint.
    pub fn index1(self) -> (index1: i32)
        ensures
            index1 == self.spec_index1(),
    {
        self.index1
    }

    /// The world of this joint.
    pub fn world0(self) -> (world0: u16)
        ensures
            world0 == self.spec_world0(),
    {
        self.world0
    }

    /// The generation of this joint.
    pub fn generation(self) -> (generation: u16)
        ensures
            generation == self.spec_generation(),
    {
        self.generation
    }

    /// Packs the handle into 64 bits.
    pub fn to_bits(self) -> (bits: u64)
        ensures
            bits == self.spec_to_bits(),
    {
        ((self.index1 as u64) << 32u64) | ((self.world0 as u64) << 16u64) | self.generation as u64
    }

    /// Unpacks a value made by [`JointId::to_bits`].
    pub fn from_bits(bits: u64) -> (id: JointId)
        ensures
            id == JointId::spec_from_bits(bits),
            id.spec_index1() == packed_index(bits),
            id.spec_world0() == packed_world(bits),
            id.spec_generation() == packed_generation(bits),
    {
        JointId {
            index1: (bits >> 32u64) as i32,
            world0: (bits >> 16u64) as u16,
            generation: bits as u16,
        }
    }
}

impl ContactId {
    /// The slot index of this contact.
    pub closed spec fn spec_index1(self) -> i32 {
        self.index1
    }

    /// The world of this contact.
    pub closed spec fn spec_world0(self) -> u16 {
        self.world0
    }

    /// The generation of this contact.
    pub closed spec fn spec_generation(self) -> u32 {
        self.generation
    }

    /// The three words of this handle: the index as an unsigned word, the
    /// world and the generation.
    pub open spec fn spec_to_bits(self) -> Seq<u32> {
        seq![self.spec_index1() as u32, self.spec_world0() as u32, self.spec_generation()]
    }

    /// The handle that three words stand for.
    pub closed spec fn spec_from_bits(bits: Seq<u32>) -> ContactId
        recommends
            bits.len() == 3,
    {
        ContactId { index1: bits[0] as i32, world0: bits[1] as u16, generation: bits[2] }
    }

    /// Builds a handle from its parts.
    pub fn from_raw(index1: i32, world0: u16, generation: u32) -> (id: ContactId)
        ensures
            id.spec_index1() == index1,
            id.spec_world0() == world0,
            id.spec_generation() == generation,
    {
        ContactId { index1, world0, generation }
    }

    /// The slot index of this contact.
    pub fn index1(self) -> (index1: i32)
        ensures
            index1 == self.spec_index1(),
    {
        self.index1
    }

    /// The world of this contact.
    pub fn world0(self) -> (world0: u16)
        ensures
            world0 == self.spec_world0(),
    {
        self.world0
    }

    /// The generation of this contact.
    pub fn generation(self) -> (generation: u32)
        ensures
            generation == self.spec_generation(),
    {
        self.generation
    }

    /// The three words of this handle.
    pub fn to_bits(self) -> (bits: [u32; 3])
        ensures
            bits@ == self.spec_to_bits(),
    {
        let bits = [self.index1 as u32, self.world0 as u32, self.generation];
        assert(bits@ =~= self.spec_to_bits());
        bits
    }

    /// Rebuilds a handle from three words; the world keeps the lower 16 bits of
    /// the second word.
    pub fn from_bits(bits: [u32; 3]) -> (id: ContactId)
        ensures
            id == ContactId::spec_from_bits(bits@),
            id.spec_index1() == bits@[0] as i32,
            id.spec_world0() == bits@[1] as u16,
            id.spec_generation() == bits@[2],
    {
        ContactId { index1: bits[0] as i32, world0: bits[1] as u16, generation: bits[2] }
    }
}

/// Unpacking a packed world handle gives back the handle.
pub proof fn lemma_world_id_round_trip(id: WorldId)
    ensures
        WorldId::spec_from_bits(id.spec_to_bits()) == id,
{
    lemma_pack_world_parts(id.index1, id.generation);
}

/// Packing the handle that a value stands for gives back the value: every
/// 32-bit value is the packed form of exactly one world handle.
pub proof fn lemma_world_bits_round_trip(bits: u32)
    ensures
        WorldId::spec_from_bits(bits).spec_to_bits() == bits,
{
    lemma_unpack_world(bits);
}

/// Unpacking a packed body handle gives back the handle.
pub proof fn lemma_body_id_round_trip(id: BodyId)
    ensures
        BodyId::spec_from_bits(id.spec_to_bits()) == id,
{
    lemma_pack_handle_parts(id.index1, id.world0, id.generation);
}

/// Every 64-bit value is the packed form of exactly one body handle.
pub proof fn lemma_body_bits_round_trip(bits: u64)
    ensures
        BodyId::spec_from_bits(bits).spec_to_bits() == bits,
{
    lemma_unpack_handle(bits);
}

/// Unpacking a packed shape handle gives back the handle.
pub proof fn lemma_shape_id_round_trip(id: ShapeId)
    ensures
        ShapeId::spec_from_bits(id.spec_to_bits()) == id,
{
    lemma_pack_handle_parts(id.index1, id.world0, id.generation);
}

/// Every 64-bit value is the packed form of exactly one shape handle.
pub proof fn lemma_shape_bits_round_trip(bits: u64)
    ensures
        ShapeId::spec_from_bits(bits).spec_to_bits() == bits,
{
    lemma_unpack_handle(bits);
}

/// Unpacking a packed joint handle gives back the handle.
pub proof fn lemma_joint_id_round_trip(id: JointId)
    ensures
        JointId::spec_from_bits(id.spec_to_bits()) == id,
{
    lemma_pack_handle_parts(id.index1, id.world0, id.generation);
}

/// Every 64-bit value is the packed form of exactly one joint handle.
pub proof fn lemma_joint_bits_round_trip(bits: u64)
    ensures
        JointId::spec_from_bits(bits).spec_to_bits() == bits,
{
    lemma_unpack_handle(bits);
}

/// Rebuilding a contact handle from its words gives back the handle.
pub proof fn lemma_contact_id_round_trip(id: ContactId)
    ensures
        ContactId::spec_from_bits(id.spec_to_bits()) == id,
{
    let i = id.index1;
    let w = id.world0;
    assert(((i as u32) as i32) == i) by (bit_vector);
    assert(((w as u32) as u16) == w) by (bit_vector);
}

/// Three words are the words of the handle they stand for exactly when the
/// second one fits in 16 bits.
pub proof fn lemma_contact_bits_round_trip(bits: Seq<u32>)
    requires
        bits.len() == 3,
    ensures
        ContactId::spec_from_bits(bits).spec_to_bits() == bits <==> bits[1] <= 0xffff,
{
    let a = bits[0];
    let b = bits[1];
    assert(((a as i32) as u32) == a) by (bit_vector);
    assert(((b as u16) as u32) == b <==> b <= 0xffffu32) by (bit_vector);
    if bits[1] <= 0xffff {
        assert(ContactId::spec_from_bits(bits).spec_to_bits() =~= bits);
    } else {
        assert(ContactId::spec_from_bits(bits).spec_to_bits()[1] != bits[1]);
    }
}

/// Two body handles are equal exactly when their packed forms are, so
/// comparing handles compares their packed forms.
pub proof fn lemma_body_bits_injective(a: BodyId, b: BodyId)
    ensures
        a == b <==> a.spec_to_bits() == b.spec_to_bits(),
{
    lemma_body_id_round_trip(a);
    lemma_body_id_round_trip(b);
}

/// Two shape handles are equal exactly when their packed forms are.
pub proof fn lemma_shape_bits_injective(a: ShapeId, b: ShapeId)
    ensures
        a == b <==> a.spec_to_bits() == b.spec_to_bits(),
{
    lemma_shape_id_round_trip(a);
    lemma_shape_id_round_trip(b);
}

/// Two joint handles are equal exactly when their packed forms are.
pub proof fn lemma_joint_bits_injective(a: JointId, b: JointId)
    ensures
        a == b <==> a.spec_to_bits() == b.spec_to_bits(),
{
    lemma_joint_id_round_trip(a);
    lemma_joint_id_round_trip(b);
}

/// Two world handles are equal exactly when their packed forms are.
pub proof fn lemma_world_bits_injective(a: WorldId, b: WorldId)
    ensures
        a == b <==> a.spec_to_bits() == b.spec_to_bits(),
{
    lemma_world_id_round_trip(a);
    lemma_world_id_round_trip(b);
}

/// Two contact handles are equal exactly when their words are.
pub proof fn lemma_contact_bits_injective(a: ContactId, b: ContactId)
    ensures
        a == b <==> a.spec_to_bits() == b.spec_to_bits(),
{
    lemma_contact_id_round_trip(a);
    lemma_contact_id_round_trip(b);
}

} // verus!

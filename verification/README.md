# bevy_box3d

Verified core of a Bevy integration for the Box3D physics engine.

- `src/ids.rs`: world, body, shape, joint and contact handles, their packed
  integer forms, and the round-trip laws between handles and bits.
- `src/registry.rs`: `Box3dWorld`, the two-way mapping between ECS entities
  and native bodies and shapes, with its invariant and the laws on lookups,
  registration and removal.
- `src/messages.rs`: routing of native contact and sensor events to messages
  that name the registered entities.
- `src/entity.rs`: entities stored in a native body's user data word.
- `src/interpolation.rs`: dropping a removed body's entries from the interpolation list.
- `src/counts.rs`: capacities, statistics counters and the default worker count.
- `app/lib.rs`: the Bevy plugin and systems, the native world, and everything
  that works on floating point; it calls the library for every decision above.

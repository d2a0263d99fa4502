use vstd::prelude::*;
use crate::packets::{FieldVal, FieldValue, PacketKind, spec_fields_match, vals_view};
use crate::table::spec_lookup;

verus! {

/// A version-agnostic transfer object for the join game packet. Handlers
/// produce one of these; the conversion below derives the wire fields the
/// connection's protocol version expects, so handler logic stays
/// version-agnostic while the wire representation varies.
#[derive(Clone, Debug, PartialEq, Eq)]
pub struct JoinGameSpec {
    pub entity_id: i32,
    pub game_mode: u8,
    pub dimension: i32,
    pub difficulty: u8,
    pub max_players: u8,
    pub level_type: Vec<u8>,
    pub view_distance: i32,
    pub reduced_debug: bool,
}

impl JoinGameSpec {
    /// The field values for the version's layout: protocols 47 and 107 use
    /// the byte-wide dimension with an explicit difficulty; 477-498 the
    /// 32-bit dimension with a view distance.
    pub fn to_fields(&self, version: u32) -> (r: Vec<FieldValue>)
        requires
            version == 47 || version == 107 ==> self.level_type@.len() <= 32767,
            spec_lookup(PacketKind::JoinGame, version) is Some && version != 47 && version != 107
                ==> self.level_type@.len() <= 16,
        ensures
            vals_view(r@) == (if version == 47 || version == 107 {
                seq![
                    FieldVal::I32(self.entity_id),
                    FieldVal::U8(self.game_mode),
                    FieldVal::I8(self.dimension as i8),
                    FieldVal::U8(self.difficulty),
                    FieldVal::U8(self.max_players),
                    FieldVal::Str(self.level_type@),
                    FieldVal::Bool(self.reduced_debug),
                ]
            } else {
                seq![
                    FieldVal::I32(self.entity_id),
                    FieldVal::U8(self.game_mode),
                    FieldVal::I32(self.dimension),
                    FieldVal::U8(self.max_players),
                    FieldVal::Str(self.level_type@),
                    FieldVal::VarInt(self.view_distance),
                    FieldVal::Bool(self.reduced_debug),
                ]
            }),
            spec_lookup(PacketKind::JoinGame, version) is Some ==> spec_fields_match(
                (spec_lookup(PacketKind::JoinGame, version)->0).1,
                vals_view(r@),
            ),
    {
        let mut r: Vec<FieldValue> = Vec::new();
        if version == 47 || version == 107 {
            r.push(FieldValue::I32(self.entity_id));
            r.push(FieldValue::U8(self.game_mode));
            r.push(FieldValue::I8(#[verifier::truncate] (self.dimension as i8)));
            r.push(FieldValue::U8(self.difficulty));
            r.push(FieldValue::U8(self.max_players));
            r.push(FieldValue::Str(self.level_type.clone()));
            r.push(FieldValue::Bool(self.reduced_debug));
        } else {
            r.push(FieldValue::I32(self.entity_id));
            r.push(FieldValue::U8(self.game_mode));
            r.push(FieldValue::I32(self.dimension));
            r.push(FieldValue::U8(self.max_players));
            r.push(FieldValue::Str(self.level_type.clone()));
            r.push(FieldValue::VarInt(self.view_distance));
            r.push(FieldValue::Bool(self.reduced_debug));
        }
        proof {
            assert(vals_view(r@).len() == 7);
            assert forall|i: int| 0 <= i < 7 implies vals_view(r@)[i] == r@[i]@ by {}
            if version == 47 || version == 107 {
                assert(vals_view(r@) =~= seq![
                    FieldVal::I32(self.entity_id),
                    FieldVal::U8(self.game_mode),
                    FieldVal::I8(self.dimension as i8),
                    FieldVal::U8(self.difficulty),
                    FieldVal::U8(self.max_players),
                    FieldVal::Str(self.level_type@),
                    FieldVal::Bool(self.reduced_debug),
                ]);
            } else {
                assert(vals_view(r@) =~= seq![
                    FieldVal::I32(self.entity_id),
                    FieldVal::U8(self.game_mode),
                    FieldVal::I32(self.dimension),
                    FieldVal::U8(self.max_players),
                    FieldVal::Str(self.level_type@),
                    FieldVal::VarInt(self.view_distance),
                    FieldVal::Bool(self.reduced_debug),
                ]);
            }
        }
        r
    }
}

/// A version-agnostic transfer object for the server difficulty packet.
#[derive(Clone, Copy, Debug, PartialEq, Eq, Structural)]
pub struct ServerDifficultySpec {
    pub difficulty: u8,
    pub locked: bool,
}

impl ServerDifficultySpec {
    /// The field values for the version's layout: protocols up to 404 send
    /// the difficulty alone; 477 and later add the lock flag.
    pub fn to_fields(&self, version: u32) -> (r: Vec<FieldValue>)
        ensures
            r@ == (if version >= 477 {
                seq![FieldValue::U8(self.difficulty), FieldValue::Bool(self.locked)]
            } else {
                seq![FieldValue::U8(self.difficulty)]
            }),
            spec_lookup(PacketKind::ServerDifficulty, version) is Some ==> spec_fields_match(
                (spec_lookup(PacketKind::ServerDifficulty, version)->0).1,
                vals_view(r@),
            ),
    {
        let mut r: Vec<FieldValue> = Vec::new();
        r.push(FieldValue::U8(self.difficulty));
        if version >= 477 {
            r.push(FieldValue::Bool(self.locked));
            proof {
                assert(r@ =~= seq![FieldValue::U8(self.difficulty), FieldValue::Bool(self.locked)]);
            }
        } else {
            proof {
                assert(r@ =~= seq![FieldValue::U8(self.difficulty)]);
            }
        }
        proof {
            assert forall|i: int| 0 <= i < r@.len() implies vals_view(r@)[i] == r@[i]@ by {}
        }
        r
    }
}

/// A version-agnostic transfer object for the player abilities packet;
/// the two speeds travel as their IEEE single bits.
#[derive(Clone, Copy, Debug, PartialEq, Eq, Structural)]
pub struct PlayerAbilitiesSpec {
    pub flags: u8,
    pub flying_speed_bits: u32,
    pub fov_modifier_bits: u32,
}

impl PlayerAbilitiesSpec {
    /// The field values; every supported version uses the same layout, only
    /// the opcode differs.
    pub fn to_fields(&self) -> (r: Vec<FieldValue>)
        ensures
            r@ == seq![
                FieldValue::U8(self.flags),
                FieldValue::F32Bits(self.flying_speed_bits),
                FieldValue::F32Bits(self.fov_modifier_bits),
            ],
            forall|version: u32| spec_lookup(PacketKind::PlayerAbilities, version) is Some
                ==> spec_fields_match(
                    (#[trigger] spec_lookup(PacketKind::PlayerAbilities, version)->0).1,
                    vals_view(r@),
                ),
    {
        let mut r: Vec<FieldValue> = Vec::new();
        r.push(FieldValue::U8(self.flags));
        r.push(FieldValue::F32Bits(self.flying_speed_bits));
        r.push(FieldValue::F32Bits(self.fov_modifier_bits));
        proof {
            assert(r@ =~= seq![
                FieldValue::U8(self.flags),
                FieldValue::F32Bits(self.flying_speed_bits),
                FieldValue::F32Bits(self.fov_modifier_bits),
            ]);
            assert forall|i: int| 0 <= i < r@.len() implies vals_view(r@)[i] == r@[i]@ by {}
        }
        r
    }
}

/// A version-agnostic transfer object for the position and look packet;
/// coordinates and angles travel as their IEEE bits.
#[derive(Clone, Copy, Debug, PartialEq, Eq, Structural)]
pub struct PositionAndLookSpec {
    pub x_bits: u64,
    pub y_bits: u64,
    pub z_bits: u64,
    pub yaw_bits: u32,
    pub pitch_bits: u32,
    pub flags: u8,
    pub teleport_id: i32,
}

impl PositionAndLookSpec {
    /// The field values; every supported version uses the same layout, only
    /// the opcode differs.
    pub fn to_fields(&self) -> (r: Vec<FieldValue>)
        ensures
            r@ == seq![
                FieldValue::F64Bits(self.x_bits),
                FieldValue::F64Bits(self.y_bits),
                FieldValue::F64Bits(self.z_bits),
                FieldValue::F32Bits(self.yaw_bits),
                FieldValue::F32Bits(self.pitch_bits),
                FieldValue::U8(self.flags),
                FieldValue::VarInt(self.teleport_id),
            ],
            forall|version: u32| spec_lookup(PacketKind::PositionLook, version) is Some
                ==> spec_fields_match(
                    (#[trigger] spec_lookup(PacketKind::PositionLook, version)->0).1,
                    vals_view(r@),
                ),
    {
        let mut r: Vec<FieldValue> = Vec::new();
        r.push(FieldValue::F64Bits(self.x_bits));
        r.push(FieldValue::F64Bits(self.y_bits));
        r.push(FieldValue::F64Bits(self.z_bits));
        r.push(FieldValue::F32Bits(self.yaw_bits));
        r.push(FieldValue::F32Bits(self.pitch_bits));
        r.push(FieldValue::U8(self.flags));
        r.push(FieldValue::VarInt(self.teleport_id));
        proof {
            assert(r@ =~= seq![
                FieldValue::F64Bits(self.x_bits),
                FieldValue::F64Bits(self.y_bits),
                FieldValue::F64Bits(self.z_bits),
                FieldValue::F32Bits(self.yaw_bits),
                FieldValue::F32Bits(self.pitch_bits),
                FieldValue::U8(self.flags),
                FieldValue::VarInt(self.teleport_id),
            ]);
            assert forall|i: int| 0 <= i < r@.len() implies vals_view(r@)[i] == r@[i]@ by {}
        }
        r
    }
}

/// The field values of an unload chunk packet for a column position; the
/// per-unit layout is the same on every supported version. Batching of
/// several columns into one payload is the sending collaborator's policy,
/// not the codec's.
pub fn unload_chunk_fields(chunk_x: i32, chunk_z: i32) -> (r: Vec<FieldValue>)
    ensures
        r@ == seq![FieldValue::I32(chunk_x), FieldValue::I32(chunk_z)],
        forall|version: u32| spec_lookup(PacketKind::UnloadChunk, version) is Some
            ==> spec_fields_match(
                (#[trigger] spec_lookup(PacketKind::UnloadChunk, version)->0).1,
                vals_view(r@),
            ),
{
    let mut r: Vec<FieldValue> = Vec::new();
    r.push(FieldValue::I32(chunk_x));
    r.push(FieldValue::I32(chunk_z));
    proof {
        assert(r@ =~= seq![FieldValue::I32(chunk_x), FieldValue::I32(chunk_z)]);
        assert forall|i: int| 0 <= i < r@.len() implies vals_view(r@)[i] == r@[i]@ by {}
    }
    r
}

/// The field values of an update view position packet for a column
/// position.
pub fn update_view_position_fields(chunk_x: i32, chunk_z: i32) -> (r: Vec<FieldValue>)
    ensures
        r@ == seq![FieldValue::VarInt(chunk_x), FieldValue::VarInt(chunk_z)],
        forall|version: u32| spec_lookup(PacketKind::UpdateViewPosition, version) is Some
            ==> spec_fields_match(
                (#[trigger] spec_lookup(PacketKind::UpdateViewPosition, version)->0).1,
                vals_view(r@),
            ),
{
    let mut r: Vec<FieldValue> = Vec::new();
    r.push(FieldValue::VarInt(chunk_x));
    r.push(FieldValue::VarInt(chunk_z));
    proof {
        assert(r@ =~= seq![FieldValue::VarInt(chunk_x), FieldValue::VarInt(chunk_z)]);
        assert forall|i: int| 0 <= i < r@.len() implies vals_view(r@)[i] == r@[i]@ by {}
    }
    r
}

/// The field values of a disconnect packet for a JSON chat reason; the
/// reason must stay within the field's 262144-byte bound.
pub fn disconnect_fields(reason: Vec<u8>) -> (r: Result<Vec<FieldValue>, ()>)
    ensures
        match r {
            Ok(fields) => reason@.len() <= 262144
                && vals_view(fields@) == seq![FieldVal::Str(reason@)]
                && forall|version: u32| spec_lookup(PacketKind::Disconnect, version) is Some
                    ==> spec_fields_match(
                        (#[trigger] spec_lookup(PacketKind::Disconnect, version)->0).1,
                        vals_view(fields@),
                    ),
            Err(_) => reason@.len() > 262144,
        },
{
    if reason.len() > 262144 {
        return Err(());
    }
    let mut fields: Vec<FieldValue> = Vec::new();
    fields.push(FieldValue::Str(reason));
    proof {
        assert forall|i: int| 0 <= i < fields@.len() implies vals_view(fields@)[i] == fields@[i]@
            by {}
        assert(vals_view(fields@) =~= seq![FieldVal::Str(reason@)]);
    }
    Ok(fields)
}

} // verus!

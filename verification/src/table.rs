use vstd::prelude::*;
use crate::packets::{FieldType, PacketDirection, PacketKind};

verus! {

/// Which side sends each packet kind.
pub open spec fn spec_direction(kind: PacketKind) -> PacketDirection {
    match kind {
        PacketKind::KeepAlive => PacketDirection::Serverbound,
        PacketKind::ClientSettings => PacketDirection::Serverbound,
        _ => PacketDirection::Clientbound,
    }
}

/// Which side sends each packet kind.
pub fn direction(kind: PacketKind) -> (r: PacketDirection)
    ensures
        r == spec_direction(kind),
{
    match kind {
        PacketKind::KeepAlive => PacketDirection::Serverbound,
        PacketKind::ClientSettings => PacketDirection::Serverbound,
        _ => PacketDirection::Clientbound,
    }
}

/// Join game, protocol 47 and 107: byte-wide dimension, explicit difficulty.
pub open spec fn spec_layout_join_legacy() -> Seq<FieldType> {
    seq![
        FieldType::I32,
        FieldType::U8,
        FieldType::I8,
        FieldType::U8,
        FieldType::U8,
        FieldType::LenStr(32767),
        FieldType::Bool,
    ]
}

/// Join game, protocols 477-498: 32-bit dimension, view distance.
pub open spec fn spec_layout_join_modern() -> Seq<FieldType> {
    seq![
        FieldType::I32,
        FieldType::U8,
        FieldType::I32,
        FieldType::U8,
        FieldType::LenStr(16),
        FieldType::VarInt,
        FieldType::Bool,
    ]
}

/// Server difficulty without the lock flag.
pub open spec fn spec_layout_difficulty_legacy() -> Seq<FieldType> {
    seq![FieldType::U8]
}

/// Server difficulty with the lock flag.
pub open spec fn spec_layout_difficulty_locked() -> Seq<FieldType> {
    seq![FieldType::U8, FieldType::Bool]
}

/// Update view position.
pub open spec fn spec_layout_view_position() -> Seq<FieldType> {
    seq![FieldType::VarInt, FieldType::VarInt]
}

/// Player abilities: flag byte, fly speed and field-of-view modifier as
/// IEEE single bits.
pub open spec fn spec_layout_abilities() -> Seq<FieldType> {
    seq![FieldType::U8, FieldType::F32Bits, FieldType::F32Bits]
}

/// Disconnect: one JSON chat string.
pub open spec fn spec_layout_disconnect() -> Seq<FieldType> {
    seq![FieldType::LenStr(262144)]
}

/// Position and look.
pub open spec fn spec_layout_position_look() -> Seq<FieldType> {
    seq![
        FieldType::F64Bits,
        FieldType::F64Bits,
        FieldType::F64Bits,
        FieldType::F32Bits,
        FieldType::F32Bits,
        FieldType::U8,
        FieldType::VarInt,
    ]
}

/// Unload chunk: the column coordinates.
pub open spec fn spec_layout_unload_chunk() -> Seq<FieldType> {
    seq![FieldType::I32, FieldType::I32]
}

/// Keep alive: the challenge id.
pub open spec fn spec_layout_keep_alive() -> Seq<FieldType> {
    seq![FieldType::I64]
}

/// Client settings: locale, view distance, chat mode, chat colors, skin
/// parts, main hand.
pub open spec fn spec_layout_client_settings() -> Seq<FieldType> {
    seq![
        FieldType::LenStr(16),
        FieldType::U8,
        FieldType::VarInt,
        FieldType::Bool,
        FieldType::U8,
        FieldType::VarInt,
    ]
}

/// The protocol version table: for a packet kind and a protocol version,
/// the wire opcode and field layout, or `None` when the version has no wire
/// representation for that kind.
pub open spec fn spec_lookup(kind: PacketKind, v: u32) -> Option<(i32, Seq<FieldType>)> {
    match kind {
        PacketKind::JoinGame => if v == 47 {
            Some((0x01, spec_layout_join_legacy()))
        } else if v == 107 {
            Some((0x23, spec_layout_join_legacy()))
        } else if v == 477 || v == 480 || v == 485 || v == 490 || v == 498 {
            Some((0x25, spec_layout_join_modern()))
        } else {
            None
        },
        PacketKind::ServerDifficulty => if v == 47 {
            Some((0x41, spec_layout_difficulty_legacy()))
        } else if v == 107 || v == 108 || v == 109 || v == 110 || v == 210 || v == 315
            || v == 316 || v == 335 || v == 338 || v == 340 || v == 393 || v == 401
            || v == 404 {
            Some((0x0D, spec_layout_difficulty_legacy()))
        } else if v == 477 || v == 480 || v == 485 || v == 490 || v == 498 || v == 735
            || v == 736 {
            Some((0x0D, spec_layout_difficulty_locked()))
        } else if v == 573 || v == 575 || v == 578 {
            Some((0x0E, spec_layout_difficulty_locked()))
        } else {
            None
        },
        PacketKind::UpdateViewPosition => if v == 477 || v == 480 || v == 485 || v == 490
            || v == 498 || v == 735 || v == 736 {
            Some((0x40, spec_layout_view_position()))
        } else if v == 573 || v == 575 || v == 578 {
            Some((0x41, spec_layout_view_position()))
        } else {
            None
        },
        PacketKind::PlayerAbilities => if v == 47 {
            Some((0x39, spec_layout_abilities()))
        } else if v == 107 || v == 108 || v == 109 || v == 110 || v == 210 || v == 315
            || v == 316 || v == 335 {
            Some((0x2B, spec_layout_abilities()))
        } else if v == 338 || v == 340 {
            Some((0x2C, spec_layout_abilities()))
        } else if v == 393 || v == 401 || v == 404 {
            Some((0x2E, spec_layout_abilities()))
        } else if v == 477 || v == 480 || v == 485 || v == 490 || v == 498 || v == 735
            || v == 736 {
            Some((0x31, spec_layout_abilities()))
        } else if v == 573 || v == 575 || v == 578 {
            Some((0x32, spec_layout_abilities()))
        } else {
            None
        },
        PacketKind::Disconnect => if v == 47 {
            Some((0x40, spec_layout_disconnect()))
        } else if v == 107 || v == 108 || v == 109 || v == 110 || v == 210 || v == 315
            || v == 316 || v == 335 || v == 338 || v == 340 || v == 477 || v == 480
            || v == 485 || v == 490 || v == 498 || v == 735 || v == 736 {
            Some((0x1A, spec_layout_disconnect()))
        } else if v == 393 || v == 401 || v == 404 || v == 573 || v == 575 || v == 578 {
            Some((0x1B, spec_layout_disconnect()))
        } else {
            None
        },
        PacketKind::PositionLook => if v == 107 || v == 108 || v == 109 || v == 110
            || v == 210 || v == 315 || v == 316 || v == 335 {
            Some((0x2E, spec_layout_position_look()))
        } else if v == 338 || v == 340 {
            Some((0x2F, spec_layout_position_look()))
        } else if v == 393 || v == 401 || v == 404 {
            Some((0x32, spec_layout_position_look()))
        } else if v == 477 || v == 480 || v == 485 || v == 490 || v == 498 || v == 735
            || v == 736 {
            Some((0x35, spec_layout_position_look()))
        } else if v == 573 || v == 575 || v == 578 {
            Some((0x36, spec_layout_position_look()))
        } else {
            None
        },
        PacketKind::UnloadChunk => if v == 107 || v == 108 || v == 109 || v == 110
            || v == 210 || v == 315 || v == 316 || v == 335 || v == 338 || v == 340
            || v == 477 || v == 480 || v == 485 || v == 490 || v == 498 || v == 735
            || v == 736 {
            Some((0x1D, spec_layout_unload_chunk()))
        } else if v == 393 || v == 401 || v == 404 {
            Some((0x1F, spec_layout_unload_chunk()))
        } else if v == 573 || v == 575 || v == 578 {
            Some((0x1E, spec_layout_unload_chunk()))
        } else {
            None
        },
        PacketKind::KeepAlive => if v == 340 {
            Some((0x0B, spec_layout_keep_alive()))
        } else if v == 393 || v == 401 || v == 404 {
            Some((0x0E, spec_layout_keep_alive()))
        } else {
            None
        },
        PacketKind::ClientSettings => if v == 107 || v == 108 || v == 109 || v == 110
            || v == 210 || v == 315 || v == 316 || v == 338 || v == 340 || v == 393
            || v == 401 || v == 404 {
            Some((0x04, spec_layout_client_settings()))
        } else if v == 335 || v == 477 || v == 480 || v == 485 || v == 490 || v == 498
            || v == 573 || v == 575 || v == 578 || v == 735 || v == 736 {
            Some((0x05, spec_layout_client_settings()))
        } else {
            None
        },
    }
}

/// True iff `kind` is sent in `dir` and its entry for `v` carries `op`.
pub open spec fn spec_kind_matches(
    kind: PacketKind,
    dir: PacketDirection,
    v: u32,
    op: i32,
) -> bool {
    spec_direction(kind) == dir && match spec_lookup(kind, v) {
        Some((o, _)) => o == op,
        None => false,
    }
}

/// The dispatcher's table side: which kind a wire opcode means, for a
/// direction and a negotiated version. `None` is the distinguishable
/// "no decoder found" outcome.
pub open spec fn spec_resolve(dir: PacketDirection, v: u32, op: i32) -> Option<PacketKind> {
    if spec_kind_matches(PacketKind::JoinGame, dir, v, op) {
        Some(PacketKind::JoinGame)
    } else if spec_kind_matches(PacketKind::ServerDifficulty, dir, v, op) {
        Some(PacketKind::ServerDifficulty)
    } else if spec_kind_matches(PacketKind::UpdateViewPosition, dir, v, op) {
        Some(PacketKind::UpdateViewPosition)
    } else if spec_kind_matches(PacketKind::PlayerAbilities, dir, v, op) {
        Some(PacketKind::PlayerAbilities)
    } else if spec_kind_matches(PacketKind::Disconnect, dir, v, op) {
        Some(PacketKind::Disconnect)
    } else if spec_kind_matches(PacketKind::PositionLook, dir, v, op) {
        Some(PacketKind::PositionLook)
    } else if spec_kind_matches(PacketKind::UnloadChunk, dir, v, op) {
        Some(PacketKind::UnloadChunk)
    } else if spec_kind_matches(PacketKind::KeepAlive, dir, v, op) {
        Some(PacketKind::KeepAlive)
    } else if spec_kind_matches(PacketKind::ClientSettings, dir, v, op) {
        Some(PacketKind::ClientSettings)
    } else {
        None
    }
}

fn layout_join_legacy() -> (r: Vec<FieldType>)
    ensures
        r@ == spec_layout_join_legacy(),
{
    let mut l: Vec<FieldType> = Vec::new();
    l.push(FieldType::I32);
    l.push(FieldType::U8);
    l.push(FieldType::I8);
    l.push(FieldType::U8);
    l.push(FieldType::U8);
    l.push(FieldType::LenStr(32767));
    l.push(FieldType::Bool);
    proof {
        assert(l@ =~= spec_layout_join_legacy());
    }
    l
}

fn layout_join_modern() -> (r: Vec<FieldType>)
    ensures
        r@ == spec_layout_join_modern(),
{
    let mut l: Vec<FieldType> = Vec::new();
    l.push(FieldType::I32);
    l.push(FieldType::U8);
    l.push(FieldType::I32);
    l.push(FieldType::U8);
    l.push(FieldType::LenStr(16));
    l.push(FieldType::VarInt);
    l.push(FieldType::Bool);
    proof {
        assert(l@ =~= spec_layout_join_modern());
    }
    l
}

fn layout_difficulty_legacy() -> (r: Vec<FieldType>)
    ensures
        r@ == spec_layout_difficulty_legacy(),
{
    let mut l: Vec<FieldType> = Vec::new();
    l.push(FieldType::U8);
    proof {
        assert(l@ =~= spec_layout_difficulty_legacy());
    }
    l
}

fn layout_difficulty_locked() -> (r: Vec<FieldType>)
    ensures
        r@ == spec_layout_difficulty_locked(),
{
    let mut l: Vec<FieldType> = Vec::new();
    l.push(FieldType::U8);
    l.push(FieldType::Bool);
    proof {
        assert(l@ =~= spec_layout_difficulty_locked());
    }
    l
}

fn layout_view_position() -> (r: Vec<FieldType>)
    ensures
        r@ == spec_layout_view_position(),
{
    let mut l: Vec<FieldType> = Vec::new();
    l.push(FieldType::VarInt);
    l.push(FieldType::VarInt);
    proof {
        assert(l@ =~= spec_layout_view_position());
    }
    l
}

fn layout_abilities() -> (r: Vec<FieldType>)
    ensures
        r@ == spec_layout_abilities(),
{
    let mut l: Vec<FieldType> = Vec::new();
    l.push(FieldType::U8);
    l.push(FieldType::F32Bits);
    l.push(FieldType::F32Bits);
    proof {
        assert(l@ =~= spec_layout_abilities());
    }
    l
}

fn layout_disconnect() -> (r: Vec<FieldType>)
    ensures
        r@ == spec_layout_disconnect(),
{
    let mut l: Vec<FieldType> = Vec::new();
    l.push(FieldType::LenStr(262144));
    proof {
        assert(l@ =~= spec_layout_disconnect());
    }
    l
}

fn layout_position_look() -> (r: Vec<FieldType>)
    ensures
        r@ == spec_layout_position_look(),
{
    let mut l: Vec<FieldType> = Vec::new();
    l.push(FieldType::F64Bits);
    l.push(FieldType::F64Bits);
    l.push(FieldType::F64Bits);
    l.push(FieldType::F32Bits);
    l.push(FieldType::F32Bits);
    l.push(FieldType::U8);
    l.push(FieldType::VarInt);
    proof {
        assert(l@ =~= spec_layout_position_look());
    }
    l
}

fn layout_unload_chunk() -> (r: Vec<FieldType>)
    ensures
        r@ == spec_layout_unload_chunk(),
{
    let mut l: Vec<FieldType> = Vec::new();
    l.push(FieldType::I32);
    l.push(FieldType::I32);
    proof {
        assert(l@ =~= spec_layout_unload_chunk());
    }
    l
}

fn layout_keep_alive() -> (r: Vec<FieldType>)
    ensures
        r@ == spec_layout_keep_alive(),
{
    let mut l: Vec<FieldType> = Vec::new();
    l.push(FieldType::I64);
    proof {
        assert(l@ =~= spec_layout_keep_alive());
    }
    l
}

fn layout_client_settings() -> (r: Vec<FieldType>)
    ensures
        r@ == spec_layout_client_settings(),
{
    let mut l: Vec<FieldType> = Vec::new();
    l.push(FieldType::LenStr(16));
    l.push(FieldType::U8);
    l.push(FieldType::VarInt);
    l.push(FieldType::Bool);
    l.push(FieldType::U8);
    l.push(FieldType::VarInt);
    proof {
        assert(l@ =~= spec_layout_client_settings());
    }
    l
}

/// The protocol version table: the wire opcode and field layout a packet
/// kind uses at a protocol version, or `None` when the version has no wire
/// representation for that kind (such a kind must not be encoded for it).
pub fn lookup(kind: PacketKind, version: u32) -> (r: Option<(i32, Vec<FieldType>)>)
    ensures
        match r {
            Some(e) => spec_lookup(kind, version) == Some((e.0, e.1@)),
            None => spec_lookup(kind, version) is None,
        },
{
    let v = version;
    match kind {
        PacketKind::JoinGame => if v == 47 {
            Some((0x01, layout_join_legacy()))
        } else if v == 107 {
            Some((0x23, layout_join_legacy()))
        } else if v == 477 || v == 480 || v == 485 || v == 490 || v == 498 {
            Some((0x25, layout_join_modern()))
        } else {
            None
        },
        PacketKind::ServerDifficulty => if v == 47 {
            Some((0x41, layout_difficulty_legacy()))
        } else if v == 107 || v == 108 || v == 109 || v == 110 || v == 210 || v == 315
            || v == 316 || v == 335 || v == 338 || v == 340 || v == 393 || v == 401
            || v == 404 {
            Some((0x0D, layout_difficulty_legacy()))
        } else if v == 477 || v == 480 || v == 485 || v == 490 || v == 498 || v == 735
            || v == 736 {
            Some((0x0D, layout_difficulty_locked()))
        } else if v == 573 || v == 575 || v == 578 {
            Some((0x0E, layout_difficulty_locked()))
        } else {
            None
        },
        PacketKind::UpdateViewPosition => if v == 477 || v == 480 || v == 485 || v == 490
            || v == 498 || v == 735 || v == 736 {
            Some((0x40, layout_view_position()))
        } else if v == 573 || v == 575 || v == 578 {
            Some((0x41, layout_view_position()))
        } else {
            None
        },
        PacketKind::PlayerAbilities => if v == 47 {
            Some((0x39, layout_abilities()))
        } else if v == 107 || v == 108 || v == 109 || v == 110 || v == 210 || v == 315
            || v == 316 || v == 335 {
            Some((0x2B, layout_abilities()))
        } else if v == 338 || v == 340 {
            Some((0x2C, layout_abilities()))
        } else if v == 393 || v == 401 || v == 404 {
            Some((0x2E, layout_abilities()))
        } else if v == 477 || v == 480 || v == 485 || v == 490 || v == 498 || v == 735
            || v == 736 {
            Some((0x31, layout_abilities()))
        } else if v == 573 || v == 575 || v == 578 {
            Some((0x32, layout_abilities()))
        } else {
            None
        },
        PacketKind::Disconnect => if v == 47 {
            Some((0x40, layout_disconnect()))
        } else if v == 107 || v == 108 || v == 109 || v == 110 || v == 210 || v == 315
            || v == 316 || v == 335 || v == 338 || v == 340 || v == 477 || v == 480
            || v == 485 || v == 490 || v == 498 || v == 735 || v == 736 {
            Some((0x1A, layout_disconnect()))
        } else if v == 393 || v == 401 || v == 404 || v == 573 || v == 575 || v == 578 {
            Some((0x1B, layout_disconnect()))
        } else {
            None
        },
        PacketKind::PositionLook => if v == 107 || v == 108 || v == 109 || v == 110
            || v == 210 || v == 315 || v == 316 || v == 335 {
            Some((0x2E, layout_position_look()))
        } else if v == 338 || v == 340 {
            Some((0x2F, layout_position_look()))
        } else if v == 393 || v == 401 || v == 404 {
            Some((0x32, layout_position_look()))
        } else if v == 477 || v == 480 || v == 485 || v == 490 || v == 498 || v == 735
            || v == 736 {
            Some((0x35, layout_position_look()))
        } else if v == 573 || v == 575 || v == 578 {
            Some((0x36, layout_position_look()))
        } else {
            None
        },
        PacketKind::UnloadChunk => if v == 107 || v == 108 || v == 109 || v == 110
            || v == 210 || v == 315 || v == 316 || v == 335 || v == 338 || v == 340
            || v == 477 || v == 480 || v == 485 || v == 490 || v == 498 || v == 735
            || v == 736 {
            Some((0x1D, layout_unload_chunk()))
        } else if v == 393 || v == 401 || v == 404 {
            Some((0x1F, layout_unload_chunk()))
        } else if v == 573 || v == 575 || v == 578 {
            Some((0x1E, layout_unload_chunk()))
        } else {
            None
        },
        PacketKind::KeepAlive => if v == 340 {
            Some((0x0B, layout_keep_alive()))
        } else if v == 393 || v == 401 || v == 404 {
            Some((0x0E, layout_keep_alive()))
        } else {
            None
        },
        PacketKind::ClientSettings => if v == 107 || v == 108 || v == 109 || v == 110
            || v == 210 || v == 315 || v == 316 || v == 338 || v == 340 || v == 393
            || v == 401 || v == 404 {
            Some((0x04, layout_client_settings()))
        } else if v == 335 || v == 477 || v == 480 || v == 485 || v == 490 || v == 498
            || v == 573 || v == 575 || v == 578 || v == 735 || v == 736 {
            Some((0x05, layout_client_settings()))
        } else {
            None
        },
    }
}

/// True iff `kind` is sent in `dir` and its entry for `version` carries
/// `opcode`.
fn kind_matches(kind: PacketKind, dir: PacketDirection, version: u32, opcode: i32) -> (r: bool)
    ensures
        r == spec_kind_matches(kind, dir, version, opcode),
{
    if !(direction(kind) == dir) {
        return false;
    }
    match lookup(kind, version) {
        Some(e) => e.0 == opcode,
        None => false,
    }
}

/// Resolves a wire opcode for a direction and negotiated version to the
/// packet kind it means. `None` is the distinguishable "no decoder found"
/// outcome; the surrounding server decides whether that is ignored or a
/// protocol violation.
pub fn resolve(dir: PacketDirection, version: u32, opcode: i32) -> (r: Option<PacketKind>)
    ensures
        r == spec_resolve(dir, version, opcode),
{
    if kind_matches(PacketKind::JoinGame, dir, version, opcode) {
        Some(PacketKind::JoinGame)
    } else if kind_matches(PacketKind::ServerDifficulty, dir, version, opcode) {
        Some(PacketKind::ServerDifficulty)
    } else if kind_matches(PacketKind::UpdateViewPosition, dir, version, opcode) {
        Some(PacketKind::UpdateViewPosition)
    } else if kind_matches(PacketKind::PlayerAbilities, dir, version, opcode) {
        Some(PacketKind::PlayerAbilities)
    } else if kind_matches(PacketKind::Disconnect, dir, version, opcode) {
        Some(PacketKind::Disconnect)
    } else if kind_matches(PacketKind::PositionLook, dir, version, opcode) {
        Some(PacketKind::PositionLook)
    } else if kind_matches(PacketKind::UnloadChunk, dir, version, opcode) {
        Some(PacketKind::UnloadChunk)
    } else if kind_matches(PacketKind::KeepAlive, dir, version, opcode) {
        Some(PacketKind::KeepAlive)
    } else if kind_matches(PacketKind::ClientSettings, dir, version, opcode) {
        Some(PacketKind::ClientSettings)
    } else {
        None
    }
}

/// Opcodes are unambiguous: resolving the opcode that the table assigns a
/// kind for a version finds that kind again.
pub proof fn lemma_resolve_lookup(kind: PacketKind, v: u32)
    requires
        spec_lookup(kind, v) is Some,
    ensures
        spec_resolve(spec_direction(kind), v, (spec_lookup(kind, v)->0).0) == Some(kind),
{
    match kind {
        PacketKind::JoinGame => {},
        PacketKind::ServerDifficulty => {},
        PacketKind::UpdateViewPosition => {},
        PacketKind::PlayerAbilities => {},
        PacketKind::Disconnect => {},
        PacketKind::PositionLook => {},
        PacketKind::UnloadChunk => {},
        PacketKind::KeepAlive => {},
        PacketKind::ClientSettings => {},
    }
}

} // verus!

use vstd::prelude::*;
use crate::packets::{FieldVal, FieldValue};

verus! {

broadcast use vstd::string::to_string_from_display_ensures_for_str;

/// The keep-alive side of a connection: no challenge pending, a challenge
/// sent and not yet acknowledged, or the connection being torn down.
#[derive(Clone, Copy, Debug, PartialEq, Eq, Structural)]
pub enum ConnectionPhase {
    Idle,
    AwaitingKeepAlive,
    Disconnecting,
}

/// Per-connection mutable state consumed and mutated by packet handlers:
/// the negotiated protocol version, the player identity once login
/// completed, the outstanding keep-alive challenge id, the requested view
/// distance, and the keep-alive phase with its disconnect reason.
///
/// The state is owned exclusively by its connection's task; handlers run
/// sequentially for one connection, so no locking happens here.
#[derive(Debug)]
pub struct HandlerState {
    version: u32,
    player_uuid: Option<u128>,
    last_keep_alive: u64,
    view_distance: u8,
    phase: ConnectionPhase,
    disconnect_reason: Option<String>,
}

impl HandlerState {
    /// The negotiated protocol version.
    pub closed spec fn spec_version(self) -> u32 {
        self.version
    }

    /// The player identity, once login completed.
    pub closed spec fn spec_player_uuid(self) -> Option<u128> {
        self.player_uuid
    }

    /// The outstanding keep-alive challenge id.
    pub closed spec fn spec_last_keep_alive(self) -> u64 {
        self.last_keep_alive
    }

    /// The requested view distance.
    pub closed spec fn spec_view_distance(self) -> u8 {
        self.view_distance
    }

    /// The keep-alive phase.
    pub closed spec fn spec_phase(self) -> ConnectionPhase {
        self.phase
    }

    /// The reason the connection is being torn down, if it is.
    pub closed spec fn spec_disconnect_reason(self) -> Option<Seq<char>> {
        match self.disconnect_reason {
            Some(s) => Some(s@),
            None => None,
        }
    }

    /// A fresh connection state for a negotiated version: no player, no
    /// outstanding challenge, idle.
    pub fn new(version: u32) -> (r: Self)
        ensures
            r.spec_version() == version,
            r.spec_player_uuid() is None,
            r.spec_last_keep_alive() == 0,
            r.spec_view_distance() == 0,
            r.spec_phase() == ConnectionPhase::Idle,
            r.spec_disconnect_reason() is None,
    {
        HandlerState {
            version,
            player_uuid: None,
            last_keep_alive: 0,
            view_distance: 0,
            phase: ConnectionPhase::Idle,
            disconnect_reason: None,
        }
    }

    /// The negotiated protocol version.
    pub fn version(&self) -> (r: u32)
        ensures
            r == self.spec_version(),
    {
        self.version
    }

    /// The player identity, once login completed.
    pub fn player_uuid(&self) -> (r: Option<u128>)
        ensures
            r == self.spec_player_uuid(),
    {
        self.player_uuid
    }

    /// Associates the player identity after login.
    pub fn set_player_uuid(&mut self, uuid: u128)
        ensures
            final(self).spec_player_uuid() == Some(uuid),
            final(self).spec_version() == old(self).spec_version(),
            final(self).spec_last_keep_alive() == old(self).spec_last_keep_alive(),
            final(self).spec_view_distance() == old(self).spec_view_distance(),
            final(self).spec_phase() == old(self).spec_phase(),
            final(self).spec_disconnect_reason() == old(self).spec_disconnect_reason(),
    {
        self.player_uuid = Some(uuid);
    }

    /// The outstanding keep-alive challenge id.
    pub fn last_keep_alive(&self) -> (r: u64)
        ensures
            r == self.spec_last_keep_alive(),
    {
        self.last_keep_alive
    }

    /// The keep-alive phase.
    pub fn phase(&self) -> (r: ConnectionPhase)
        ensures
            r == self.spec_phase(),
    {
        self.phase
    }

    /// The requested view distance.
    pub fn view_distance(&self) -> (r: u8)
        ensures
            r == self.spec_view_distance(),
    {
        self.view_distance
    }

    /// The reason the connection is being torn down, if it is.
    pub fn disconnect_reason(&self) -> (r: &Option<String>)
        ensures
            match r {
                Some(s) => self.spec_disconnect_reason() == Some(s@),
                None => self.spec_disconnect_reason() is None,
            },
    {
        &self.disconnect_reason
    }

    /// Issues a new keep-alive challenge (the periodic scheduler calls
    /// this) and awaits the client's acknowledgement.
    pub fn issue_keep_alive(&mut self, id: u64)
        ensures
            final(self).spec_last_keep_alive() == id,
            final(self).spec_phase() == ConnectionPhase::AwaitingKeepAlive,
            final(self).spec_version() == old(self).spec_version(),
            final(self).spec_player_uuid() == old(self).spec_player_uuid(),
            final(self).spec_view_distance() == old(self).spec_view_distance(),
            final(self).spec_disconnect_reason() == old(self).spec_disconnect_reason(),
    {
        self.last_keep_alive = id;
        self.phase = ConnectionPhase::AwaitingKeepAlive;
    }

    /// Acknowledges the outstanding challenge: back to idle, so the owning
    /// scheduler can reset its timer.
    pub fn reset_keep_alive(&mut self)
        ensures
            final(self).spec_phase() == ConnectionPhase::Idle,
            final(self).spec_version() == old(self).spec_version(),
            final(self).spec_player_uuid() == old(self).spec_player_uuid(),
            final(self).spec_last_keep_alive() == old(self).spec_last_keep_alive(),
            final(self).spec_view_distance() == old(self).spec_view_distance(),
            final(self).spec_disconnect_reason() == old(self).spec_disconnect_reason(),
    {
        self.phase = ConnectionPhase::Idle;
    }

    /// Moves the connection to the terminal disconnecting state with a
    /// human-readable reason; the owning task performs the teardown.
    pub fn disconnect(&mut self, reason: String)
        ensures
            final(self).spec_phase() == ConnectionPhase::Disconnecting,
            final(self).spec_disconnect_reason() == Some(reason@),
            final(self).spec_version() == old(self).spec_version(),
            final(self).spec_player_uuid() == old(self).spec_player_uuid(),
            final(self).spec_last_keep_alive() == old(self).spec_last_keep_alive(),
            final(self).spec_view_distance() == old(self).spec_view_distance(),
    {
        self.phase = ConnectionPhase::Disconnecting;
        self.disconnect_reason = Some(reason);
    }
}

/// The serverbound keep-alive acknowledgement: the challenge id the client
/// echoes back.
#[derive(Clone, Copy, Debug, PartialEq, Eq, Structural)]
pub struct KeepAlivePacket {
    pub id: i64,
}

impl KeepAlivePacket {
    pub fn new(id: i64) -> (r: Self)
        ensures
            r.id == id,
    {
        KeepAlivePacket { id }
    }

    /// The echoed challenge id.
    pub fn id(&self) -> (r: i64)
        ensures
            r == self.id,
    {
        self.id
    }

    /// Builds the packet from the generic decoder's field values, when they
    /// have the keep-alive shape (one 64-bit id).
    pub fn from_fields(values: &Vec<FieldValue>) -> (r: Option<Self>)
        ensures
            match r {
                Some(p) => values@.len() == 1 && values@[0] == FieldValue::I64(p.id),
                None => !(values@.len() == 1 && values@[0] is I64),
            },
    {
        if values.len() != 1 {
            return None;
        }
        match &values[0] {
            FieldValue::I64(id) => Some(KeepAlivePacket { id: *id }),
            _ => None,
        }
    }

    /// Handles the acknowledgement against the connection state: an id
    /// other than the outstanding challenge moves the connection to
    /// `Disconnecting` with the diagnostic reason; the right id
    /// acknowledges the challenge and returns the connection to `Idle`.
    /// Connection state is never left partially updated.
    pub fn handle_packet(self, connection: &mut HandlerState) -> (r: Result<(), ()>)
        ensures
            r is Ok,
            final(connection).spec_version() == old(connection).spec_version(),
            final(connection).spec_player_uuid() == old(connection).spec_player_uuid(),
            final(connection).spec_last_keep_alive() == old(connection).spec_last_keep_alive(),
            final(connection).spec_view_distance() == old(connection).spec_view_distance(),
            if (self.id as u64) == old(connection).spec_last_keep_alive() {
                &&& final(connection).spec_phase() == ConnectionPhase::Idle
                &&& final(connection).spec_disconnect_reason()
                    == old(connection).spec_disconnect_reason()
            } else {
                &&& final(connection).spec_phase() == ConnectionPhase::Disconnecting
                &&& final(connection).spec_disconnect_reason()
                    == Some("Received invalid Keep Alive id!"@)
            },
    {
        if connection.last_keep_alive() != #[verifier::truncate] (self.id as u64) {
            let reason = "Received invalid Keep Alive id!".to_string();
            connection.disconnect(reason);
        } else {
            connection.reset_keep_alive();
        }
        Ok(())
    }

    /// The packet's diagnostic name.
    pub fn get_name(&self) -> (r: &'static str)
        ensures
            r@ == "Keep alive (1.12.2)"@,
    {
        "Keep alive (1.12.2)"
    }
}

/// A player's view-distance request to pass on to the server collaborator.
#[derive(Clone, Copy, Debug, PartialEq, Eq, Structural)]
pub struct ViewDistanceUpdate {
    pub player_uuid: u128,
    pub view_distance: u8,
}

/// The serverbound client settings packet: locale (UTF-8 bytes, at most
/// 16), view distance, chat mode, chat colors, skin parts, main hand.
#[derive(Clone, Debug, PartialEq, Eq)]
pub struct ClientSettingsPacket {
    pub locale: Vec<u8>,
    pub view_distance: u8,
    pub chat_mode: i32,
    pub chat_colors: bool,
    pub skin_parts: u8,
    pub main_hand: i32,
}

impl ClientSettingsPacket {
    /// Builds the packet from the generic decoder's field values, when they
    /// have the client-settings shape.
    pub fn from_fields(values: &Vec<FieldValue>) -> (r: Option<Self>)
        ensures
            match r {
                Some(p) => {
                    &&& values@.len() == 6
                    &&& values@[0]@ == FieldVal::Str(p.locale@)
                    &&& values@[1]@ == FieldVal::U8(p.view_distance)
                    &&& values@[2]@ == FieldVal::VarInt(p.chat_mode)
                    &&& values@[3]@ == FieldVal::Bool(p.chat_colors)
                    &&& values@[4]@ == FieldVal::U8(p.skin_parts)
                    &&& values@[5]@ == FieldVal::VarInt(p.main_hand)
                },
                None => !(values@.len() == 6 && values@[0] is Str && values@[1] is U8
                    && values@[2] is VarInt && values@[3] is Bool && values@[4] is U8
                    && values@[5] is VarInt),
            },
    {
        if values.len() != 6 {
            return None;
        }
        let locale = match &values[0] {
            FieldValue::Str(s) => s.clone(),
            _ => {
                return None;
            },
        };
        let view_distance = match &values[1] {
            FieldValue::U8(x) => *x,
            _ => {
                return None;
            },
        };
        let chat_mode = match &values[2] {
            FieldValue::VarInt(x) => *x,
            _ => {
                return None;
            },
        };
        let chat_colors = match &values[3] {
            FieldValue::Bool(x) => *x,
            _ => {
                return None;
            },
        };
        let skin_parts = match &values[4] {
            FieldValue::U8(x) => *x,
            _ => {
                return None;
            },
        };
        let main_hand = match &values[5] {
            FieldValue::VarInt(x) => *x,
            _ => {
                return None;
            },
        };
        proof {
            assert(values@[0] is Str);
        }
        Some(ClientSettingsPacket {
            locale,
            view_distance,
            chat_mode,
            chat_colors,
            skin_parts,
            main_hand,
        })
    }

    /// Handles the settings against the connection state: when a player is
    /// logged in, the server collaborator is told the requested view
    /// distance; before login the packet has no effect.
    pub fn handle_packet(self, connection: &HandlerState) -> (r: Option<ViewDistanceUpdate>)
        ensures
            match connection.spec_player_uuid() {
                Some(uuid) => r == Some(ViewDistanceUpdate {
                    player_uuid: uuid,
                    view_distance: self.view_distance,
                }),
                None => r is None,
            },
    {
        match connection.player_uuid() {
            Some(uuid) => Some(ViewDistanceUpdate {
                player_uuid: uuid,
                view_distance: self.view_distance,
            }),
            None => None,
        }
    }

    /// The packet's diagnostic name.
    pub fn get_name(&self) -> (r: &'static str)
        ensures
            r@ == "Client Settings (1.9)"@,
    {
        "Client Settings (1.9)"
    }
}

} // verus!

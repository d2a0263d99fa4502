use vstd::prelude::*;

verus! {

broadcast use vstd::string::to_string_from_display_ensures_for_str;

/// Player-facing settings: flight permission and the allowed view distance.
#[derive(Debug)]
pub struct PlayerSettings {
    allow_flight: bool,
    max_view_distance: u8,
}

impl PlayerSettings {
    pub closed spec fn spec_allow_flight(self) -> bool {
        self.allow_flight
    }

    pub closed spec fn spec_max_view_distance(self) -> u8 {
        self.max_view_distance
    }

    pub fn new(allow_flight: bool, max_view_distance: u8) -> (r: Self)
        ensures
            r.spec_allow_flight() == allow_flight,
            r.spec_max_view_distance() == max_view_distance,
    {
        PlayerSettings { allow_flight, max_view_distance }
    }

    /// Whether players may fly.
    pub fn allow_flight(&self) -> (r: bool)
        ensures
            r == self.spec_allow_flight(),
    {
        self.allow_flight
    }

    /// The largest view distance the server grants.
    pub fn max_view_distance(&self) -> (r: u8)
        ensures
            r == self.spec_max_view_distance(),
    {
        self.max_view_distance
    }
}

impl Default for PlayerSettings {
    /// No flight, view distance 10.
    fn default() -> (r: Self)
        ensures
            r.spec_allow_flight() == false,
            r.spec_max_view_distance() == 10,
    {
        PlayerSettings { allow_flight: false, max_view_distance: 10 }
    }
}

/// Server-level settings: the player cap and the list description text.
#[derive(Debug)]
pub struct ServerSettings {
    max_players: i32,
    description: String,
}

impl ServerSettings {
    pub closed spec fn spec_max_players(self) -> i32 {
        self.max_players
    }

    pub closed spec fn spec_description(self) -> Seq<char> {
        self.description@
    }

    pub fn new(max_players: i32, description: String) -> (r: Self)
        ensures
            r.spec_max_players() == max_players,
            r.spec_description() == description@,
    {
        ServerSettings { max_players, description }
    }

    /// The player cap; negative means unlimited.
    pub fn max_players(&self) -> (r: i32)
        ensures
            r == self.spec_max_players(),
    {
        self.max_players
    }

    /// The server description text.
    pub fn description(&self) -> (r: &str)
        ensures
            r@ == self.spec_description(),
    {
        self.description.as_str()
    }
}

impl Default for ServerSettings {
    /// Unlimited players and the stock description text.
    fn default() -> (r: Self)
        ensures
            r.spec_max_players() == -1,
            r.spec_description() == "§eFalcon server§r§b!!!"@,
    {
        ServerSettings {
            max_players: -1,
            description: "§eFalcon server§r§b!!!".to_string(),
        }
    }
}

/// Which protocol versions configuration explicitly excludes.
#[derive(Debug)]
pub struct VersionSettings {
    excluded: Vec<u32>,
}

impl VersionSettings {
    pub closed spec fn spec_excluded(self) -> Seq<u32> {
        self.excluded@
    }

    pub fn new(excluded: Vec<u32>) -> (r: Self)
        ensures
            r.spec_excluded() == excluded@,
    {
        VersionSettings { excluded }
    }

    /// The explicitly excluded protocol versions.
    pub fn excluded_versions(&self) -> (r: &Vec<u32>)
        ensures
            r@ == self.spec_excluded(),
    {
        &self.excluded
    }
}

impl Default for VersionSettings {
    /// Nothing excluded.
    fn default() -> (r: Self)
        ensures
            r.spec_excluded() == Seq::<u32>::empty(),
    {
        let excluded: Vec<u32> = Vec::new();
        proof {
            assert(excluded@ =~= Seq::<u32>::empty());
        }
        VersionSettings { excluded }
    }
}

/// The closed set of protocol versions the server speaks.
pub open spec fn spec_allowed_version(v: u32) -> bool {
    v == 393 || v == 401 || v == 404 || v == 477 || v == 480 || v == 485 || v == 490
        || v == 498 || v == 573 || v == 575 || v == 578 || v == 735 || v == 736
}

/// True iff `v` is in the closed set of supported protocol versions.
pub fn is_allowed_version(v: u32) -> (r: bool)
    ensures
        r == spec_allowed_version(v),
{
    v == 393 || v == 401 || v == 404 || v == 477 || v == 480 || v == 485 || v == 490
        || v == 498 || v == 573 || v == 575 || v == 578 || v == 735 || v == 736
}

/// Version gating: a connection may proceed only when its negotiated
/// version is in the supported set and not explicitly excluded by
/// configuration; otherwise it must be rejected before any gameplay packet
/// is processed.
pub fn version_permitted(excluded: &Vec<u32>, v: u32) -> (r: bool)
    ensures
        r == (spec_allowed_version(v) && !excluded@.contains(v)),
{
    if !is_allowed_version(v) {
        return false;
    }
    let mut i: usize = 0;
    while i < excluded.len()
        invariant
            i <= excluded@.len(),
            forall|j: int| 0 <= j < i ==> excluded@[j] != v,
        decreases excluded@.len() - i,
    {
        if excluded[i] == v {
            return false;
        }
        i += 1;
    }
    proof {
        assert(!excluded@.contains(v));
    }
    true
}

} // verus!

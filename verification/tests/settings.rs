use falcon_protocol::config::{
    is_allowed_version, version_permitted, PlayerSettings, ServerSettings, VersionSettings,
};

#[test]
fn player_settings_default() {
    let s = PlayerSettings::default();
    assert!(!s.allow_flight());
    assert_eq!(s.max_view_distance(), 10);
    let s = PlayerSettings::new(true, 16);
    assert!(s.allow_flight());
    assert_eq!(s.max_view_distance(), 16);
}

#[test]
fn server_settings_default() {
    let s = ServerSettings::default();
    assert_eq!(s.max_players(), -1);
    assert_eq!(s.description(), "§eFalcon server§r§b!!!");
    let s = ServerSettings::new(20, "hello".to_string());
    assert_eq!(s.max_players(), 20);
    assert_eq!(s.description(), "hello");
}

#[test]
fn version_settings_default_excludes_nothing() {
    let s = VersionSettings::default();
    assert!(s.excluded_versions().is_empty());
    let s = VersionSettings::new(vec![498]);
    assert_eq!(s.excluded_versions(), &vec![498]);
}

#[test]
fn allowed_version_set() {
    for v in [393u32, 401, 404, 477, 480, 485, 490, 498, 573, 575, 578, 735, 736] {
        assert!(is_allowed_version(v));
    }
    for v in [0u32, 47, 107, 340, 394, 500, 754] {
        assert!(!is_allowed_version(v));
    }
}

#[test]
fn version_gating_respects_exclusions() {
    let none: Vec<u32> = vec![];
    assert!(version_permitted(&none, 393));
    assert!(!version_permitted(&none, 47));
    let excluded = vec![393, 735];
    assert!(!version_permitted(&excluded, 393));
    assert!(!version_permitted(&excluded, 735));
    assert!(version_permitted(&excluded, 404));
    // An excluded entry outside the supported set changes nothing.
    let excluded = vec![47];
    assert!(!version_permitted(&excluded, 47));
    assert!(version_permitted(&excluded, 578));
}

use tryfol::mpris::{
    app_name, is_player_name, label_text, owner_change, Capabilities, Choice, LoopStatus, OwnerChange, PlaybackStatus,
    PlayerList, Probe,
};

#[test]
fn playback_status_names() {
    assert_eq!(PlaybackStatus::from_name("Playing"), Some(PlaybackStatus::Playing));
    assert_eq!(PlaybackStatus::from_name("Paused"), Some(PlaybackStatus::Paused));
    assert_eq!(PlaybackStatus::from_name("Stopped"), Some(PlaybackStatus::Stopped));
    assert_eq!(PlaybackStatus::from_name("playing"), None);
    for s in [PlaybackStatus::Playing, PlaybackStatus::Paused, PlaybackStatus::Stopped] {
        assert_eq!(PlaybackStatus::from_name(s.name()), Some(s));
    }
}

#[test]
fn loop_status_names() {
    assert_eq!(LoopStatus::from_name("None"), Some(LoopStatus::NoLoop));
    assert_eq!(LoopStatus::from_name("Track"), Some(LoopStatus::Track));
    assert_eq!(LoopStatus::from_name("Playlist"), Some(LoopStatus::Playlist));
    assert_eq!(LoopStatus::from_name(""), None);
    assert_eq!(LoopStatus::NoLoop.name(), "None");
}

#[test]
fn player_bus_names() {
    assert!(is_player_name("org.mpris.MediaPlayer2.spotify"));
    assert!(!is_player_name("org.mpris.MediaPlayer2.playerctld"));
    assert!(!is_player_name("org.mpris.MediaPlayer2"));
    assert!(!is_player_name("org.freedesktop.DBus"));
    assert_eq!(app_name("org.mpris.MediaPlayer2.firefox.instance_1_2"), "firefox.instance_1_2");
    assert_eq!(app_name(":1.42"), ":1.42");
}

#[test]
fn owner_changes() {
    assert_eq!(owner_change("org.mpris.MediaPlayer2.vlc", false, true), OwnerChange::Added);
    assert_eq!(owner_change("org.mpris.MediaPlayer2.vlc", true, false), OwnerChange::Removed);
    assert_eq!(owner_change("org.mpris.MediaPlayer2.vlc", true, true), OwnerChange::Ignored);
    assert_eq!(owner_change("org.other", false, true), OwnerChange::Ignored);
}

#[test]
fn capabilities() {
    let c = Capabilities { can_control: true, can_play: true, can_pause: false, can_go_previous: true, can_go_next: false };
    assert!(!c.can_toggle());
    assert!(c.can_previous());
    assert!(!c.can_next());
    let c = Capabilities { can_control: false, ..c };
    assert!(!c.can_previous());
}

#[test]
fn label_texts() {
    let artists = vec!["A".to_string(), "B".to_string()];
    assert_eq!(label_text(PlaybackStatus::Playing, Some("Song"), &artists), "󰏤  Song - A, B");
    assert_eq!(label_text(PlaybackStatus::Paused, None, &vec![]), "󰐊  Unknown");
    assert_eq!(label_text(PlaybackStatus::Stopped, Some("T"), &vec![String::new(), String::new()]), "󰐊  T");
    assert_eq!(label_text(PlaybackStatus::Playing, Some("T"), &vec![String::new(), "X".to_string()]), "󰏤  T - , X");
}

#[test]
fn player_list_insert_and_remove() {
    let mut list: PlayerList<u32> = PlayerList::new();
    list.insert("spotify".to_string(), 1);
    list.insert("vlc".to_string(), 2);
    list.insert("spotify".to_string(), 3);
    assert_eq!(list.len(), 2);
    assert_eq!(list.position("spotify"), Some(0));
    assert_eq!(*list.get(0), 3);
    assert_eq!(list.remove("spotify"), Some(3));
    assert_eq!(list.remove("spotify"), None);
    assert_eq!(list.position("vlc"), Some(0));
}

#[test]
fn choose_the_playing_player() {
    let mut list: PlayerList<u32> = PlayerList::new();
    list.insert("a".to_string(), 1);
    list.insert("b".to_string(), 2);
    list.insert("c".to_string(), 3);
    let probes: Vec<Probe<String>> = vec![Probe::Gone, Probe::Status(PlaybackStatus::Playing)];
    assert_eq!(list.choose_player(probes), Choice::Player(1));
    assert_eq!(list.len(), 3);
}

#[test]
fn choose_stops_at_errors() {
    let mut list: PlayerList<u32> = PlayerList::new();
    list.insert("a".to_string(), 1);
    list.insert("b".to_string(), 2);
    let probes = vec![Probe::Status(PlaybackStatus::Paused), Probe::Failed("boom".to_string())];
    assert_eq!(list.choose_player(probes), Choice::Failed("boom".to_string()));
    assert_eq!(list.len(), 2);
}

#[test]
fn choose_drops_gone_players() {
    let mut list: PlayerList<u32> = PlayerList::new();
    list.insert("a".to_string(), 1);
    list.insert("b".to_string(), 2);
    list.insert("c".to_string(), 3);
    let probes: Vec<Probe<String>> = vec![
        Probe::Gone,
        Probe::Status(PlaybackStatus::Paused),
        Probe::Status(PlaybackStatus::Stopped),
    ];
    assert_eq!(list.choose_player(probes), Choice::Player(0));
    assert_eq!(list.len(), 2);
    assert_eq!(*list.get(0), 2);
    let mut list: PlayerList<u32> = PlayerList::new();
    list.insert("a".to_string(), 1);
    assert_eq!(list.choose_player(vec![Probe::<String>::Gone]), Choice::NoPlayer);
    assert_eq!(list.len(), 0);
}

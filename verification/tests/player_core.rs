use music_player::engine::Command;
use music_player::engine::Engine;
use music_player::engine::SinkOp;
use music_player::library::Library;
use music_player::library::Song;
use music_player::queue::shuffled_queue;
use music_player::ui::KeyInput;
use music_player::ui::RApp;

fn song(artist: &str, name: &str, location: &str) -> Song {
    Song { artist: artist.to_string(), name: name.to_string(), location: location.to_string() }
}

fn sample_catalog(names: &[&str]) -> Library {
    let mut l = Library::new();
    for n in names {
        l.add(song("artist", n, &format!("/music/{n}.mp3")));
    }
    l
}

#[test]
fn queue_is_permutation_of_catalog() {
    let catalog = sample_catalog(&["a", "b", "c", "d", "e"]);
    let q = shuffled_queue(&catalog);
    assert_eq!(q.len(), 5);
    let mut names: Vec<String> = q.iter().map(|s| s.name.clone()).collect();
    names.sort();
    assert_eq!(names, vec!["a", "b", "c", "d", "e"]);
}

#[test]
fn queue_of_single_song_catalog() {
    let catalog = sample_catalog(&["only"]);
    let q = shuffled_queue(&catalog);
    assert_eq!(q.len(), 1);
    assert_eq!(q[0].name, "only");
}

#[test]
fn queue_of_empty_catalog_is_empty() {
    let catalog = Library::new();
    let q = shuffled_queue(&catalog);
    assert_eq!(q.len(), 0);
}

#[test]
fn skip_wraps_at_end_when_looping() {
    let mut e = Engine::new(3);
    e.cursor = 2;
    e.looping = true;
    let op = e.apply_command(Command::Skip);
    assert_eq!(e.cursor, 0);
    assert_eq!(op, SinkOp::Load(0));
}

#[test]
fn skip_at_end_without_looping_stays() {
    let mut e = Engine::new(3);
    e.cursor = 2;
    let op = e.apply_command(Command::Skip);
    assert_eq!(e.cursor, 2);
    assert_eq!(op, SinkOp::Load(2));
}

#[test]
fn exhaustion_without_looping_terminates() {
    let mut e = Engine::new(3);
    e.cursor = 2;
    let op = e.on_sink_empty();
    assert_eq!(op, SinkOp::Terminate);
    assert_eq!(e.cursor, 2);
}

#[test]
fn skip_moves_forward_in_the_middle() {
    let mut e = Engine::new(3);
    let op = e.apply_command(Command::Skip);
    assert_eq!(e.cursor, 1);
    assert_eq!(op, SinkOp::Load(1));
}

#[test]
fn back_at_start_is_a_no_op() {
    let mut e = Engine::new(3);
    let op = e.apply_command(Command::Back);
    assert_eq!(e.cursor, 0);
    assert_eq!(op, SinkOp::Stay);
}

#[test]
fn back_steps_one_track_back_and_reloads() {
    let mut e = Engine::new(3);
    e.cursor = 2;
    let op = e.apply_command(Command::Back);
    assert_eq!(e.cursor, 1);
    assert_eq!(op, SinkOp::Load(1));
}

#[test]
fn song_repeat_replays_current_track_regardless_of_looping() {
    for looping in [false, true] {
        let mut e = Engine::new(2);
        e.cursor = 1;
        e.looping = looping;
        e.song_repeat = true;
        for _ in 0..3 {
            let op = e.on_sink_empty();
            assert_eq!(op, SinkOp::Load(1));
            assert_eq!(e.cursor, 1);
        }
    }
}

#[test]
fn clearing_song_repeat_resumes_normal_advance() {
    let mut e = Engine::new(3);
    e.song_repeat = true;
    let op = e.on_sink_empty();
    assert_eq!(op, SinkOp::Load(0));
    let op = e.apply_command(Command::NoRepeat);
    assert_eq!(op, SinkOp::Stay);
    let op = e.on_sink_empty();
    assert_eq!(op, SinkOp::Load(1));
    assert_eq!(e.cursor, 1);
}

#[test]
fn volume_clamps_under_repeated_bursts() {
    let mut e = Engine::new(1);
    assert_eq!(e.volume, 10);
    for _ in 0..5 {
        let op = e.apply_command(Command::VolumeUp);
        assert_eq!(op, SinkOp::SetVolume(10));
        assert_eq!(e.volume, 10);
    }
    for expected in (0..10).rev() {
        let op = e.apply_command(Command::VolumeDown);
        assert_eq!(op, SinkOp::SetVolume(expected));
        assert_eq!(e.volume, expected);
    }
    for _ in 0..5 {
        let op = e.apply_command(Command::VolumeDown);
        assert_eq!(op, SinkOp::SetVolume(0));
        assert_eq!(e.volume, 0);
    }
    let op = e.apply_command(Command::VolumeUp);
    assert_eq!(op, SinkOp::SetVolume(1));
    assert_eq!(e.volume, 1);
}

#[test]
fn three_track_session_plays_through_then_terminates() {
    let mut e = Engine::new(3);
    assert_eq!(e.cursor, 0);
    assert!(!e.looping);
    let op = e.on_sink_empty();
    assert_eq!(op, SinkOp::Load(1));
    let op = e.on_sink_empty();
    assert_eq!(op, SinkOp::Load(2));
    let op = e.on_sink_empty();
    assert_eq!(op, SinkOp::Terminate);
}

#[test]
fn two_track_session_wraps_when_looping() {
    let mut e = Engine::new(2);
    let op = e.apply_command(Command::Loop);
    assert_eq!(op, SinkOp::Stay);
    let op = e.on_sink_empty();
    assert_eq!(op, SinkOp::Load(1));
    let op = e.on_sink_empty();
    assert_eq!(op, SinkOp::Load(0));
    assert_eq!(e.cursor, 0);
}

#[test]
fn play_and_pause_do_not_move_the_cursor() {
    let mut e = Engine::new(3);
    e.cursor = 1;
    assert_eq!(e.apply_command(Command::Paused), SinkOp::Pause);
    assert_eq!(e.cursor, 1);
    assert_eq!(e.apply_command(Command::Playing), SinkOp::Resume);
    assert_eq!(e.cursor, 1);
}

#[test]
fn loop_commands_only_set_the_flag() {
    let mut e = Engine::new(3);
    e.cursor = 1;
    assert_eq!(e.apply_command(Command::Loop), SinkOp::Stay);
    assert!(e.looping);
    assert_eq!(e.cursor, 1);
    assert_eq!(e.apply_command(Command::NoLoop), SinkOp::Stay);
    assert!(!e.looping);
}

#[test]
fn quit_key_raises_exit_and_sends_nothing() {
    let mut app = RApp::default();
    let cmd = app.handle_key(KeyInput::Char('q'));
    assert!(cmd.is_none());
    assert!(app.exit);
}

#[test]
fn space_toggles_play_state_optimistically() {
    let mut app = RApp::default();
    app.is_playing = true;
    let cmd = app.handle_key(KeyInput::Char(' '));
    assert_eq!(cmd, Some(Command::Paused));
    assert!(!app.is_playing);
    let cmd = app.handle_key(KeyInput::Char(' '));
    assert_eq!(cmd, Some(Command::Playing));
    assert!(app.is_playing);
}

#[test]
fn loop_key_toggles_and_sends_matching_command() {
    let mut app = RApp::default();
    let cmd = app.handle_key(KeyInput::Char('l'));
    assert_eq!(cmd, Some(Command::Loop));
    assert!(app.looping);
    let cmd = app.handle_key(KeyInput::Char('l'));
    assert_eq!(cmd, Some(Command::NoLoop));
    assert!(!app.looping);
}

#[test]
fn repeat_key_toggles_and_sends_matching_command() {
    let mut app = RApp::default();
    let cmd = app.handle_key(KeyInput::Char('r'));
    assert_eq!(cmd, Some(Command::RepeatSong));
    assert!(app.song_repeat);
    let cmd = app.handle_key(KeyInput::Char('r'));
    assert_eq!(cmd, Some(Command::NoRepeat));
    assert!(!app.song_repeat);
}

#[test]
fn arrow_keys_map_to_transport_and_volume() {
    let mut app = RApp::default();
    assert_eq!(app.handle_key(KeyInput::Left), Some(Command::Back));
    assert_eq!(app.handle_key(KeyInput::Right), Some(Command::Skip));
    assert_eq!(app.handle_key(KeyInput::Up), Some(Command::VolumeUp));
    assert_eq!(app.handle_key(KeyInput::Down), Some(Command::VolumeDown));
    assert!(!app.exit);
}

#[test]
fn unhandled_keys_do_nothing() {
    let mut app = RApp::default();
    assert_eq!(app.handle_key(KeyInput::Char('x')), None);
    assert_eq!(app.handle_key(KeyInput::Other), None);
    assert!(!app.exit && !app.looping && !app.song_repeat && !app.is_playing);
}

#[test]
fn labels_follow_the_flags() {
    let mut app = RApp::default();
    assert_eq!(app.loop_mode_label(), "OFF");
    assert_eq!(app.play_state_label(), "Paused");
    app.looping = true;
    assert_eq!(app.loop_mode_label(), "LIB");
    app.song_repeat = true;
    assert_eq!(app.loop_mode_label(), "SONG");
    app.is_playing = true;
    assert_eq!(app.play_state_label(), "Playing");
}

#[test]
fn set_now_playing_copies_the_track() {
    let mut app = RApp::default();
    let s = song("The Artist", "The Song", "/music/x.mp3");
    app.set_now_playing(&s);
    assert_eq!(app.current_playing.name, "The Song");
    assert_eq!(app.current_playing.artist, "The Artist");
    assert_eq!(app.current_playing.location, "/music/x.mp3");
}

#[test]
fn exit_method_sets_only_the_exit_flag() {
    let mut app = RApp::default();
    app.is_playing = true;
    app.exit();
    assert!(app.exit);
    assert!(app.is_playing);
}

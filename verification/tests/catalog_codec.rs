use music_player::codec::from_json;
use music_player::codec::load_or_new;
use music_player::codec::to_json;
use music_player::library::Library;
use music_player::library::Song;
use music_player::text::download_filename;

fn song(artist: &str, name: &str, location: &str) -> Song {
    Song { artist: artist.to_string(), name: name.to_string(), location: location.to_string() }
}

fn same_song(a: &Song, b: &Song) -> bool {
    a.artist == b.artist && a.name == b.name && a.location == b.location
}

#[test]
fn new_library_is_empty() {
    let l = Library::new();
    assert_eq!(l.songs.len(), 0);
}

#[test]
fn add_appends_at_the_end() {
    let mut l = Library::new();
    l.add(song("a", "one", "/1"));
    l.add(song("b", "two", "/2"));
    assert_eq!(l.songs.len(), 2);
    assert_eq!(l.songs[0].name, "one");
    assert_eq!(l.songs[1].name, "two");
}

#[test]
fn delete_missing_name_reports_not_found_and_keeps_catalog() {
    let mut l = Library::new();
    l.add(song("a", "one", "/1"));
    l.add(song("b", "two", "/2"));
    let before: Vec<Song> = l.songs.clone();
    let found = l.delete_by_name(&"three".to_string());
    assert!(!found);
    assert_eq!(l.songs.len(), before.len());
    for (x, y) in l.songs.iter().zip(before.iter()) {
        assert!(same_song(x, y));
    }
}

#[test]
fn delete_removes_only_the_first_match() {
    let mut l = Library::new();
    l.add(song("a", "dup", "/1"));
    l.add(song("b", "other", "/2"));
    l.add(song("c", "dup", "/3"));
    let found = l.delete_by_name(&"dup".to_string());
    assert!(found);
    assert_eq!(l.songs.len(), 2);
    assert_eq!(l.songs[0].name, "other");
    assert_eq!(l.songs[1].name, "dup");
    assert_eq!(l.songs[1].artist, "c");
}

#[test]
fn rename_changes_only_the_display_name() {
    let mut l = Library::new();
    l.add(song("a", "old", "/1"));
    let found = l.rename_by_name(&"old".to_string(), &"new".to_string());
    assert!(found);
    assert_eq!(l.songs[0].name, "new");
    assert_eq!(l.songs[0].artist, "a");
    assert_eq!(l.songs[0].location, "/1");
}

#[test]
fn rename_missing_name_reports_not_found() {
    let mut l = Library::new();
    l.add(song("a", "one", "/1"));
    let found = l.rename_by_name(&"two".to_string(), &"three".to_string());
    assert!(!found);
    assert_eq!(l.songs[0].name, "one");
}

#[test]
fn listing_sorts_by_artist() {
    let mut l = Library::new();
    l.add(song("zz", "late", "/1"));
    l.add(song("aa", "early", "/2"));
    l.add(song("mm", "middle", "/3"));
    let sorted = l.sorted_by_artist();
    assert_eq!(sorted.len(), 3);
    assert_eq!(sorted[0].artist, "aa");
    assert_eq!(sorted[1].artist, "mm");
    assert_eq!(sorted[2].artist, "zz");
}

#[test]
fn sorting_keeps_every_song() {
    let mut l = Library::new();
    l.add(song("b", "two", "/2"));
    l.add(song("a", "one", "/1"));
    l.add(song("a", "also one", "/3"));
    let sorted = l.sorted_by_artist();
    let mut names: Vec<String> = sorted.iter().map(|s| s.name.clone()).collect();
    names.sort();
    assert_eq!(names, vec!["also one", "one", "two"]);
}

#[test]
fn to_json_writes_the_exact_document() {
    let mut l = Library::new();
    l.add(song("A", "N", "L"));
    let text = to_json(&l);
    assert_eq!(text, "{\"songs\":[{\"artist\":\"A\",\"location\":\"L\",\"name\":\"N\"}]}");
}

#[test]
fn to_json_escapes_quotes_and_backslashes() {
    let mut l = Library::new();
    l.add(song("a\"b", "n\\m", "loc"));
    let text = to_json(&l);
    assert_eq!(
        text,
        "{\"songs\":[{\"artist\":\"a\\\"b\",\"location\":\"loc\",\"name\":\"n\\\\m\"}]}"
    );
}

#[test]
fn empty_library_round_trips() {
    let l = Library::new();
    let text = to_json(&l);
    assert_eq!(text, "{\"songs\":[]}");
    let back = from_json(&text).expect("the written document must read back");
    assert_eq!(back.songs.len(), 0);
}

#[test]
fn catalog_round_trips_field_for_field() {
    let mut l = Library::new();
    l.add(song("Artist \"One\"", "Name\\With\\Slashes", "/a/b c.mp3"));
    l.add(song("Ärtist", "ünïcode", "/tmp/ü.mp3"));
    l.add(song("", "", ""));
    let text = to_json(&l);
    let back = from_json(&text).expect("the written document must read back");
    assert_eq!(back.songs.len(), l.songs.len());
    for (x, y) in back.songs.iter().zip(l.songs.iter()) {
        assert!(same_song(x, y));
    }
}

#[test]
fn from_json_rejects_malformed_documents() {
    assert!(from_json("").is_none());
    assert!(from_json("{}").is_none());
    assert!(from_json("{\"songs\":}").is_none());
    assert!(from_json("{\"songs\":[").is_none());
    assert!(from_json("{\"songs\":[]").is_none());
    assert!(from_json("{\"songs\":[]}x").is_none());
    assert!(from_json("{\"songs\":[{\"artist\":\"a\"}]}").is_none());
    assert!(from_json("{\"songs\":[{\"artist\":\"a\",\"location\":\"l\",\"name\":\"n\"]}").is_none());
    assert!(from_json("{\"songs\":[{\"artist\":\"a\",\"location\":\"l\",\"name\":\"n\\x\"}]}").is_none());
}

#[test]
fn load_or_new_recovers_from_missing_or_corrupt_storage() {
    let l = load_or_new(None);
    assert_eq!(l.songs.len(), 0);
    let l = load_or_new(Some("not a catalog"));
    assert_eq!(l.songs.len(), 0);
    let l = load_or_new(Some("{\"songs\":[{\"artist\":\"a\",\"location\":\"l\",\"name\":\"n\"}]}"));
    assert_eq!(l.songs.len(), 1);
    assert_eq!(l.songs[0].name, "n");
}

#[test]
fn written_document_is_json_a_generic_reader_accepts() {
    let mut l = Library::new();
    l.add(song("A \"quoted\" artist", "name", "/p a t h"));
    let text = to_json(&l);
    let value: serde_json::Value = serde_json::from_str(&text).expect("must be valid JSON");
    let songs = value.get("songs").expect("songs field").as_array().expect("array");
    assert_eq!(songs.len(), 1);
    assert_eq!(songs[0].get("artist").unwrap().as_str().unwrap(), "A \"quoted\" artist");
    assert_eq!(songs[0].get("location").unwrap().as_str().unwrap(), "/p a t h");
    assert_eq!(songs[0].get("name").unwrap().as_str().unwrap(), "name");
}

#[test]
fn reads_what_a_generic_writer_emits_for_a_catalog() {
    let mut song_obj = serde_json::Map::new();
    song_obj.insert("artist".to_string(), serde_json::Value::String("The Band".to_string()));
    song_obj.insert("location".to_string(), serde_json::Value::String("/m/t.mp3".to_string()));
    song_obj.insert("name".to_string(), serde_json::Value::String("Tune".to_string()));
    let mut doc = serde_json::Map::new();
    doc.insert(
        "songs".to_string(),
        serde_json::Value::Array(vec![serde_json::Value::Object(song_obj)]),
    );
    let text = serde_json::to_string(&serde_json::Value::Object(doc)).expect("serializes");
    let l = from_json(&text).expect("the generic writer's compact form reads back");
    assert_eq!(l.songs.len(), 1);
    assert_eq!(l.songs[0].artist, "The Band");
    assert_eq!(l.songs[0].location, "/m/t.mp3");
    assert_eq!(l.songs[0].name, "Tune");
}

#[test]
fn download_filename_replaces_spaces_and_adds_extension() {
    assert_eq!(download_filename("My Fancy Song"), "My_Fancy_Song.mp3");
    assert_eq!(download_filename("plain"), "plain.mp3");
    assert_eq!(download_filename(""), ".mp3");
    assert_eq!(download_filename("  "), "__.mp3");
}

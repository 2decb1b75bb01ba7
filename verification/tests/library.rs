use music_library_cli::models::library::Library;
use music_library_cli::models::song::Song;
use music_library_cli::{add_scanned_files, list_lines, search_lines};

fn song(id: usize, title: &str, path: &str) -> Song {
    Song { id, title: title.to_string(), path: path.to_string() }
}

fn library(titles: &[&str]) -> Library {
    Library {
        songs: titles
            .iter()
            .enumerate()
            .map(|(i, t)| song(i + 1, t, &format!("/m/{t}.mp3")))
            .collect(),
    }
}

#[test]
fn navigation_wraps_around() {
    let lib = library(&["a", "b", "c"]);
    assert_eq!(lib.next_index(0), Some(1));
    assert_eq!(lib.next_index(2), Some(0));
    assert_eq!(lib.previous_index(0), Some(2));
    assert_eq!(lib.previous_index(2), Some(1));
    for i in 0..3 {
        assert_eq!(lib.previous_index(lib.next_index(i).unwrap()), Some(i));
        assert_eq!(lib.next_index(lib.previous_index(i).unwrap()), Some(i));
    }
    let empty = Library::default();
    assert!(empty.is_empty());
    assert_eq!(empty.next_index(0), None);
    assert_eq!(empty.previous_index(0), None);
}

#[test]
fn get_and_len() {
    let lib = library(&["a", "b"]);
    assert_eq!(lib.len(), 2);
    assert!(!lib.is_empty());
    assert_eq!(lib.get(1).unwrap().title, "b");
    assert!(lib.get(2).is_none());
}

#[test]
fn scanning_adds_new_music_files_in_order() {
    let mut lib = Library { songs: vec![song(7, "old", "/m/old.mp3")] };
    let files = vec![
        "/m/cover.jpg".to_string(),
        "/m/B side.FLAC".to_string(),
        "/m/old.mp3".to_string(),
        "/m/a.b.wav".to_string(),
    ];
    add_scanned_files(&mut lib, &files);
    let got: Vec<(usize, &str, &str)> =
        lib.songs.iter().map(|s| (s.id, s.title.as_str(), s.path.as_str())).collect();
    assert_eq!(
        got,
        vec![
            (7, "old", "/m/old.mp3"),
            (8, "B side", "/m/B side.FLAC"),
            (9, "a.b", "/m/a.b.wav"),
        ]
    );
    add_scanned_files(&mut lib, &files);
    assert_eq!(lib.songs.len(), 3);
}

#[test]
fn scanning_an_empty_library_numbers_from_one() {
    let mut lib = Library::default();
    add_scanned_files(&mut lib, &vec!["x.ogg".to_string(), ".opus".to_string()]);
    assert_eq!(lib.songs.len(), 1);
    assert_eq!(lib.songs[0].id, 1);
    assert_eq!(lib.songs[0].title, "x");
}

#[test]
fn listing_prints_a_table() {
    let lib = Library { songs: vec![song(1, "Hello", "/m/Hello.mp3")] };
    assert_eq!(
        list_lines(&lib),
        vec![
            format!("{:<6}  {:<36}  {}", "Index", "Title", "Path"),
            format!("{:<6}  {:<36}  {}", 1, "Hello", "/m/Hello.mp3"),
        ]
    );
    assert_eq!(
        list_lines(&Library::default()),
        vec!["Library is empty. Run `cargo run -- scan <folder>` first.".to_string()]
    );
}

#[test]
fn search_ignores_ascii_case_and_numbers_the_matches() {
    let lib = library(&["Blue Moon", "Red", "moonlight"]);
    let lines = search_lines(&lib, "MOON");
    assert_eq!(
        lines,
        vec![
            format!("{:<6}  {:<36}  {}", "Index", "Title", "Path"),
            format!("{:<6}  {:<36}  {}", 1, "Blue Moon", "/m/Blue Moon.mp3"),
            format!("{:<6}  {:<36}  {}", 2, "moonlight", "/m/moonlight.mp3"),
        ]
    );
    assert_eq!(search_lines(&lib, "Jazz"), vec!["No songs matched `jazz`.".to_string()]);
    assert_eq!(
        search_lines(&Library::default(), "x"),
        vec!["Library is empty. Run `cargo run -- scan <folder>` first.".to_string()]
    );
}

#[test]
fn scanning_compares_paths_as_paths() {
    let mut lib = Library { songs: vec![song(1, "x", "music/x.mp3")] };
    add_scanned_files(&mut lib, &vec!["music//x.mp3".to_string(), "music/./y.mp3".to_string()]);
    assert_eq!(lib.songs.len(), 2);
    assert_eq!(lib.songs[1].path, "music/./y.mp3");
    assert_eq!(lib.songs[1].id, 2);
}

#[test]
fn scanned_titles_are_file_stems() {
    for p in ["/m/a.b.mp3", "/m/.x.mp3.mp3", "/m/song.FLAC/", "/m/q.ogg/."] {
        let mut lib = Library::default();
        add_scanned_files(&mut lib, &vec![p.to_string()]);
        let stem = std::path::Path::new(p).file_stem().and_then(|s| s.to_str()).unwrap_or("Unknown");
        assert_eq!(lib.songs[0].title, stem, "{p:?}");
    }
}

#[test]
fn search_ignores_keyword_case_and_empty_keyword_lists_all() {
    let lib = library(&["Blue Moon", "Red"]);
    assert_eq!(search_lines(&lib, "moon"), search_lines(&lib, "MOON"));
    assert_eq!(search_lines(&lib, ""), list_lines(&lib));
}

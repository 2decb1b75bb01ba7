use std::path::Path;

use music_library_cli::paths::same_path_str;
use music_library_cli::{is_music_file, parse_args, CliCommand};

fn args(words: &[&str]) -> Vec<String> {
    words.iter().map(|w| w.to_string()).collect()
}

#[test]
fn parse_args_defaults_to_play_when_no_args() {
    assert_eq!(parse_args(vec![]).unwrap(), CliCommand::Play);
}

#[test]
fn detects_supported_music_extensions() {
    assert!(is_music_file("song.mp3"));
    assert!(is_music_file("song.FLAC"));
    assert!(!is_music_file("cover.png"));
}

#[test]
fn parse_args_reads_each_command() {
    assert_eq!(parse_args(args(&["list"])).unwrap(), CliCommand::List);
    assert_eq!(parse_args(args(&["play"])).unwrap(), CliCommand::Play);
    assert_eq!(
        parse_args(args(&["scan", "  ~/Music  "])).unwrap(),
        CliCommand::Scan { folder: "~/Music".to_string() }
    );
    assert_eq!(
        parse_args(args(&["search", "blue", "moon"])).unwrap(),
        CliCommand::Search { keyword: "blue moon".to_string() }
    );
    assert_eq!(
        parse_args(args(&["search", " x "])).unwrap(),
        CliCommand::Search { keyword: " x ".to_string() }
    );
}

#[test]
fn parse_args_rejects_bad_command_lines() {
    assert_eq!(
        parse_args(args(&["list", "x"])).unwrap_err(),
        "`list` does not accept extra arguments."
    );
    assert_eq!(
        parse_args(args(&["play", "x"])).unwrap_err(),
        "`play` does not accept extra arguments."
    );
    assert_eq!(parse_args(args(&["scan"])).unwrap_err(), "Usage: cargo run -- scan <folder>");
    assert_eq!(
        parse_args(args(&["scan", "a", "b"])).unwrap_err(),
        "Usage: cargo run -- scan <folder>"
    );
    assert_eq!(parse_args(args(&["scan", " \t\u{3000}"])).unwrap_err(), "folder cannot be empty.");
    assert_eq!(
        parse_args(args(&["search"])).unwrap_err(),
        "Usage: cargo run -- search <keyword>"
    );
    assert_eq!(parse_args(args(&["search", " ", ""])).unwrap_err(), "keyword cannot be empty.");
    assert_eq!(
        parse_args(args(&["dance"])).unwrap_err(),
        "Unknown command: dance. Available commands: play, list, scan, search"
    );
    assert_eq!(
        parse_args(args(&["List"])).unwrap_err(),
        "Unknown command: List. Available commands: play, list, scan, search"
    );
}

#[test]
fn music_files_are_judged_by_the_extension_of_the_file_name() {
    for ext in ["mp3", "flac", "wav", "ogg", "aac", "m4a", "wma", "opus", "OpUs", "Mp3"] {
        assert!(is_music_file(&format!("/music/track.{ext}")), "{ext}");
    }
    assert!(!is_music_file("/music/.mp3"));
    assert!(!is_music_file("/music/mp3"));
    assert!(is_music_file("/music.mp3/"));
    assert!(!is_music_file("/music.mp3/.."));
    assert!(is_music_file("/music/a.b.ogg/."));
    assert!(is_music_file("a.mp3//"));
    assert!(!is_music_file("song.mp3.bak"));
    assert!(!is_music_file(""));
    assert!(!is_music_file("/"));
    assert!(is_music_file("..mp3"));
}

#[test]
fn path_comparison_agrees_with_std() {
    let paths = [
        "", ".", "./", "/", "//", "a", "a/", "a//b", "a/b", "./a/b", "a/./b", "/a/b", "/./a/b",
        "a/b/.", "a/../b", "../a", ".a", "a/.b", ".//a", "/.", "./.", "a/b/", "music//x.mp3",
        "music/x.mp3",
    ];
    for a in paths {
        for b in paths {
            assert_eq!(same_path_str(a, b), Path::new(a) == Path::new(b), "{a:?} {b:?}");
        }
    }
}

#[test]
fn music_detection_agrees_with_std_paths() {
    let cases = [
        "a.mp3", "a.MP3", "/x/y/a.flac", "a.mp3/", "a.mp3/.", "a.mp3/..", ".mp3", "..mp3", "a.",
        "a..wav", "./b.ogg", "c.tar.opus", "d.m4a//", "e.wma/./", "f", "/", ".", "..", "",
        "g.aac.txt", "dir.mp3/h",
    ];
    for p in cases {
        let expected = Path::new(p)
            .extension()
            .and_then(|e| e.to_str())
            .map(|e| {
                matches!(
                    e.to_ascii_lowercase().as_str(),
                    "mp3" | "flac" | "wav" | "ogg" | "aac" | "m4a" | "wma" | "opus"
                )
            })
            .unwrap_or(false);
        assert_eq!(is_music_file(p), expected, "{p:?}");
    }
}

//! A music library and player: the command line, the library of songs, the
//! playback commands and events, the state that the terminal interface
//! shows, and how that state is drawn.
pub mod commands;
pub mod events;
pub mod handlers;
pub mod models;
pub mod paths;
pub mod playback;
pub mod player;
pub mod state;
pub mod text;
pub mod ui_terminal;

use vstd::prelude::*;

use crate::models::library::Library;
use crate::models::song::{Song, SongView};
use crate::paths::{
    extension_range, file_extension, file_name_range, file_stem, same_path, same_path_str, stem_end,
};
use crate::text::{
    ascii_lowercase, ascii_lowercase_chars, ascii_uppercase, lemma_lowercase_of_uppercase, chars_of, contains_chars, contains_seq, decimal,
    decimal_string, is_blank, join, join_from, pad_right, push_padded_right, same_text, string_of,
    string_of_all, trim, trim_str,
};

verus! {

/// The file in which the library is stored.
pub const MUSIC_FILE_PATH: &'static str = "library.json";

/// A command of the command line.
#[derive(Debug, Clone, PartialEq, Eq)]
pub enum CliCommand {
    Scan { folder: String },
    List,
    Search { keyword: String },
    Play,
}

/// A command of the command line as plain values.
pub enum CliCommandView {
    Scan { folder: Seq<char> },
    List,
    Search { keyword: Seq<char> },
    Play,
}

impl View for CliCommand {
    type V = CliCommandView;

    open spec fn view(&self) -> CliCommandView {
        match self {
            CliCommand::Scan { folder } => CliCommandView::Scan { folder: folder@ },
            CliCommand::List => CliCommandView::List,
            CliCommand::Search { keyword } => CliCommandView::Search { keyword: keyword@ },
            CliCommand::Play => CliCommandView::Play,
        }
    }
}

/// The outcome of parsing, as plain values.
pub open spec fn parse_outcome(r: Result<CliCommand, String>) -> Result<CliCommandView, Seq<char>> {
    match r {
        Ok(c) => Ok(c@),
        Err(e) => Err(e@),
    }
}

/// What the command line `args` (without the program's name) asks for.
/// No argument at all means `play`.
pub open spec fn parsed_args(args: Seq<Seq<char>>) -> Result<CliCommandView, Seq<char>> {
    if args.len() == 0 {
        Ok(CliCommandView::Play)
    } else if args[0] == "list"@ {
        if args.len() != 1 {
            Err("`list` does not accept extra arguments."@)
        } else {
            Ok(CliCommandView::List)
        }
    } else if args[0] == "scan"@ {
        if args.len() != 2 {
            Err("Usage: cargo run -- scan <folder>"@)
        } else if trim(args[1]).len() == 0 {
            Err("folder cannot be empty."@)
        } else {
            Ok(CliCommandView::Scan { folder: trim(args[1]) })
        }
    } else if args[0] == "search"@ {
        if args.len() < 2 {
            Err("Usage: cargo run -- search <keyword>"@)
        } else if trim(join(args.skip(1), " "@)).len() == 0 {
            Err("keyword cannot be empty."@)
        } else {
            Ok(CliCommandView::Search { keyword: join(args.skip(1), " "@) })
        }
    } else if args[0] == "play"@ {
        if args.len() != 1 {
            Err("`play` does not accept extra arguments."@)
        } else {
            Ok(CliCommandView::Play)
        }
    } else {
        Err("Unknown command: "@ + args[0] + ". Available commands: play, list, scan, search"@)
    }
}

/// Parses the command line (without the program's name).
pub fn parse_args(args: Vec<String>) -> (r: Result<CliCommand, String>)
    ensures
        parse_outcome(r) == parsed_args(args.deep_view()),
{
    let ghost a = args.deep_view();
    if args.len() == 0 {
        return Ok(CliCommand::Play);
    }
    assert(a[0] == args@[0]@);
    let cmd = args[0].as_str();
    if same_text(cmd, "list") {
        if args.len() != 1 {
            return Err(String::from_str("`list` does not accept extra arguments."));
        }
        Ok(CliCommand::List)
    } else if same_text(cmd, "scan") {
        if args.len() != 2 {
            return Err(String::from_str("Usage: cargo run -- scan <folder>"));
        }
        assert(a[1] == args@[1]@);
        let folder = trim_str(args[1].as_str());
        if folder.as_str().unicode_len() == 0 {
            return Err(String::from_str("folder cannot be empty."));
        }
        Ok(CliCommand::Scan { folder })
    } else if same_text(cmd, "search") {
        if args.len() < 2 {
            return Err(String::from_str("Usage: cargo run -- search <keyword>"));
        }
        let keyword = join_from(&args, 1, " ");
        if is_blank(keyword.as_str()) {
            return Err(String::from_str("keyword cannot be empty."));
        }
        Ok(CliCommand::Search { keyword })
    } else if same_text(cmd, "play") {
        if args.len() != 1 {
            return Err(String::from_str("`play` does not accept extra arguments."));
        }
        Ok(CliCommand::Play)
    } else {
        let msg = String::from_str("Unknown command: ").concat(cmd).concat(
            ". Available commands: play, list, scan, search",
        );
        Err(msg)
    }
}

/// Whether an extension names a music format, in any letter case.
pub open spec fn music_extension(ext: Seq<char>) -> bool {
    let e = ascii_lowercase(ext);
    ||| e == "mp3"@
    ||| e == "flac"@
    ||| e == "wav"@
    ||| e == "ogg"@
    ||| e == "aac"@
    ||| e == "m4a"@
    ||| e == "wma"@
    ||| e == "opus"@
}

/// Whether the path names a music file: its file name has an extension of a
/// music format.
pub open spec fn is_music_path(path: Seq<char>) -> bool {
    match file_extension(path) {
        Some(ext) => music_extension(ext),
        None => false,
    }
}

/// Whether the characters `v` spell `lit`.
fn spells(v: &Vec<char>, lit: &str) -> (r: bool)
    ensures
        r == (v@ == lit@),
{
    let s = string_of_all(v);
    same_text(s.as_str(), lit)
}

/// Whether the path names a music file, judged by its extension alone.
pub fn is_music_file(path: &str) -> (r: bool)
    ensures
        r == is_music_path(path@),
{
    let v = chars_of(path);
    let (a, b) = match file_name_range(&v) {
        Some(range) => range,
        None => {
            return false;
        },
    };
    let e = match extension_range(&v, a, b) {
        Some(e) => e,
        None => {
            return false;
        },
    };
    let mut ext: Vec<char> = Vec::new();
    let mut i: usize = e;
    while i < b
        invariant
            e <= i <= b <= v@.len(),
            ext@ == v@.subrange(e as int, i as int),
        decreases b - i,
    {
        ext.push(v[i]);
        i += 1;
    }
    let low = ascii_lowercase_chars(&ext);
    spells(&low, "mp3") || spells(&low, "flac") || spells(&low, "wav") || spells(&low, "ogg")
        || spells(&low, "aac") || spells(&low, "m4a") || spells(&low, "wma") || spells(
        &low,
        "opus",
    )
}

/// The title given to a scanned file: its file stem, or `Unknown` when the
/// path has no file name.
pub open spec fn song_title(path: Seq<char>) -> Seq<char> {
    match file_stem(path) {
        Some(stem) => stem,
        None => "Unknown"@,
    }
}

/// Whether one of the songs has the path `path`, paths being compared as
/// paths (`same_path`), not as strings.
pub open spec fn has_path(songs: Seq<SongView>, path: Seq<char>) -> bool {
    exists|i: int| 0 <= i < songs.len() && same_path(songs[i].path, path)
}

/// The largest identifier among the songs, or 0 when there is none.
pub open spec fn max_id(songs: Seq<SongView>) -> nat
    decreases songs.len(),
{
    if songs.len() == 0 {
        0
    } else {
        let m = max_id(songs.drop_last());
        if songs.last().id > m {
            songs.last().id
        } else {
            m
        }
    }
}

/// Whether a scan that meets `file` when the library holds `songs` adds it.
pub open spec fn scan_adds(songs: Seq<SongView>, file: Seq<char>) -> bool {
    is_music_path(file) && !has_path(songs, file)
}

/// The songs after a scan has met `files`, in order, starting from `songs`
/// and numbering new songs from `next_id`: each music file whose path is not
/// in the library yet is appended with the next identifier.
pub open spec fn scanned(songs: Seq<SongView>, files: Seq<Seq<char>>, next_id: nat) -> Seq<SongView>
    decreases files.len(),
{
    if files.len() == 0 {
        songs
    } else if scan_adds(songs, files[0]) {
        scanned(
            songs.push(SongView { id: next_id, title: song_title(files[0]), path: files[0] }),
            files.drop_first(),
            next_id + 1,
        )
    } else {
        scanned(songs, files.drop_first(), next_id)
    }
}

/// The number of songs that such a scan appends.
pub open spec fn scan_count(songs: Seq<SongView>, files: Seq<Seq<char>>, next_id: nat) -> nat
    decreases files.len(),
{
    if files.len() == 0 {
        0
    } else if scan_adds(songs, files[0]) {
        1 + scan_count(
            songs.push(SongView { id: next_id, title: song_title(files[0]), path: files[0] }),
            files.drop_first(),
            next_id + 1,
        )
    } else {
        scan_count(songs, files.drop_first(), next_id)
    }
}

/// The largest identifier in the library.
fn largest_id(library: &Library) -> (m: usize)
    ensures
        m == max_id(library@),
{
    let mut m: usize = 0;
    let mut i: usize = 0;
    while i < library.songs.len()
        invariant
            i <= library@.len(),
            m == max_id(library@.subrange(0, i as int)),
        decreases library@.len() - i,
    {
        assert(library@.subrange(0, i + 1).drop_last() =~= library@.subrange(0, i as int));
        if library.songs[i].id > m {
            m = library.songs[i].id;
        }
        i += 1;
    }
    assert(library@.subrange(0, library@.len() as int) =~= library@);
    m
}

/// Whether a song of the library has the path `path`.
fn library_has_path(library: &Library, path: &str) -> (r: bool)
    ensures
        r == has_path(library@, path@),
{
    let mut i: usize = 0;
    while i < library.songs.len()
        invariant
            i <= library@.len(),
            forall|k: int| 0 <= k < i ==> !same_path(library@[k].path, path@),
        decreases library@.len() - i,
    {
        if same_path_str(library.songs[i].path.as_str(), path) {
            assert(same_path(library@[i as int].path, path@));
            return true;
        }
        i += 1;
    }
    false
}

/// The title of the file at `path`: its stem, or `Unknown`.
fn title_of(path: &str) -> (r: String)
    ensures
        r@ == song_title(path@),
{
    let v = chars_of(path);
    match file_name_range(&v) {
        Some((a, b)) => {
            let e = stem_end(&v, a, b);
            string_of(&v, a, e)
        },
        None => String::from_str("Unknown"),
    }
}

/// Adds to the library the music files among `files` (the regular files
/// that a folder holds, in the order in which its listing gave them) whose
/// paths it does not hold yet, numbering them after the largest identifier
/// in use.
pub fn add_scanned_files(library: &mut Library, files: &Vec<String>)
    requires
        max_id(old(library)@) + 1 + scan_count(
            old(library)@,
            files.deep_view(),
            max_id(old(library)@) + 1,
        ) <= usize::MAX,
    ensures
        final(library)@ == scanned(old(library)@, files.deep_view(), max_id(old(library)@) + 1),
{
    let ghost start = library@;
    let ghost all = files.deep_view();
    let ghost first_id: nat = max_id(start) + 1;
    let mut next_id: usize = largest_id(library) + 1;
    let mut i: usize = 0;
    assert(all.skip(0) =~= all);
    while i < files.len()
        invariant
            all == files.deep_view(),
            i <= all.len(),
            scanned(library@, all.skip(i as int), next_id as nat) == scanned(start, all, first_id),
            next_id + scan_count(library@, all.skip(i as int), next_id as nat) == first_id
                + scan_count(start, all, first_id),
            first_id + scan_count(start, all, first_id) <= usize::MAX,
        decreases all.len() - i,
    {
        let ghost rest = all.skip(i as int);
        assert(rest.drop_first() =~= all.skip(i + 1));
        assert(rest[0] == files@[i as int]@);
        let path = files[i].as_str();
        if is_music_file(path) && !library_has_path(library, path) {
            let title = title_of(path);
            let song = Song { id: next_id, title, path: String::from_str(path) };
            let ghost before = library@;
            library.songs.push(song);
            assert(library@ =~= before.push(song@));
            next_id = next_id + 1;
        }
        i += 1;
    }
    assert(all.skip(all.len() as int) =~= Seq::<Seq<char>>::empty());
}

/// Whether no two of the songs share a path.
pub open spec fn paths_unique(songs: Seq<SongView>) -> bool {
    forall|i: int, j: int| 0 <= i < j < songs.len() ==> !same_path(songs[i].path, songs[j].path)
}

/// What a scan keeps and what it adds: the songs that were there stay, in
/// their places; each new song is a music file whose path was not in the
/// library, titled by its stem, with identifiers that count up from
/// `next_id`; after the scan every music file that was met is in the
/// library; and a library without two songs of one path keeps that property.
pub proof fn lemma_scan_shape(songs: Seq<SongView>, files: Seq<Seq<char>>, next_id: nat)
    ensures
        scanned(songs, files, next_id).len() == songs.len() + scan_count(songs, files, next_id),
        forall|k: int| 0 <= k < songs.len() ==> #[trigger] scanned(songs, files, next_id)[k] == songs[k],
        forall|k: int|
            songs.len() <= k < scanned(songs, files, next_id).len() ==> {
                let song = #[trigger] scanned(songs, files, next_id)[k];
                &&& song.id == next_id + (k - songs.len())
                &&& is_music_path(song.path)
                &&& song.title == song_title(song.path)
                &&& !has_path(songs, song.path)
            },
        forall|j: int|
            0 <= j < files.len() && is_music_path(#[trigger] files[j]) ==> has_path(
                scanned(songs, files, next_id),
                files[j],
            ),
        paths_unique(songs) ==> paths_unique(scanned(songs, files, next_id)),
    decreases files.len(),
{
    if files.len() > 0 {
        let f = files[0];
        let rest = files.drop_first();
        let adds = scan_adds(songs, f);
        let next = if adds {
            songs.push(SongView { id: next_id, title: song_title(f), path: f })
        } else {
            songs
        };
        let next_id2: nat = if adds { next_id + 1 } else { next_id };
        lemma_scan_shape(next, rest, next_id2);
        let r = scanned(songs, files, next_id);
        assert(r == scanned(next, rest, next_id2));
        assert forall|p: Seq<char>| has_path(songs, p) implies has_path(next, p) by {
            let i = choose|i: int| 0 <= i < songs.len() && same_path(songs[i].path, p);
            assert(next[i] == songs[i]);
        }
        assert forall|k: int| 0 <= k < songs.len() implies #[trigger] r[k] == songs[k] by {
            assert(r[k] == next[k]);
        }
        assert forall|k: int| songs.len() <= k < r.len() implies {
            let song = #[trigger] r[k];
            &&& song.id == next_id + (k - songs.len())
            &&& is_music_path(song.path)
            &&& song.title == song_title(song.path)
            &&& !has_path(songs, song.path)
        } by {
            if adds && k == songs.len() {
                assert(r[k] == next[k]);
            } else {
                assert(!has_path(next, r[k].path));
            }
        }
        assert forall|j: int| 0 <= j < files.len() && is_music_path(#[trigger] files[j]) implies has_path(
            r,
            files[j],
        ) by {
            if j == 0 {
                if adds {
                    assert(r[songs.len() as int] == next[songs.len() as int]);
                    assert(r[songs.len() as int].path == f);
                    assert(same_path(r[songs.len() as int].path, f));
                } else {
                    assert(has_path(next, f));
                    let i = choose|i: int| 0 <= i < next.len() && same_path(next[i].path, f);
                    assert(r[i] == next[i]);
                }
            } else {
                assert(rest[j - 1] == files[j]);
            }
        }
        if paths_unique(songs) {
            assert(paths_unique(next)) by {
                if adds {
                    assert forall|i: int, j: int| 0 <= i < j < next.len() implies !same_path(
                        next[i].path,
                        next[j].path,
                    ) by {
                        if j == songs.len() {
                            assert(next[i] == songs[i]);
                        }
                    }
                }
            }
        }
    }
}

/// Scanning leaves a library alone when every music file that it meets is
/// already there.
pub proof fn lemma_scan_of_known_files(songs: Seq<SongView>, files: Seq<Seq<char>>, next_id: nat)
    requires
        forall|j: int| 0 <= j < files.len() && is_music_path(#[trigger] files[j]) ==> has_path(songs, files[j]),
    ensures
        scanned(songs, files, next_id) == songs,
        scan_count(songs, files, next_id) == 0,
    decreases files.len(),
{
    if files.len() > 0 {
        let rest = files.drop_first();
        assert forall|j: int| 0 <= j < rest.len() && is_music_path(#[trigger] rest[j]) implies has_path(
            songs,
            rest[j],
        ) by {
            assert(rest[j] == files[j + 1]);
        }
        lemma_scan_of_known_files(songs, rest, next_id);
    }
}

/// Scanning the same files a second time adds nothing: the library stays as
/// the first scan left it, whatever identifier the second scan would start
/// from.
pub proof fn lemma_rescan_adds_nothing(
    songs: Seq<SongView>,
    files: Seq<Seq<char>>,
    next_id: nat,
    later_id: nat,
)
    ensures
        scanned(scanned(songs, files, next_id), files, later_id) == scanned(songs, files, next_id),
        scan_count(scanned(songs, files, next_id), files, later_id) == 0,
{
    lemma_scan_shape(songs, files, next_id);
    lemma_scan_of_known_files(scanned(songs, files, next_id), files, later_id);
}

/// The notice printed for an empty library.
pub open spec fn empty_library_notice() -> Seq<char> {
    "Library is empty. Run `cargo run -- scan <folder>` first."@
}

/// The heading line of a song table.
pub open spec fn table_header() -> Seq<char> {
    pad_right("Index"@, 6) + "  "@ + pad_right("Title"@, 36) + "  "@ + "Path"@
}

/// The line of a song table for the song numbered `number` (counted from 1).
pub open spec fn table_row(number: nat, song: SongView) -> Seq<char> {
    pad_right(decimal(number), 6) + "  "@ + pad_right(song.title, 36) + "  "@ + song.path
}

/// A song table: the heading, then one numbered line per song, in order.
pub open spec fn table_lines(songs: Seq<SongView>) -> Seq<Seq<char>> {
    seq![table_header()] + Seq::new(songs.len(), |i: int| table_row((i + 1) as nat, songs[i]))
}

/// What `list` prints: the notice for an empty library, else the table of all
/// songs.
pub open spec fn listing(songs: Seq<SongView>) -> Seq<Seq<char>> {
    if songs.len() == 0 {
        seq![empty_library_notice()]
    } else {
        table_lines(songs)
    }
}

/// Whether the song's title contains the keyword, ignoring ASCII letter case.
pub open spec fn title_matches(song: SongView, keyword: Seq<char>) -> bool {
    contains_seq(ascii_lowercase(song.title), ascii_lowercase(keyword))
}

/// The songs whose titles contain the keyword, ignoring ASCII letter case,
/// in library order.
pub open spec fn matching_songs(songs: Seq<SongView>, keyword: Seq<char>) -> Seq<SongView>
    decreases songs.len(),
{
    if songs.len() == 0 {
        Seq::empty()
    } else if title_matches(songs.last(), keyword) {
        matching_songs(songs.drop_last(), keyword).push(songs.last())
    } else {
        matching_songs(songs.drop_last(), keyword)
    }
}

/// What `search` prints: the notice for an empty library, a line saying
/// that nothing matched (with the lower-cased keyword), or the table of the
/// matching songs, numbered from 1.
pub open spec fn search_listing(songs: Seq<SongView>, keyword: Seq<char>) -> Seq<Seq<char>> {
    if songs.len() == 0 {
        seq![empty_library_notice()]
    } else if matching_songs(songs, keyword).len() == 0 {
        seq!["No songs matched `"@ + ascii_lowercase(keyword) + "`."@]
    } else {
        table_lines(matching_songs(songs, keyword))
    }
}

/// The songs at the positions `picked`.
pub open spec fn picked_songs(songs: Seq<SongView>, picked: Seq<usize>) -> Seq<SongView> {
    picked.map_values(|i: usize| songs[i as int])
}

fn table_row_string(number: usize, song: &Song) -> (r: String)
    ensures
        r@ == table_row(number as nat, song@),
{
    let mut out = String::new();
    let n = decimal_string(number);
    push_padded_right(&mut out, n.as_str(), 6);
    out.append("  ");
    push_padded_right(&mut out, song.title.as_str(), 36);
    out.append("  ");
    out.append(song.path.as_str());
    out
}

/// The table of the songs at the positions `picked`.
fn table_of(library: &Library, picked: &Vec<usize>) -> (r: Vec<String>)
    requires
        forall|k: int| 0 <= k < picked@.len() ==> picked@[k] < library@.len(),
    ensures
        r.deep_view() == table_lines(picked_songs(library@, picked@)),
{
    let ghost chosen = picked_songs(library@, picked@);
    let mut lines: Vec<String> = Vec::new();
    let mut head = String::new();
    push_padded_right(&mut head, "Index", 6);
    head.append("  ");
    push_padded_right(&mut head, "Title", 36);
    head.append("  ");
    head.append("Path");
    lines.push(head);
    let mut k: usize = 0;
    while k < picked.len()
        invariant
            chosen == picked_songs(library@, picked@),
            k <= picked@.len(),
            forall|m: int| 0 <= m < picked@.len() ==> picked@[m] < library@.len(),
            lines.deep_view() =~= seq![table_header()] + Seq::new(
                k as nat,
                |i: int| table_row((i + 1) as nat, chosen[i]),
            ),
        decreases picked@.len() - k,
    {
        let row = table_row_string(k + 1, &library.songs[picked[k]]);
        assert(chosen[k as int] == library@[picked@[k as int] as int]);
        let ghost before = lines.deep_view();
        lines.push(row);
        assert(lines.deep_view() =~= before.push(row@));
        k += 1;
    }
    lines
}

/// The positions `0..len`.
fn all_positions(len: usize) -> (r: Vec<usize>)
    ensures
        r@.len() == len,
        forall|k: int| 0 <= k < len ==> r@[k] == k,
{
    let mut r: Vec<usize> = Vec::new();
    let mut k: usize = 0;
    while k < len
        invariant
            k <= len,
            r@.len() == k,
            forall|m: int| 0 <= m < k ==> r@[m] == m,
        decreases len - k,
    {
        r.push(k);
        k += 1;
    }
    r
}

/// The lines that `list` prints.
pub fn list_lines(library: &Library) -> (r: Vec<String>)
    ensures
        r.deep_view() == listing(library@),
{
    if library.is_empty() {
        let mut lines: Vec<String> = Vec::new();
        lines.push(String::from_str("Library is empty. Run `cargo run -- scan <folder>` first."));
        assert(lines.deep_view() =~= seq![empty_library_notice()]);
        return lines;
    }
    let picked = all_positions(library.len());
    let r = table_of(library, &picked);
    assert(picked_songs(library@, picked@) =~= library@);
    r
}

/// The lines that `search` prints for `keyword`.
pub fn search_lines(library: &Library, keyword: &str) -> (r: Vec<String>)
    ensures
        r.deep_view() == search_listing(library@, keyword@),
{
    if library.is_empty() {
        let mut lines: Vec<String> = Vec::new();
        lines.push(String::from_str("Library is empty. Run `cargo run -- scan <folder>` first."));
        assert(lines.deep_view() =~= seq![empty_library_notice()]);
        return lines;
    }
    let kw = ascii_lowercase_chars(&chars_of(keyword));
    let mut picked: Vec<usize> = Vec::new();
    let mut i: usize = 0;
    while i < library.songs.len()
        invariant
            i <= library@.len(),
            kw@ == ascii_lowercase(keyword@),
            forall|m: int| 0 <= m < picked@.len() ==> picked@[m] < i,
            picked_songs(library@, picked@) =~= matching_songs(
                library@.subrange(0, i as int),
                keyword@,
            ),
        decreases library@.len() - i,
    {
        let ghost prefix = library@.subrange(0, i + 1);
        assert(prefix.drop_last() =~= library@.subrange(0, i as int));
        assert(prefix.last() == library@[i as int]);
        let title = ascii_lowercase_chars(&chars_of(library.songs[i].title.as_str()));
        if contains_chars(&title, &kw) {
            picked.push(i);
        }
        i += 1;
    }
    assert(library@.subrange(0, library@.len() as int) =~= library@);
    if picked.len() == 0 {
        let msg = String::from_str("No songs matched `").concat(string_of_all(&kw).as_str()).concat(
            "`.",
        );
        let mut lines: Vec<String> = Vec::new();
        lines.push(msg);
        assert(lines.deep_view() =~= seq!["No songs matched `"@ + ascii_lowercase(keyword@) + "`."@]);
        return lines;
    }
    table_of(library, &picked)
}

/// A search lists only songs of the library whose titles contain the
/// keyword (ignoring ASCII letter case; the path plays no part), lists every
/// such song of the library, and lists no more songs than the library holds.
pub proof fn lemma_search_finds_exactly_the_matches(songs: Seq<SongView>, keyword: Seq<char>)
    ensures
        matching_songs(songs, keyword).len() <= songs.len(),
        forall|k: int|
            0 <= k < matching_songs(songs, keyword).len() ==> contains_seq(
                ascii_lowercase((#[trigger] matching_songs(songs, keyword)[k]).title),
                ascii_lowercase(keyword),
            ),
        forall|k: int|
            0 <= k < matching_songs(songs, keyword).len() ==> songs.contains(
                #[trigger] matching_songs(songs, keyword)[k],
            ),
        forall|i: int|
            0 <= i < songs.len() && contains_seq(
                ascii_lowercase((#[trigger] songs[i]).title),
                ascii_lowercase(keyword),
            ) ==> matching_songs(songs, keyword).contains(songs[i]),
    decreases songs.len(),
{
    if songs.len() > 0 {
        let init = songs.drop_last();
        lemma_search_finds_exactly_the_matches(init, keyword);
        let m = matching_songs(songs, keyword);
        let m0 = matching_songs(init, keyword);
        assert forall|i: int| 0 <= i < songs.len() && title_matches(#[trigger] songs[i], keyword) implies m.contains(
            songs[i],
        ) by {
            if i < songs.len() - 1 {
                assert(init[i] == songs[i]);
                assert(m0.contains(songs[i]));
                let j = choose|j: int| 0 <= j < m0.len() && m0[j] == songs[i];
                assert(m[j] == m0[j]);
            } else {
                assert(m[m.len() - 1] == songs.last());
            }
        }
        assert forall|k: int| 0 <= k < m.len() implies title_matches(#[trigger] m[k], keyword) && songs.contains(m[k]) by {
            if k < m0.len() {
                assert(m[k] == m0[k]);
                assert(init.contains(m0[k]));
                let j = choose|j: int| 0 <= j < init.len() && init[j] == m0[k];
                assert(songs[j] == init[j]);
            } else {
                assert(songs[songs.len() - 1] == songs.last());
            }
        }
    }
}

/// Upper-casing letters of an extension does not change whether it names
/// a music format: lower-casing twice is lower-casing once.
pub proof fn lemma_music_extension_ignores_case(ext: Seq<char>)
    ensures
        ascii_lowercase(ascii_lowercase(ext)) == ascii_lowercase(ext),
        music_extension(ascii_lowercase(ext)) == music_extension(ext),
{
    assert(ascii_lowercase(ascii_lowercase(ext)) =~= ascii_lowercase(ext));
}

/// Which songs match depends on the keyword only through its ASCII
/// lower-case form.
pub proof fn lemma_matching_ignores_keyword_case(songs: Seq<SongView>, k1: Seq<char>, k2: Seq<char>)
    requires
        ascii_lowercase(k1) == ascii_lowercase(k2),
    ensures
        matching_songs(songs, k1) == matching_songs(songs, k2),
    decreases songs.len(),
{
    if songs.len() > 0 {
        lemma_matching_ignores_keyword_case(songs.drop_last(), k1, k2);
    }
}

/// A search ignores the letter case of its keyword: keywords that agree up
/// to ASCII case, such as a keyword and its upper-case form, print the same
/// lines.
pub proof fn lemma_search_ignores_keyword_case(songs: Seq<SongView>, k1: Seq<char>, k2: Seq<char>)
    requires
        ascii_lowercase(k1) == ascii_lowercase(k2),
    ensures
        search_listing(songs, k1) == search_listing(songs, k2),
        search_listing(songs, k1) == search_listing(songs, ascii_uppercase(k1)),
{
    lemma_matching_ignores_keyword_case(songs, k1, k2);
    lemma_lowercase_of_uppercase(k1);
    lemma_matching_ignores_keyword_case(songs, k1, ascii_uppercase(k1));
}

/// Every song matches the empty keyword.
proof fn lemma_empty_keyword_matches_all(songs: Seq<SongView>)
    ensures
        matching_songs(songs, Seq::empty()) == songs,
    decreases songs.len(),
{
    if songs.len() > 0 {
        lemma_empty_keyword_matches_all(songs.drop_last());
        let t = ascii_lowercase(songs.last().title);
        assert(ascii_lowercase(Seq::<char>::empty()) =~= Seq::<char>::empty());
        assert(t.subrange(0, 0) =~= Seq::<char>::empty());
        assert(crate::text::occurs_at(t, Seq::<char>::empty(), 0));
        assert(songs.drop_last().push(songs.last()) =~= songs);
    }
}

/// Searching for the empty keyword prints what listing prints.
pub proof fn lemma_empty_search_lists_everything(songs: Seq<SongView>)
    ensures
        search_listing(songs, Seq::empty()) == listing(songs),
{
    lemma_empty_keyword_matches_all(songs);
}

/// The largest identifier bounds every song's identifier and, in a
/// non-empty library, is the identifier of one of its songs.
pub proof fn lemma_max_id_is_the_largest(songs: Seq<SongView>)
    ensures
        forall|k: int| 0 <= k < songs.len() ==> (#[trigger] songs[k]).id <= max_id(songs),
        songs.len() > 0 ==> exists|k: int| 0 <= k < songs.len() && (#[trigger] songs[k]).id == max_id(
            songs,
        ),
        songs.len() == 0 ==> max_id(songs) == 0,
    decreases songs.len(),
{
    if songs.len() > 0 {
        let init = songs.drop_last();
        lemma_max_id_is_the_largest(init);
        assert forall|k: int| 0 <= k < songs.len() implies (#[trigger] songs[k]).id <= max_id(songs) by {
            if k < songs.len() - 1 {
                assert(init[k] == songs[k]);
            }
        }
        if songs.last().id >= max_id(init) {
            assert(songs[songs.len() - 1].id == max_id(songs));
        } else {
            let k = choose|k: int| 0 <= k < init.len() && (#[trigger] init[k]).id == max_id(init);
            assert(songs[k] == init[k]);
        }
    }
}

/// A scan numbers every song it adds above every identifier already in the
/// library, so the new identifiers never repeat an old one; and they count
/// up one by one from the largest old identifier.
pub proof fn lemma_scan_ids_are_fresh(songs: Seq<SongView>, files: Seq<Seq<char>>)
    ensures
        forall|k: int, j: int|
            0 <= k < songs.len() && songs.len() <= j < scanned(songs, files, max_id(songs) + 1).len()
                ==> (#[trigger] songs[k]).id < (#[trigger] scanned(
                songs,
                files,
                max_id(songs) + 1,
            )[j]).id,
        forall|j: int|
            songs.len() <= j < scanned(songs, files, max_id(songs) + 1).len() ==> (#[trigger] scanned(
                songs,
                files,
                max_id(songs) + 1,
            )[j]).id == max_id(songs) + 1 + (j - songs.len()),
{
    lemma_max_id_is_the_largest(songs);
    lemma_scan_shape(songs, files, max_id(songs) + 1);
}

/// A path names a music file exactly when its file name has an extension
/// whose ASCII lower-case form is one of the eight formats mp3, flac, wav,
/// ogg, aac, m4a, wma and opus; any other extension (a playlist, an image)
/// or no extension at all does not.
pub proof fn lemma_music_files_are_the_eight_formats(path: Seq<char>)
    ensures
        is_music_path(path) <==> (file_extension(path) matches Some(ext) && set![
            "mp3"@,
            "flac"@,
            "wav"@,
            "ogg"@,
            "aac"@,
            "m4a"@,
            "wma"@,
            "opus"@,
        ].contains(ascii_lowercase(ext))),
{
}

/// The command line is accepted only in its documented forms: `list` and
/// `play` alone (or nothing at all, which plays), `scan` with exactly one
/// folder that is not blank, which it trims, and `search` with keywords
/// that are not all blank, joined by single spaces; every other first word
/// is refused.
pub proof fn lemma_parse_accepts_only_documented_forms(args: Seq<Seq<char>>)
    ensures
        args.len() == 0 ==> parsed_args(args) == Ok::<CliCommandView, Seq<char>>(CliCommandView::Play),
        parsed_args(args) == Ok::<CliCommandView, Seq<char>>(CliCommandView::List) ==> args
            == seq!["list"@],
        parsed_args(args) == Ok::<CliCommandView, Seq<char>>(CliCommandView::Play) ==> (args.len()
            == 0 || args == seq!["play"@]),
        parsed_args(args) matches Ok(CliCommandView::Scan { folder }) ==> {
            &&& args.len() == 2
            &&& args[0] == "scan"@
            &&& folder == trim(args[1])
            &&& folder.len() > 0
        },
        parsed_args(args) matches Ok(CliCommandView::Search { keyword }) ==> {
            &&& args.len() >= 2
            &&& args[0] == "search"@
            &&& keyword == join(args.skip(1), " "@)
            &&& trim(keyword).len() > 0
        },
        args.len() > 0 && args[0] != "list"@ && args[0] != "scan"@ && args[0] != "search"@ && args[0]
            != "play"@ ==> parsed_args(args) is Err,
{
    if args.len() == 1 && args[0] == "list"@ {
        assert(args =~= seq!["list"@]);
    }
    if args.len() == 1 && args[0] == "play"@ {
        assert(args =~= seq!["play"@]);
    }
}

} // verus!

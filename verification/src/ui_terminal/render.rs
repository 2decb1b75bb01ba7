//! What the terminal screen shows: the lines of text, each with its style.
//! Putting them on the terminal is left to the program around the library.
use vstd::prelude::*;

use crate::models::song::{Song, SongView};
use crate::state::app_state::{current_title, AppState};
use crate::state::playback_state::{state_label, PlaybackState};
use crate::text::{
    chars_of, decimal, decimal_string, pad_left, pad_right, push_padded_left, push_padded_right,
    string_of, string_of_all,
};

verus! {

/// How many songs the screen lists at once.
pub const MAX_VISIBLE_SONGS: usize = 18;

/// How a line is drawn.
#[derive(Debug, Clone, Copy, PartialEq, Eq, Structural)]
pub enum LineStyle {
    /// Bold cyan: the program's title.
    Heading,
    /// The terminal's default colours.
    Plain,
    /// Yellow: the notice of an empty library.
    Notice,
    /// Black on reversed colours: the song under the cursor.
    Selected,
    /// Green: the song being played, when it is not under the cursor.
    Current,
}

/// A line of the screen, without its line break.
#[derive(Debug)]
pub struct ScreenLine {
    pub text: String,
    pub style: LineStyle,
}

/// A line of the screen as plain values.
pub struct LineView {
    pub text: Seq<char>,
    pub style: LineStyle,
}

impl View for ScreenLine {
    type V = LineView;

    open spec fn view(&self) -> LineView {
        LineView { text: self.text@, style: self.style }
    }
}

/// The lines as plain values.
pub open spec fn lines_view(lines: Seq<ScreenLine>) -> Seq<LineView> {
    lines.map_values(|l: ScreenLine| l@)
}

/// The first listed position: the list scrolls so that the cursor sits about
/// in the middle of the window, without running past the end of the library.
pub open spec fn visible_from(selected: usize, total: usize) -> usize {
    if total <= MAX_VISIBLE_SONGS {
        0
    } else {
        let centred = if selected >= MAX_VISIBLE_SONGS / 2 {
            (selected - MAX_VISIBLE_SONGS / 2) as usize
        } else {
            0
        };
        let last_start = (total - MAX_VISIBLE_SONGS) as usize;
        if centred < last_start {
            centred
        } else {
            last_start
        }
    }
}

/// `text` cut to its first `max_chars` characters, with `...` appended when
/// anything was cut.
pub open spec fn truncated(text: Seq<char>, max_chars: nat) -> Seq<char> {
    if text.len() > max_chars {
        text.take(max_chars as int) + "..."@
    } else {
        text
    }
}

/// The first listed position for the cursor at `selected` among `total`
/// songs.
pub fn visible_start(selected: usize, total: usize) -> (r: usize)
    ensures
        r == visible_from(selected, total),
{
    if total <= MAX_VISIBLE_SONGS {
        return 0;
    }
    let half = MAX_VISIBLE_SONGS / 2;
    let centred = selected.saturating_sub(half);
    let last_start = total.saturating_sub(MAX_VISIBLE_SONGS);
    if centred < last_start {
        centred
    } else {
        last_start
    }
}

/// `text` cut to `max_chars` characters, marked with `...` when cut.
pub fn truncate(text: &str, max_chars: usize) -> (r: String)
    ensures
        r@ == truncated(text@, max_chars as nat),
{
    let v = chars_of(text);
    if v.len() > max_chars {
        let head = string_of(&v, 0, max_chars);
        assert(v@.subrange(0, max_chars as int) =~= v@.take(max_chars as int));
        head.concat("...")
    } else {
        string_of_all(&v)
    }
}

/// The window of listed songs always fits in the library and holds the
/// cursor: it starts at the top when the whole library fits, else it has
/// room for the full window, and a cursor on a song lies inside it.
pub proof fn lemma_visible_window(selected: usize, total: usize)
    ensures
        total <= MAX_VISIBLE_SONGS ==> visible_from(selected, total) == 0,
        total > MAX_VISIBLE_SONGS ==> visible_from(selected, total) + MAX_VISIBLE_SONGS <= total,
        selected < total ==> visible_from(selected, total) <= selected < visible_from(
            selected,
            total,
        ) + MAX_VISIBLE_SONGS,
{
}

/// A cut text is never longer than the limit plus the three dots, and a
/// text within the limit is left whole.
pub proof fn lemma_truncated_bounds(text: Seq<char>, max_chars: nat)
    ensures
        truncated(text, max_chars).len() <= max_chars + 3,
        text.len() <= max_chars ==> truncated(text, max_chars) == text,
        truncated(text, max_chars).take(
            if text.len() < max_chars { text.len() as int } else { max_chars as int },
        ) == text.take(if text.len() < max_chars { text.len() as int } else { max_chars as int }),
{
    reveal_strlit("...");
    if text.len() > max_chars {
        assert(truncated(text, max_chars).take(max_chars as int) =~= text.take(max_chars as int));
    }
}

/// The ruler that separates the parts of the screen.
pub open spec fn ruler() -> Seq<char> {
    "--------------------------------------------------------------------------------"@
}

/// The marker in front of a song: `>` for the cursor, `*` for the song being
/// played.
pub open spec fn marker(is_selected: bool, is_current: bool) -> Seq<char> {
    if is_selected && is_current {
        "> *"@
    } else if is_selected {
        ">  "@
    } else if is_current {
        "  *"@
    } else {
        "   "@
    }
}

/// The line of the song at `index`.
pub open spec fn song_line(index: nat, song: SongView, selected: usize, current: Option<usize>) -> LineView {
    let is_selected = index == selected;
    let is_current = current == Some(index as usize);
    LineView {
        text: marker(is_selected, is_current) + " "@ + pad_left(decimal(index + 1), 3) + ". "@
            + pad_right(truncated(song.title, 46), 46) + " "@ + truncated(song.path, 46),
        style: if is_selected {
            LineStyle::Selected
        } else if is_current {
            LineStyle::Current
        } else {
            LineStyle::Plain
        },
    }
}

/// A plain line.
pub open spec fn plain(text: Seq<char>) -> LineView {
    LineView { text, style: LineStyle::Plain }
}

/// The top of the screen: title, key help, playback state, status line.
pub open spec fn screen_head(
    songs: Seq<SongView>,
    current: Option<usize>,
    playback: PlaybackState,
    status: Seq<char>,
) -> Seq<LineView> {
    seq![
        LineView { text: "Rust Music Player - TUI"@, style: LineStyle::Heading },
        plain(
            "Up/Down: select  Enter: play  Space: pause/resume  n/p: next/previous  s: stop  q: quit"@,
        ),
        plain(ruler()),
        plain("State: "@ + pad_right(state_label(playback), 8) + "  Now: "@ + current_title(songs, current)),
        plain("Status: "@ + status),
        plain(ruler()),
    ]
}

/// The whole screen for the state: the top, then either the notice of an
/// empty library or the window of songs and a line that says which part of
/// the library it shows.
pub open spec fn screen(state: AppState) -> Seq<LineView> {
    let songs = state.library@;
    let head = screen_head(songs, state.current_index, state.playback_state, state.status_message@);
    if songs.len() == 0 {
        head + seq![
            LineView { text: "Library is empty."@, style: LineStyle::Notice },
            LineView { text: "Run: cargo run -- scan <your-music-folder>"@, style: LineStyle::Notice },
        ]
    } else {
        let start = visible_from(state.selected_index, songs.len() as usize);
        let end = if start + MAX_VISIBLE_SONGS < songs.len() {
            start + MAX_VISIBLE_SONGS
        } else {
            songs.len() as int
        };
        head + Seq::new(
            (end - start) as nat,
            |k: int| song_line((start + k) as nat, songs[start + k], state.selected_index, state.current_index),
        ) + seq![
            plain(ruler()),
            plain(
                "Showing "@ + decimal((start + 1) as nat) + "-"@ + decimal(end as nat) + " of "@
                    + decimal(songs.len()) + " songs"@,
            ),
        ]
    }
}

fn line(text: String, style: LineStyle) -> (r: ScreenLine)
    ensures
        r@ == (LineView { text: text@, style }),
{
    ScreenLine { text, style }
}

fn song_line_of(index: usize, song: &Song, selected: usize, current: Option<usize>) -> (r: ScreenLine)
    requires
        index < usize::MAX,
    ensures
        r@ == song_line(index as nat, song@, selected, current),
{
    let is_selected = index == selected;
    let is_current = match current {
        Some(c) => c == index,
        None => false,
    };
    let mark = if is_selected && is_current {
        "> *"
    } else if is_selected {
        ">  "
    } else if is_current {
        "  *"
    } else {
        "   "
    };
    let mut text = String::from_str(mark);
    text.append(" ");
    let number = decimal_string(index + 1);
    push_padded_left(&mut text, number.as_str(), 3);
    text.append(". ");
    let title = truncate(song.title.as_str(), 46);
    push_padded_right(&mut text, title.as_str(), 46);
    text.append(" ");
    let path = truncate(song.path.as_str(), 46);
    text.append(path.as_str());
    let style = if is_selected {
        LineStyle::Selected
    } else if is_current {
        LineStyle::Current
    } else {
        LineStyle::Plain
    };
    ScreenLine { text, style }
}

/// The lines of the screen for the state, top to bottom.
pub fn render_lines(state: &AppState) -> (r: Vec<ScreenLine>)
    ensures
        lines_view(r@) == screen(*state),
{
    let ghost songs = state.library@;
    let mut lines: Vec<ScreenLine> = Vec::new();
    lines.push(line(String::from_str("Rust Music Player - TUI"), LineStyle::Heading));
    lines.push(
        line(
            String::from_str(
                "Up/Down: select  Enter: play  Space: pause/resume  n/p: next/previous  s: stop  q: quit",
            ),
            LineStyle::Plain,
        ),
    );
    lines.push(
        line(
            String::from_str(
                "--------------------------------------------------------------------------------",
            ),
            LineStyle::Plain,
        ),
    );
    let mut state_text = String::from_str("State: ");
    push_padded_right(&mut state_text, state.playback_state.label(), 8);
    state_text.append("  Now: ");
    let title = state.current_song_title();
    state_text.append(title.as_str());
    lines.push(line(state_text, LineStyle::Plain));
    let status_text = String::from_str("Status: ").concat(state.status_message.as_str());
    lines.push(line(status_text, LineStyle::Plain));
    lines.push(
        line(
            String::from_str(
                "--------------------------------------------------------------------------------",
            ),
            LineStyle::Plain,
        ),
    );
    let ghost head = screen_head(
        songs,
        state.current_index,
        state.playback_state,
        state.status_message@,
    );
    assert(lines_view(lines@) =~= head);
    if state.library.is_empty() {
        lines.push(line(String::from_str("Library is empty."), LineStyle::Notice));
        lines.push(
            line(String::from_str("Run: cargo run -- scan <your-music-folder>"), LineStyle::Notice),
        );
        assert(lines_view(lines@) =~= screen(*state));
        return lines;
    }
    let total = state.library.len();
    let start = visible_start(state.selected_index, total);
    proof {
        lemma_visible_window(state.selected_index, total);
    }
    let end = if start + MAX_VISIBLE_SONGS < total {
        start + MAX_VISIBLE_SONGS
    } else {
        total
    };
    let mut index = start;
    while index < end
        invariant
            songs == state.library@,
            total == songs.len(),
            start <= index <= end <= total,
            lines_view(lines@) =~= head + Seq::new(
                (index - start) as nat,
                |k: int|
                    song_line(
                        (start + k) as nat,
                        songs[start + k],
                        state.selected_index,
                        state.current_index,
                    ),
            ),
        decreases end - index,
    {
        let row = song_line_of(index, &state.library.songs[index], state.selected_index, state.current_index);
        let ghost before = lines@;
        lines.push(row);
        assert(lines_view(lines@) =~= lines_view(before).push(row@));
        assert(songs[index as int] == state.library.songs@[index as int]@);
        index += 1;
    }
    lines.push(
        line(
            String::from_str(
                "--------------------------------------------------------------------------------",
            ),
            LineStyle::Plain,
        ),
    );
    let mut footer = String::from_str("Showing ");
    footer.append(decimal_string(start + 1).as_str());
    footer.append("-");
    footer.append(decimal_string(end).as_str());
    footer.append(" of ");
    footer.append(decimal_string(total).as_str());
    footer.append(" songs");
    lines.push(line(footer, LineStyle::Plain));
    assert(lines_view(lines@) =~= screen(*state));
    lines
}

/// The song under the cursor is always on screen: in a consistent state
/// with a non-empty library, the line of the cursor's song is drawn in the
/// cursor's style, below the six lines of the top.
pub proof fn lemma_cursor_on_screen(state: AppState)
    requires
        state.wf(),
        0 < state.library@.len() <= usize::MAX,
    ensures
        ({
            let start = visible_from(state.selected_index, state.library@.len() as usize);
            let at = 6 + state.selected_index - start;
            &&& 6 <= at < screen(state).len()
            &&& screen(state)[at].style == LineStyle::Selected
        }),
{
    let songs = state.library@;
    let total = songs.len() as usize;
    lemma_visible_window(state.selected_index, total);
    let start = visible_from(state.selected_index, total);
    let end = if start + MAX_VISIBLE_SONGS < songs.len() {
        start + MAX_VISIBLE_SONGS
    } else {
        songs.len() as int
    };
    let head = screen_head(songs, state.current_index, state.playback_state, state.status_message@);
    let rows = Seq::new(
        (end - start) as nat,
        |k: int| song_line((start + k) as nat, songs[start + k], state.selected_index, state.current_index),
    );
    let k = state.selected_index - start;
    assert(0 <= k < rows.len());
    assert(screen(state)[6 + k] == rows[k]);
}

/// How a song's line is coloured: the cursor's song, and only it, in the
/// cursor's style; otherwise the song being played, and only it, in green;
/// every other song in the default colours.
pub proof fn lemma_song_line_style(index: nat, song: SongView, selected: usize, current: Option<usize>)
    requires
        index <= usize::MAX,
    ensures
        (song_line(index, song, selected, current).style == LineStyle::Selected) <==> index
            == selected,
        (song_line(index, song, selected, current).style == LineStyle::Current) <==> (index
            != selected && current == Some(index as usize)),
        (song_line(index, song, selected, current).style == LineStyle::Plain) <==> (index
            != selected && current != Some(index as usize)),
{
}

/// On screen, a song row is green only for the song being played, and
/// reversed only for the song under the cursor.
pub proof fn lemma_screen_row_styles(state: AppState, k: int)
    requires
        0 < state.library@.len() <= usize::MAX,
        6 <= k < screen(state).len() - 2,
    ensures
        ({
            let start = visible_from(state.selected_index, state.library@.len() as usize);
            let index = start + (k - 6);
            &&& 0 <= index < state.library@.len()
            &&& (screen(state)[k].style == LineStyle::Current ==> state.current_index == Some(
                index as usize,
            ))
            &&& (screen(state)[k].style == LineStyle::Selected <==> index == state.selected_index)
            &&& (index != state.selected_index && state.current_index != Some(index as usize) ==> screen(
                state,
            )[k].style == LineStyle::Plain)
        }),
{
    let songs = state.library@;
    let total = songs.len() as usize;
    lemma_visible_window(state.selected_index, total);
    let start = visible_from(state.selected_index, total);
    let end = if start + MAX_VISIBLE_SONGS < songs.len() {
        start + MAX_VISIBLE_SONGS
    } else {
        songs.len() as int
    };
    let rows = Seq::new(
        (end - start) as nat,
        |j: int| song_line((start + j) as nat, songs[start + j], state.selected_index, state.current_index),
    );
    assert(screen(state).len() == 6 + rows.len() + 2);
    assert(screen(state)[k] == rows[k - 6]);
    lemma_song_line_style(
        (start + (k - 6)) as nat,
        songs[start + (k - 6)],
        state.selected_index,
        state.current_index,
    );
}

/// The marker is three characters: `>` first for the cursor's song, `*`
/// last for the song being played, spaces otherwise.
pub proof fn lemma_marker(is_selected: bool, is_current: bool)
    ensures
        marker(is_selected, is_current).len() == 3,
        marker(is_selected, is_current)[0] == (if is_selected { '>' } else { ' ' }),
        marker(is_selected, is_current)[1] == ' ',
        marker(is_selected, is_current)[2] == (if is_current { '*' } else { ' ' }),
{
    reveal_strlit("> *");
    reveal_strlit(">  ");
    reveal_strlit("  *");
    reveal_strlit("   ");
}

/// The list scrolls so that the cursor sits on the tenth row of the window
/// (nine rows above it) whenever the window can be placed so; near the top
/// the window starts at the first song, and near the bottom it ends at the
/// last song.
pub proof fn lemma_cursor_centred(selected: usize, total: usize)
    requires
        total > MAX_VISIBLE_SONGS,
        selected < total,
    ensures
        9 <= selected && selected - 9 <= total - 18 ==> visible_from(selected, total) == selected - 9,
        selected < 9 ==> visible_from(selected, total) == 0,
        selected - 9 > total - 18 ==> visible_from(selected, total) == total - 18,
{
}

} // verus!

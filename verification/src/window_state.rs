//! The place and size of the window, kept between two runs.

use crate::number;
use crate::state_file;
use crate::state_laws;
use crate::text;
use vstd::prelude::*;

verus! {

broadcast use vstd::string::group_string_axioms;

/// The place and size of the window.
#[derive(Clone, Copy, Debug, PartialEq, Eq, Structural)]
pub struct WindowState {
    pub x: i32,
    pub y: i32,
    pub w: i32,
    pub h: i32,
    pub maximized: bool,
}

/// A rectangle on the screen.
#[derive(Clone, Copy, Debug, PartialEq, Eq, Structural)]
pub struct Rect {
    pub x: i32,
    pub y: i32,
    pub w: i32,
    pub h: i32,
}

/// The window where nothing was kept.
pub open spec fn default_window() -> WindowState {
    WindowState { x: 100, y: 100, w: 1300, h: 700, maximized: false }
}

/// The window where nothing was kept.
pub fn initial_window() -> (r: WindowState)
    ensures
        r == default_window(),
{
    WindowState { x: 100, y: 100, w: 1300, h: 700, maximized: false }
}

// ---------------------------------------------------------------------------
// Saving
// ---------------------------------------------------------------------------

/// The lines that keep the window. Its rectangle is kept only where it is neither maximized
/// nor minimized.
pub open spec fn window_lines(
    maximized: bool,
    minimized: bool,
    rect: Option<Rect>,
) -> Seq<Seq<char>> {
    let flags = seq![
        "WIN_MAX="@ + state_file::bool_word(maximized),
        "WIN_MIN="@ + state_file::bool_word(minimized),
    ];
    match rect {
        Some(r) if !maximized && !minimized => flags + seq![
            "WIN_X="@ + number::int_text(r.x as int),
            "WIN_Y="@ + number::int_text(r.y as int),
            "WIN_W="@ + number::int_text(r.w as int),
            "WIN_H="@ + number::int_text(r.h as int),
        ],
        _ => flags,
    }
}

/// The text that keeps the window.
pub fn save_window_state(maximized: bool, minimized: bool, rect: Option<Rect>) -> (r: String)
    ensures
        r@ == state_file::unlines(window_lines(maximized, minimized, rect)),
{
    let mut out = String::new();
    let ghost mut lines: Seq<Seq<char>> = seq![];
    let word = state_file::word_of_bool(maximized);
    state_file::add_line(&mut out, "WIN_MAX=", word, Ghost(lines));
    proof {
        lines = lines.push("WIN_MAX="@ + word@);
    }
    let word = state_file::word_of_bool(minimized);
    state_file::add_line(&mut out, "WIN_MIN=", word, Ghost(lines));
    proof {
        lines = lines.push("WIN_MIN="@ + word@);
    }
    if !maximized && !minimized {
        if let Some(r) = rect {
            let n = number::decimal_i32(r.x);
            state_file::add_line(&mut out, "WIN_X=", n.as_str(), Ghost(lines));
            proof {
                lines = lines.push("WIN_X="@ + n@);
            }
            let n = number::decimal_i32(r.y);
            state_file::add_line(&mut out, "WIN_Y=", n.as_str(), Ghost(lines));
            proof {
                lines = lines.push("WIN_Y="@ + n@);
            }
            let n = number::decimal_i32(r.w);
            state_file::add_line(&mut out, "WIN_W=", n.as_str(), Ghost(lines));
            proof {
                lines = lines.push("WIN_W="@ + n@);
            }
            let n = number::decimal_i32(r.h);
            state_file::add_line(&mut out, "WIN_H=", n.as_str(), Ghost(lines));
            proof {
                lines = lines.push("WIN_H="@ + n@);
            }
        }
    }
    assert(lines =~= window_lines(maximized, minimized, rect));
    out
}

// ---------------------------------------------------------------------------
// Loading
// ---------------------------------------------------------------------------

/// What was read so far.
#[derive(Clone, Copy, Debug, PartialEq, Eq, Structural)]
pub struct WindowLoading {
    pub state: WindowState,
    pub has_size: bool,
}

/// A number in a line, or another one where it is none.
pub open spec fn number_or(value: Seq<char>, other: i32) -> i32 {
    match number::read_i32(text::trimmed(value)) {
        Some(n) => n as i32,
        None => other,
    }
}

impl WindowLoading {
    /// After one more line.
    pub open spec fn after(self, line: Seq<char>) -> WindowLoading {
        if text::begins_with(line, "WIN_X="@) {
            let x = number_or(text::after(line, 6), 100);
            WindowLoading { state: WindowState { x, ..self.state }, ..self }
        } else if text::begins_with(line, "WIN_Y="@) {
            let y = number_or(text::after(line, 6), 100);
            WindowLoading { state: WindowState { y, ..self.state }, ..self }
        } else if text::begins_with(line, "WIN_W="@) {
            let w = number_or(text::after(line, 6), 1300);
            WindowLoading { state: WindowState { w, ..self.state }, has_size: true }
        } else if text::begins_with(line, "WIN_H="@) {
            let h = number_or(text::after(line, 6), 700);
            WindowLoading { state: WindowState { h, ..self.state }, ..self }
        } else if text::begins_with(line, "WIN_MAX="@) {
            let maximized = text::trimmed(text::after(line, 8)) == "true"@;
            WindowLoading { state: WindowState { maximized, ..self.state }, ..self }
        } else {
            self
        }
    }
}

/// After the first `n` lines.
pub open spec fn window_loaded(lines: Seq<Seq<char>>, n: int) -> WindowLoading
    decreases n,
{
    if n <= 0 {
        WindowLoading { state: default_window(), has_size: false }
    } else {
        window_loaded(lines, n - 1).after(lines[n - 1])
    }
}

/// The window that lines say. Without a width both sizes are the common ones.
pub open spec fn window_in(lines: Seq<Seq<char>>) -> WindowState {
    let l = window_loaded(lines, lines.len() as int);
    if l.has_size {
        l.state
    } else {
        WindowState { w: 1300, h: 700, ..l.state }
    }
}

fn parse_or(value: &str, other: i32) -> (r: i32)
    ensures
        r == number_or(value@, other),
{
    let word = text::trim(value);
    match number::parse_i32(word.as_str()) {
        Some(n) => n,
        None => other,
    }
}

proof fn lemma_window_keys()
    ensures
        "WIN_X="@ =~= seq!['W', 'I', 'N', '_', 'X', '='],
        "WIN_Y="@ =~= seq!['W', 'I', 'N', '_', 'Y', '='],
        "WIN_W="@ =~= seq!['W', 'I', 'N', '_', 'W', '='],
        "WIN_H="@ =~= seq!['W', 'I', 'N', '_', 'H', '='],
        "WIN_MAX="@ =~= seq!['W', 'I', 'N', '_', 'M', 'A', 'X', '='],
        "WIN_MIN="@ =~= seq!['W', 'I', 'N', '_', 'M', 'I', 'N', '='],
{
    reveal_strlit("WIN_X=");
    reveal_strlit("WIN_Y=");
    reveal_strlit("WIN_W=");
    reveal_strlit("WIN_H=");
    reveal_strlit("WIN_MAX=");
    reveal_strlit("WIN_MIN=");
}

/// Reads the kept place and size of the window.
pub fn load_window_state(content: &str) -> (r: WindowState)
    ensures
        r == window_in(text::lines_of(content@)),
{
    let lines = text::lines(content);
    let ghost all = lines.deep_view();
    let mut l = WindowLoading { state: initial_window(), has_size: false };
    proof {
        lemma_window_keys();
    }
    let mut i: usize = 0;
    while i < lines.len()
        invariant
            i <= lines.len(),
            all == lines.deep_view(),
            l == window_loaded(all, i as int),
            "WIN_X="@.len() == 6,
            "WIN_Y="@.len() == 6,
            "WIN_W="@.len() == 6,
            "WIN_H="@.len() == 6,
            "WIN_MAX="@.len() == 8,
        decreases lines.len() - i,
    {
        let line = lines[i].as_str();
        assert(all[i as int] == line@);
        if let Some(v) = text::strip_prefix(line, "WIN_X=") {
            l.state.x = parse_or(v.as_str(), 100);
        } else if let Some(v) = text::strip_prefix(line, "WIN_Y=") {
            l.state.y = parse_or(v.as_str(), 100);
        } else if let Some(v) = text::strip_prefix(line, "WIN_W=") {
            l.state.w = parse_or(v.as_str(), 1300);
            l.has_size = true;
        } else if let Some(v) = text::strip_prefix(line, "WIN_H=") {
            l.state.h = parse_or(v.as_str(), 700);
        } else if let Some(v) = text::strip_prefix(line, "WIN_MAX=") {
            let word = text::trim(v.as_str());
            l.state.maximized = text::same(word.as_str(), "true");
        }
        i += 1;
    }
    if l.has_size {
        l.state
    } else {
        WindowState {
            x: l.state.x,
            y: l.state.y,
            w: 1300,
            h: 700,
            maximized: l.state.maximized,
        }
    }
}

// ---------------------------------------------------------------------------
// The round trip
// ---------------------------------------------------------------------------

/// The window that is found again.
pub open spec fn window_back(
    maximized: bool,
    minimized: bool,
    rect: Option<Rect>,
) -> WindowState {
    match rect {
        Some(r) if !maximized && !minimized => WindowState {
            x: r.x,
            y: r.y,
            w: r.w,
            h: r.h,
            maximized: false,
        },
        _ => WindowState { maximized, ..default_window() },
    }
}

proof fn lemma_digits_clean(n: nat)
    ensures
        state_laws::is_clean(number::nat_text(n)),
        number::nat_text(n).len() > 0,
{
    number::nat_text_reads_back(n);
    let t = number::nat_text(n);
    assert forall|i: int| 0 <= i < t.len() implies t[i] != '\n' by {
        assert(number::is_digit(t[i]));
    }
    assert(number::is_digit(t[0]));
    assert(number::is_digit(t[t.len() - 1]));
}

proof fn lemma_int_clean(n: int)
    ensures
        state_laws::is_clean(number::int_text(n)),
{
    if n < 0 {
        lemma_digits_clean((-n) as nat);
        let d = number::nat_text((-n) as nat);
        let t = number::int_text(n);
        assert forall|i: int| 0 <= i < t.len() implies t[i] != '\n' by {
            if i > 0 {
                assert(t[i] == d[i - 1]);
                assert(d.contains(d[i - 1]));
            }
        }
        assert(t.last() == d.last());
    } else {
        lemma_digits_clean(n as nat);
    }
}

proof fn lemma_number_kept(n: i32, other: i32)
    ensures
        number_or(number::int_text(n as int), other) == n,
{
    lemma_int_clean(n as int);
    state_laws::clean_is_trimmed(number::int_text(n as int));
    number::int_text_reads_back(n as int);
}

/// The window that is saved and loaded again is at the same place with the same size; where
/// it was maximized, that is kept, and where only that or a minimized window was kept, it is
/// at the common place with the common size.
pub proof fn window_saved_then_loaded(maximized: bool, minimized: bool, rect: Option<Rect>)
    ensures
        window_in(
            text::lines_of(state_file::unlines(window_lines(maximized, minimized, rect))),
        ) == window_back(maximized, minimized, rect),
{
    let lines = window_lines(maximized, minimized, rect);
    lemma_window_keys();
    state_laws::bool_word_kept(maximized);
    state_laws::bool_word_kept(minimized);
    let max_word = state_file::bool_word(maximized);
    let min_word = state_file::bool_word(minimized);
    state_laws::clean_is_trimmed(max_word);
    state_laws::keyed_is_line("WIN_MAX="@, max_word);
    state_laws::keyed_is_line("WIN_MIN="@, min_word);
    let start = window_loaded(lines, 0);
    let l1 = window_loaded(lines, 1);
    let l2 = window_loaded(lines, 2);
    state_laws::key_found("WIN_MAX="@, max_word);
    lemma_other_keys("WIN_MAX="@, max_word);
    assert(l1 == start.after(lines[0]));
    assert(l1.state == (WindowState { maximized, ..default_window() }));
    lemma_other_keys("WIN_MIN="@, min_word);
    state_laws::key_missed(lines[1], "WIN_MAX="@, 5);
    assert(l2 == l1.after(lines[1]));
    assert(l2 == l1);
    match rect {
        Some(r) if !maximized && !minimized => {
            let (x, y) = (number::int_text(r.x as int), number::int_text(r.y as int));
            let (w, h) = (number::int_text(r.w as int), number::int_text(r.h as int));
            lemma_int_clean(r.x as int);
            lemma_int_clean(r.y as int);
            lemma_int_clean(r.w as int);
            lemma_int_clean(r.h as int);
            state_laws::keyed_is_line("WIN_X="@, x);
            state_laws::keyed_is_line("WIN_Y="@, y);
            state_laws::keyed_is_line("WIN_W="@, w);
            state_laws::keyed_is_line("WIN_H="@, h);
            lemma_number_kept(r.x, 100);
            lemma_number_kept(r.y, 100);
            lemma_number_kept(r.w, 1300);
            lemma_number_kept(r.h, 700);
            state_laws::key_found("WIN_X="@, x);
            state_laws::key_found("WIN_Y="@, y);
            state_laws::key_found("WIN_W="@, w);
            state_laws::key_found("WIN_H="@, h);
            let l3 = window_loaded(lines, 3);
            let l4 = window_loaded(lines, 4);
            let l5 = window_loaded(lines, 5);
            let l6 = window_loaded(lines, 6);
            assert(l3 == l2.after(lines[2]));
            assert(l3.state.x == r.x);
            state_laws::key_missed(lines[3], "WIN_X="@, 4);
            assert(l4 == l3.after(lines[3]));
            assert(l4.state.y == r.y && l4.state.x == r.x);
            state_laws::key_missed(lines[4], "WIN_X="@, 4);
            state_laws::key_missed(lines[4], "WIN_Y="@, 4);
            assert(l5 == l4.after(lines[4]));
            assert(l5.state.w == r.w && l5.has_size);
            state_laws::key_missed(lines[5], "WIN_X="@, 4);
            state_laws::key_missed(lines[5], "WIN_Y="@, 4);
            state_laws::key_missed(lines[5], "WIN_W="@, 4);
            assert(l6 == l5.after(lines[5]));
            assert(lines.len() == 6);
            assert forall|i: int| 0 <= i < lines.len() implies state_laws::is_line(
                #[trigger] lines[i],
            ) by {}
        },
        _ => {
            assert(lines.len() == 2);
            assert forall|i: int| 0 <= i < lines.len() implies state_laws::is_line(
                #[trigger] lines[i],
            ) by {}
        },
    }
    state_laws::lines_read_back(lines);
}

proof fn lemma_other_keys(key: Seq<char>, value: Seq<char>)
    requires
        key.len() > 4,
        key[4] == 'M',
    ensures
        !text::begins_with(key + value, "WIN_X="@),
        !text::begins_with(key + value, "WIN_Y="@),
        !text::begins_with(key + value, "WIN_W="@),
        !text::begins_with(key + value, "WIN_H="@),
{
    lemma_window_keys();
    state_laws::key_missed(key + value, "WIN_X="@, 4);
    state_laws::key_missed(key + value, "WIN_Y="@, 4);
    state_laws::key_missed(key + value, "WIN_W="@, 4);
    state_laws::key_missed(key + value, "WIN_H="@, 4);
}

/// A line of the state file sets what it names and nothing else; a line that names nothing of
/// the window changes nothing.
pub proof fn window_line_by_line(l: WindowLoading, value: Seq<char>, other: Seq<char>)
    ensures
        l.after("WIN_X="@ + value) == (WindowLoading {
            state: WindowState { x: number_or(value, 100), ..l.state },
            ..l
        }),
        l.after("WIN_Y="@ + value) == (WindowLoading {
            state: WindowState { y: number_or(value, 100), ..l.state },
            ..l
        }),
        l.after("WIN_W="@ + value) == (WindowLoading {
            state: WindowState { w: number_or(value, 1300), ..l.state },
            has_size: true,
        }),
        l.after("WIN_H="@ + value) == (WindowLoading {
            state: WindowState { h: number_or(value, 700), ..l.state },
            ..l
        }),
        l.after("WIN_MAX="@ + value) == (WindowLoading {
            state: WindowState { maximized: text::trimmed(value) == "true"@, ..l.state },
            ..l
        }),
        other.len() < 4 || other.take(4) != seq!['W', 'I', 'N', '_'] ==> l.after(other) == l,
{
    reveal_strlit("WIN_X=");
    reveal_strlit("WIN_Y=");
    reveal_strlit("WIN_W=");
    reveal_strlit("WIN_H=");
    reveal_strlit("WIN_MAX=");
    lemma_key("WIN_X="@, value);
    lemma_key("WIN_Y="@, value);
    lemma_key("WIN_W="@, value);
    lemma_key("WIN_H="@, value);
    lemma_key("WIN_MAX="@, value);
    lemma_other_key("WIN_X="@, "WIN_Y="@, value, 4);
    lemma_other_key("WIN_X="@, "WIN_W="@, value, 4);
    lemma_other_key("WIN_Y="@, "WIN_W="@, value, 4);
    lemma_other_key("WIN_X="@, "WIN_H="@, value, 4);
    lemma_other_key("WIN_Y="@, "WIN_H="@, value, 4);
    lemma_other_key("WIN_W="@, "WIN_H="@, value, 4);
    lemma_other_key("WIN_X="@, "WIN_MAX="@, value, 4);
    lemma_other_key("WIN_Y="@, "WIN_MAX="@, value, 4);
    lemma_other_key("WIN_W="@, "WIN_MAX="@, value, 4);
    lemma_other_key("WIN_H="@, "WIN_MAX="@, value, 4);
    let win = seq!['W', 'I', 'N', '_'];
    assert("WIN_X="@.take(4) =~= win);
    assert("WIN_Y="@.take(4) =~= win);
    assert("WIN_W="@.take(4) =~= win);
    assert("WIN_H="@.take(4) =~= win);
    assert("WIN_MAX="@.take(4) =~= win);
    if other.len() < 4 || other.take(4) != win {
        lemma_not_key("WIN_X="@, other);
        lemma_not_key("WIN_Y="@, other);
        lemma_not_key("WIN_W="@, other);
        lemma_not_key("WIN_H="@, other);
        lemma_not_key("WIN_MAX="@, other);
    }
}

proof fn lemma_key(key: Seq<char>, value: Seq<char>)
    ensures
        text::begins_with(key + value, key),
        text::after(key + value, key.len() as int) == value,
{
    assert((key + value).subrange(0, key.len() as int) =~= key);
    assert(text::after(key + value, key.len() as int) =~= value);
}

proof fn lemma_other_key(key: Seq<char>, own: Seq<char>, value: Seq<char>, at: int)
    requires
        0 <= at < key.len(),
        at < own.len(),
        key[at] != own[at],
    ensures
        !text::begins_with(own + value, key),
{
    let s = own + value;
    if text::begins_with(s, key) {
        assert(s.subrange(0, key.len() as int)[at] == s[at]);
    }
}

proof fn lemma_not_key(key: Seq<char>, other: Seq<char>)
    requires
        key.len() > 4,
        key.take(4) == seq!['W', 'I', 'N', '_'],
        other.len() < 4 || other.take(4) != seq!['W', 'I', 'N', '_'],
    ensures
        !text::begins_with(other, key),
{
    if text::begins_with(other, key) {
        assert(other.take(4) =~= key.take(4)) by {
            assert forall|i: int| 0 <= i < 4 implies other[i] == key[i] by {
                assert(other.subrange(0, key.len() as int)[i] == other[i]);
            }
        }
    }
}

/// A number is read with blanks around it; what is none gives the usual value.
pub proof fn window_numbers(n: i32, value: Seq<char>, other: i32)
    ensures
        text::trimmed(value) == number::int_text(n as int) ==> number_or(value, other) == n,
        number::read_i32(text::trimmed(value)) is None ==> number_or(value, other) == other,
{
    number::int_text_reads_back(n as int);
}

/// A window of which no width was kept has the usual size, wherever it stood.
pub proof fn unknown_size_is_usual(lines: Seq<Seq<char>>)
    requires
        !window_loaded(lines, lines.len() as int).has_size,
    ensures
        window_in(lines).w == 1300,
        window_in(lines).h == 700,
        window_in(lines).x == window_loaded(lines, lines.len() as int).state.x,
        window_in(lines).y == window_loaded(lines, lines.len() as int).state.y,
        window_in(lines).maximized == window_loaded(lines, lines.len() as int).state.maximized,
{
}

} // verus!

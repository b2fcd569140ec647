//! A group of spinner lines drawn together: the lines, the handles that
//! control them, and the frames the group renders.
use vstd::prelude::*;

use crate::shared::{
    braille_frames, clear_line_code, cursor_up_text, default_frames, esc, format_frame,
    format_outcome, frame_text, law_plain_text_avoids, lemma_codes, lemma_symbols_are_plain,
    outcome_text, plain_text, push_cursor_up, Outcome, CLEAR_LINE,
};

verus! {

/// Where a line stands.
#[derive(Clone, Debug, PartialEq, Eq)]
pub enum LineStatus {
    /// Still animating.
    Active,
    /// Finalized with a green check mark and the line's message.
    Succeeded,
    /// Finalized with a green check mark and a replacement message.
    SucceededWith(String),
    /// Finalized with a red cross and the line's message.
    Failed,
    /// Finalized with a red cross and a replacement message.
    FailedWith(String),
    /// Dismissed: the line is no longer drawn.
    Cleared,
}

/// A line status with its messages taken as character sequences.
pub enum StatusView {
    Active,
    Succeeded,
    SucceededWith(Seq<char>),
    Failed,
    FailedWith(Seq<char>),
    Cleared,
}

impl View for LineStatus {
    type V = StatusView;

    open spec fn view(&self) -> StatusView {
        match self {
            LineStatus::Active => StatusView::Active,
            LineStatus::Succeeded => StatusView::Succeeded,
            LineStatus::SucceededWith(m) => StatusView::SucceededWith(m@),
            LineStatus::Failed => StatusView::Failed,
            LineStatus::FailedWith(m) => StatusView::FailedWith(m@),
            LineStatus::Cleared => StatusView::Cleared,
        }
    }
}

/// One line of a group: its message and its status.
#[derive(Clone, Debug, PartialEq, Eq)]
pub struct SpinnerLine {
    pub message: String,
    pub status: LineStatus,
}

/// A line with its message taken as a character sequence.
pub struct LineView {
    pub message: Seq<char>,
    pub status: StatusView,
}

impl View for SpinnerLine {
    type V = LineView;

    open spec fn view(&self) -> LineView {
        LineView { message: self.message@, status: self.status@ }
    }
}

/// The views of a vector of lines.
pub open spec fn line_views(lines: Seq<SpinnerLine>) -> Seq<LineView> {
    lines.map_values(|l: SpinnerLine| l@)
}

/// Whether a line is drawn at all: every line but a cleared one.
pub open spec fn is_shown(l: LineView) -> bool {
    !(l.status is Cleared)
}

/// The row of a finalized line: its coloured symbol and its message, or the
/// replacement message it was finalized with.
pub open spec fn outcome_row(l: LineView) -> Seq<char> {
    match l.status {
        StatusView::Succeeded => outcome_text(true, Outcome::Success, l.message),
        StatusView::SucceededWith(m) => outcome_text(true, Outcome::Success, m),
        StatusView::Failed => outcome_text(true, Outcome::Failure, l.message),
        StatusView::FailedWith(m) => outcome_text(true, Outcome::Failure, m),
        _ => Seq::empty(),
    }
}

/// A row that only erases the line it is on.
pub open spec fn erase_row() -> Seq<char> {
    seq!['\r'] + clear_line_code() + seq!['\n']
}

/// What a line shows in an animation frame: an active line its frame
/// character and message, a finalized line its outcome, a cleared line nothing.
pub open spec fn frame_row(l: LineView, frame_char: char) -> Seq<char> {
    match l.status {
        StatusView::Active => frame_text(frame_char, l.message) + seq!['\n'],
        StatusView::Cleared => Seq::empty(),
        _ => outcome_row(l),
    }
}

/// What a line shows when the group stops: an active line is erased, a
/// finalized line shows its outcome, a cleared line nothing.
pub open spec fn final_row(l: LineView) -> Seq<char> {
    match l.status {
        StatusView::Active => erase_row(),
        StatusView::Cleared => Seq::empty(),
        _ => outcome_row(l),
    }
}

/// The rows of all lines in an animation frame, in the order they were added.
pub open spec fn frame_rows(ls: Seq<LineView>, frame_char: char) -> Seq<char>
    decreases ls.len(),
{
    if ls.len() == 0 {
        Seq::empty()
    } else {
        frame_rows(ls.drop_last(), frame_char) + frame_row(ls.last(), frame_char)
    }
}

/// The rows of all lines when the group stops.
pub open spec fn final_rows(ls: Seq<LineView>) -> Seq<char>
    decreases ls.len(),
{
    if ls.len() == 0 {
        Seq::empty()
    } else {
        final_rows(ls.drop_last()) + final_row(ls.last())
    }
}

/// The number of lines that are drawn.
pub open spec fn shown_count(ls: Seq<LineView>) -> nat
    decreases ls.len(),
{
    if ls.len() == 0 {
        0
    } else {
        shown_count(ls.drop_last()) + if is_shown(ls.last()) {
            1nat
        } else {
            0nat
        }
    }
}

/// The number of cleared lines.
pub open spec fn cleared_count(ls: Seq<LineView>) -> nat
    decreases ls.len(),
{
    if ls.len() == 0 {
        0
    } else {
        cleared_count(ls.drop_last()) + if is_shown(ls.last()) {
            0nat
        } else {
            1nat
        }
    }
}

/// `n` copies of a text, one after the other.
pub open spec fn repeat_text(s: Seq<char>, n: nat) -> Seq<char>
    decreases n,
{
    if n == 0 {
        Seq::empty()
    } else {
        repeat_text(s, (n - 1) as nat) + s
    }
}

/// The cursor-up sequence for `n` rows, or nothing when `n` is zero.
pub open spec fn up_text(n: nat) -> Seq<char> {
    if n > 0 {
        cursor_up_text(n)
    } else {
        Seq::empty()
    }
}

/// The rows a frame leaves behind: those drawn last time beyond the ones drawn now.
pub open spec fn vacated(prev: nat, shown: nat) -> nat {
    if prev > shown {
        (prev - shown) as nat
    } else {
        0
    }
}

/// One frame of a group: up to the first row drawn last time, every line's
/// row, an erased row for each row left over from the last frame, and back
/// up over those so that the cursor ends right below the drawn lines.
pub open spec fn group_frame_text(ls: Seq<LineView>, frame_char: char, prev: nat) -> Seq<char> {
    let v = vacated(prev, shown_count(ls));
    up_text(prev) + frame_rows(ls, frame_char) + repeat_text(erase_row(), v) + up_text(v)
}

/// The last drawing of a group: up over the `visible` rows drawn last, each
/// line's final row, and an erased row for each row left over.
pub open spec fn group_final_text(ls: Seq<LineView>, visible: nat) -> Seq<char> {
    cursor_up_text(visible) + final_rows(ls) + repeat_text(erase_row(), vacated(visible, shown_count(ls)))
}

proof fn lemma_take_last<A>(s: Seq<A>, i: int)
    requires
        0 <= i < s.len(),
    ensures
        s.take(i + 1).drop_last() == s.take(i),
        s.take(i + 1).last() == s[i],
{
    assert(s.take(i + 1).drop_last() =~= s.take(i));
}

fn push_erase_row(out: &mut String)
    ensures
        final(out)@ == old(out)@ + erase_row(),
{
    out.push('\r');
    out.append(CLEAR_LINE);
    out.push('\n');
    proof {
        lemma_codes();
        assert(final(out)@ =~= old(out)@ + erase_row());
    }
}

fn push_erase_rows(out: &mut String, n: usize)
    ensures
        final(out)@ == old(out)@ + repeat_text(erase_row(), n as nat),
{
    let ghost start = out@;
    let mut j: usize = 0;
    while j < n
        invariant
            j <= n,
            out@ == start + repeat_text(erase_row(), j as nat),
        decreases n - j,
    {
        push_erase_row(out);
        j = j + 1;
        assert(out@ =~= start + repeat_text(erase_row(), j as nat));
    }
}

fn push_outcome_row(out: &mut String, line: &SpinnerLine)
    requires
        !(line@.status is Active),
        !(line@.status is Cleared),
    ensures
        final(out)@ == old(out)@ + outcome_row(line@),
{
    let text = match &line.status {
        LineStatus::Succeeded => format_outcome(true, Outcome::Success, line.message.as_str()),
        LineStatus::SucceededWith(m) => format_outcome(true, Outcome::Success, m.as_str()),
        LineStatus::Failed => format_outcome(true, Outcome::Failure, line.message.as_str()),
        LineStatus::FailedWith(m) => format_outcome(true, Outcome::Failure, m.as_str()),
        _ => String::new(),
    };
    out.append(text.as_str());
}

/// Appends a line's row in an animation frame; tells whether the line is drawn.
fn push_frame_row(out: &mut String, line: &SpinnerLine, frame_char: char) -> (shown: bool)
    ensures
        final(out)@ == old(out)@ + frame_row(line@, frame_char),
        shown == is_shown(line@),
{
    match &line.status {
        LineStatus::Active => {
            let text = format_frame(frame_char, line.message.as_str());
            out.append(text.as_str());
            out.push('\n');
            assert(final(out)@ =~= old(out)@ + frame_row(line@, frame_char));
            true
        },
        LineStatus::Cleared => {
            assert(final(out)@ =~= old(out)@ + frame_row(line@, frame_char));
            false
        },
        _ => {
            push_outcome_row(out, line);
            true
        },
    }
}

/// Appends a line's row in the last drawing; tells whether the line is drawn.
fn push_final_row(out: &mut String, line: &SpinnerLine) -> (shown: bool)
    ensures
        final(out)@ == old(out)@ + final_row(line@),
        shown == is_shown(line@),
{
    match &line.status {
        LineStatus::Active => {
            push_erase_row(out);
            true
        },
        LineStatus::Cleared => {
            assert(final(out)@ =~= old(out)@ + final_row(line@));
            false
        },
        _ => {
            push_outcome_row(out, line);
            true
        },
    }
}

/// Renders one animation frame of a group whose last frame drew `prev`
/// rows; gives the text and the number of rows drawn now.
pub fn render_frame(lines: &Vec<SpinnerLine>, frame_char: char, prev: usize) -> (r: (String, usize))
    ensures
        r.0@ == group_frame_text(line_views(lines@), frame_char, prev as nat),
        r.1 == shown_count(line_views(lines@)),
{
    let ghost ls = line_views(lines@);
    let mut out = String::new();
    if prev > 0 {
        push_cursor_up(&mut out, prev);
    }
    assert(out@ =~= up_text(prev as nat));
    assert(ls.take(0) =~= Seq::<LineView>::empty());
    let mut shown: usize = 0;
    let mut i: usize = 0;
    while i < lines.len()
        invariant
            i <= lines.len(),
            ls == line_views(lines@),
            shown <= i,
            shown == shown_count(ls.take(i as int)),
            out@ == up_text(prev as nat) + frame_rows(ls.take(i as int), frame_char),
        decreases lines.len() - i,
    {
        proof {
            lemma_take_last(ls, i as int);
        }
        let drawn = push_frame_row(&mut out, &lines[i], frame_char);
        if drawn {
            shown = shown + 1;
        }
        i = i + 1;
        assert(out@ =~= up_text(prev as nat) + frame_rows(ls.take(i as int), frame_char));
    }
    assert(ls.take(i as int) =~= ls);
    let left: usize = if prev > shown {
        prev - shown
    } else {
        0
    };
    push_erase_rows(&mut out, left);
    if left > 0 {
        push_cursor_up(&mut out, left);
    }
    assert(out@ =~= group_frame_text(ls, frame_char, prev as nat));
    (out, shown)
}

/// What the last drawing of a group writes: nothing off a terminal or when
/// the last frame drew no row; otherwise the final rows of every line.
pub open spec fn final_drawing_text(ls: Seq<LineView>, is_tty: bool, visible: nat) -> Seq<char> {
    if is_tty && visible > 0 {
        group_final_text(ls, visible)
    } else {
        Seq::empty()
    }
}

/// Renders the last drawing of a group whose last frame drew `visible` rows:
/// off a terminal, or when that frame drew no row, nothing at all.
pub fn render_final(lines: &Vec<SpinnerLine>, is_tty: bool, visible: usize) -> (out: String)
    ensures
        out@ == final_drawing_text(line_views(lines@), is_tty, visible as nat),
{
    let ghost ls = line_views(lines@);
    let mut out = String::new();
    if !is_tty || visible == 0 {
        return out;
    }
    push_cursor_up(&mut out, visible);
    assert(out@ =~= cursor_up_text(visible as nat));
    assert(ls.take(0) =~= Seq::<LineView>::empty());
    let mut shown: usize = 0;
    let mut i: usize = 0;
    while i < lines.len()
        invariant
            i <= lines.len(),
            ls == line_views(lines@),
            shown <= i,
            shown == shown_count(ls.take(i as int)),
            out@ == cursor_up_text(visible as nat) + final_rows(ls.take(i as int)),
        decreases lines.len() - i,
    {
        proof {
            lemma_take_last(ls, i as int);
        }
        let drawn = push_final_row(&mut out, &lines[i]);
        if drawn {
            shown = shown + 1;
        }
        i = i + 1;
        assert(out@ =~= cursor_up_text(visible as nat) + final_rows(ls.take(i as int)));
    }
    assert(ls.take(i as int) =~= ls);
    let left: usize = if visible > shown {
        visible - shown
    } else {
        0
    };
    push_erase_rows(&mut out, left);
    assert(out@ =~= group_final_text(ls, visible as nat));
    out
}

/// A builder for a group of spinner lines drawn on one writer.
pub struct MultiSpinner<W> {
    writer: W,
    is_tty: bool,
}

impl<W> MultiSpinner<W> {
    /// The writer the group was built with.
    pub closed spec fn writer_spec(&self) -> W {
        self.writer
    }

    /// Whether the group's output is treated as a terminal.
    pub closed spec fn is_tty_spec(&self) -> bool {
        self.is_tty
    }

    /// A group for a custom writer, which is taken not to be a terminal.
    pub fn with_writer(writer: W) -> (m: Self)
        ensures
            m.writer_spec() == writer,
            !m.is_tty_spec(),
    {
        MultiSpinner { writer, is_tty: false }
    }

    /// A group for a custom writer, with an explicit choice of terminal mode.
    pub fn with_writer_tty(writer: W, is_tty: bool) -> (m: Self)
        ensures
            m.writer_spec() == writer,
            m.is_tty_spec() == is_tty,
    {
        MultiSpinner { writer, is_tty }
    }

    /// Whether the group's output is treated as a terminal.
    pub fn is_tty(&self) -> (b: bool)
        ensures
            b == self.is_tty_spec(),
    {
        self.is_tty
    }

    /// Starts the group: the state it runs with, holding no line yet, and its
    /// writer handed back. Only a terminal group animates.
    pub fn into_state(self) -> (r: (MultiState, W))
        ensures
            r.0@ == (MultiView {
                lines: Seq::empty(),
                is_tty: self.is_tty_spec(),
                running: self.is_tty_spec(),
                frame_idx: 0,
                prev_line_count: 0,
            }),
            r.1 == self.writer_spec(),
    {
        let MultiSpinner { writer, is_tty } = self;
        let lines: Vec<SpinnerLine> = Vec::new();
        let state = MultiState {
            lines,
            is_tty,
            running: is_tty,
            frame_idx: 0,
            prev_line_count: 0,
        };
        assert(state@.lines =~= Seq::<LineView>::empty());
        (state, writer)
    }
}

/// What a running group holds: its lines, its mode, whether it
/// still animates, the frame counter, and how many rows the last frame drew.
pub struct MultiView {
    pub lines: Seq<LineView>,
    pub is_tty: bool,
    pub running: bool,
    pub frame_idx: nat,
    pub prev_line_count: nat,
}

/// A running group of spinner lines.
pub struct MultiState {
    lines: Vec<SpinnerLine>,
    is_tty: bool,
    running: bool,
    frame_idx: usize,
    prev_line_count: usize,
}

impl View for MultiState {
    type V = MultiView;

    closed spec fn view(&self) -> MultiView {
        MultiView {
            lines: line_views(self.lines@),
            is_tty: self.is_tty,
            running: self.running,
            frame_idx: self.frame_idx as nat,
            prev_line_count: self.prev_line_count as nat,
        }
    }
}

/// The frame counter after one step: it counts up and wraps round at the
/// largest `usize`.
pub open spec fn next_frame_idx(idx: nat) -> nat {
    if idx >= usize::MAX {
        0
    } else {
        idx + 1
    }
}

/// What stopping a group writes: when it was animating and its last frame
/// drew some rows, one last drawing of every line; otherwise nothing.
pub open spec fn shutdown_text(v: MultiView) -> Seq<char> {
    if v.running {
        final_drawing_text(v.lines, v.is_tty, v.prev_line_count)
    } else {
        Seq::empty()
    }
}

impl MultiState {
    /// The lines, in the order they were added.
    pub fn lines(&self) -> (ls: &Vec<SpinnerLine>)
        ensures
            line_views(ls@) == self@.lines,
    {
        &self.lines
    }

    /// The number of lines added so far.
    pub fn line_count(&self) -> (n: usize)
        ensures
            n == self@.lines.len(),
    {
        self.lines.len()
    }

    /// Whether the output is treated as a terminal.
    pub fn is_tty(&self) -> (b: bool)
        ensures
            b == self@.is_tty,
    {
        self.is_tty
    }

    /// Whether the animation still runs.
    pub fn is_running(&self) -> (b: bool)
        ensures
            b == self@.running,
    {
        self.running
    }

    /// The number of rows the last frame drew.
    pub fn last_visible_count(&self) -> (n: usize)
        ensures
            n == self@.prev_line_count,
    {
        self.prev_line_count
    }

    /// Adds an active line with the given message at the bottom of the group,
    /// and gives the handle that controls it. Nothing is written.
    pub fn add(&mut self, message: &str) -> (h: SpinnerLineHandle)
        ensures
            final(self)@ == (MultiView {
                lines: old(self)@.lines.push(LineView { message: message@, status: StatusView::Active }),
                ..old(self)@
            }),
            h@ == (LineHandleView { index: old(self)@.lines.len() }),
    {
        let index = self.lines.len();
        self.lines.push(SpinnerLine { message: message.to_owned(), status: LineStatus::Active });
        assert(self@.lines =~= old(self)@.lines.push(
            LineView { message: message@, status: StatusView::Active },
        ));
        SpinnerLineHandle { index }
    }

    /// One step of the animation. With no line yet nothing is drawn; otherwise
    /// the frame of every line with the current frame character, and the
    /// number of rows drawn is kept for the next step. The frame counter
    /// advances either way.
    pub fn tick(&mut self) -> (out: String)
        requires
            old(self)@.running,
        ensures
            old(self)@.lines.len() == 0 ==> out@ == Seq::<char>::empty() && final(self)@ == (
            MultiView { frame_idx: next_frame_idx(old(self)@.frame_idx), ..old(self)@ }),
            old(self)@.lines.len() > 0 ==> out@ == group_frame_text(
                old(self)@.lines,
                braille_frames()[(old(self)@.frame_idx % 10) as int],
                old(self)@.prev_line_count,
            ) && final(self)@ == (MultiView {
                frame_idx: next_frame_idx(old(self)@.frame_idx),
                prev_line_count: shown_count(old(self)@.lines),
                ..old(self)@
            }),
    {
        let mut out = String::new();
        if self.lines.len() > 0 {
            let frames = default_frames();
            let frame_char = frames[self.frame_idx % frames.len()];
            let (text, shown) = render_frame(&self.lines, frame_char, self.prev_line_count);
            out = text;
            self.prev_line_count = shown;
        }
        self.frame_idx = if self.frame_idx == usize::MAX {
            0
        } else {
            self.frame_idx + 1
        };
        out
    }

    /// Stops the animation. A group that was animating and whose last frame
    /// drew rows is drawn one last time, its still-active lines erased and
    /// its finalized lines shown; otherwise nothing is written.
    pub fn shutdown(&mut self) -> (out: String)
        ensures
            out@ == shutdown_text(old(self)@),
            final(self)@ == (MultiView { running: false, ..old(self)@ }),
    {
        let was_running = self.running;
        self.running = false;
        if was_running {
            render_final(&self.lines, self.is_tty, self.prev_line_count)
        } else {
            String::new()
        }
    }

    /// Puts a new message on line `i`, keeping its status.
    fn set_message(&mut self, i: usize, message: &str)
        requires
            i < old(self)@.lines.len(),
        ensures
            final(self)@ == (MultiView {
                lines: old(self)@.lines.update(
                    i as int,
                    LineView { message: message@, status: old(self)@.lines[i as int].status },
                ),
                ..old(self)@
            }),
    {
        let mut line = SpinnerLine { message: String::new(), status: LineStatus::Cleared };
        self.lines.set_and_swap(i, &mut line);
        let updated = SpinnerLine { message: message.to_owned(), status: line.status };
        self.lines.set(i, updated);
        assert(self@.lines =~= old(self)@.lines.update(
            i as int,
            LineView { message: message@, status: old(self)@.lines[i as int].status },
        ));
    }

    /// Gives line `i` a new status, keeping its message, and gives that message back.
    fn set_status(&mut self, i: usize, status: LineStatus) -> (message: String)
        requires
            i < old(self)@.lines.len(),
        ensures
            message@ == old(self)@.lines[i as int].message,
            final(self)@ == (MultiView {
                lines: old(self)@.lines.update(
                    i as int,
                    LineView { message: old(self)@.lines[i as int].message, status: status@ },
                ),
                ..old(self)@
            }),
    {
        let mut line = SpinnerLine { message: String::new(), status: LineStatus::Cleared };
        self.lines.set_and_swap(i, &mut line);
        let message = line.message.clone();
        let updated = SpinnerLine { message: line.message, status };
        self.lines.set(i, updated);
        assert(self@.lines =~= old(self)@.lines.update(
            i as int,
            LineView { message: old(self)@.lines[i as int].message, status: status@ },
        ));
        message
    }
}

/// Which line a handle controls.
pub struct LineHandleView {
    pub index: nat,
}

/// The handle of one line of a group. Finalizing consumes it, so a line is
/// finalized at most once through its handle.
pub struct SpinnerLineHandle {
    index: usize,
}

impl View for SpinnerLineHandle {
    type V = LineHandleView;

    closed spec fn view(&self) -> LineHandleView {
        LineHandleView { index: self.index as nat }
    }
}

/// The lines after line `i` was given a status, its message kept.
pub open spec fn with_status(ls: Seq<LineView>, i: nat, status: StatusView) -> Seq<LineView> {
    ls.update(i as int, LineView { message: ls[i as int].message, status })
}

/// What finalizing a line writes: in plain mode its plain outcome line, on a
/// terminal nothing (the next frame draws it).
pub open spec fn line_finish_text(is_tty: bool, outcome: Outcome, message: Seq<char>) -> Seq<char> {
    if is_tty {
        Seq::empty()
    } else {
        plain_text(outcome.symbol_text(), message)
    }
}

impl SpinnerLineHandle {
    /// The position of the line in its group.
    pub fn index(&self) -> (i: usize)
        ensures
            i == self@.index,
    {
        self.index
    }

    /// Replaces the line's message.
    pub fn update(&self, group: &mut MultiState, message: &str)
        requires
            self@.index < old(group)@.lines.len(),
        ensures
            final(group)@ == (MultiView {
                lines: old(group)@.lines.update(
                    self@.index as int,
                    LineView {
                        message: message@,
                        status: old(group)@.lines[self@.index as int].status,
                    },
                ),
                ..old(group)@
            }),
    {
        group.set_message(self.index, message);
    }

    fn finish(self, group: &mut MultiState, outcome: Outcome, status: LineStatus, shown: &str) -> (out: String)
        requires
            self@.index < old(group)@.lines.len(),
        ensures
            final(group)@ == (MultiView {
                lines: with_status(old(group)@.lines, self@.index, status@),
                ..old(group)@
            }),
            out@ == line_finish_text(old(group)@.is_tty, outcome, shown@),
    {
        group.set_status(self.index, status);
        if group.is_tty {
            String::new()
        } else {
            format_outcome(false, outcome, shown)
        }
    }

    /// Finalizes the line with a green check mark and its current message.
    pub fn success(self, group: &mut MultiState) -> (out: String)
        requires
            self@.index < old(group)@.lines.len(),
        ensures
            final(group)@ == (MultiView {
                lines: with_status(old(group)@.lines, self@.index, StatusView::Succeeded),
                ..old(group)@
            }),
            out@ == line_finish_text(
                old(group)@.is_tty,
                Outcome::Success,
                old(group)@.lines[self@.index as int].message,
            ),
            out@ == finish_output(old(group)@.is_tty, old(group)@.lines, self@.index, LineFinish::Success),
    {
        let message = group.lines[self.index].message.clone();
        self.finish(group, Outcome::Success, LineStatus::Succeeded, message.as_str())
    }

    /// Finalizes the line with a green check mark and a replacement message.
    pub fn success_with(self, group: &mut MultiState, message: &str) -> (out: String)
        requires
            self@.index < old(group)@.lines.len(),
        ensures
            final(group)@ == (MultiView {
                lines: with_status(old(group)@.lines, self@.index, StatusView::SucceededWith(message@)),
                ..old(group)@
            }),
            out@ == line_finish_text(old(group)@.is_tty, Outcome::Success, message@),
            out@ == finish_output(old(group)@.is_tty, old(group)@.lines, self@.index, LineFinish::SuccessWith(message@)),
    {
        let status = LineStatus::SucceededWith(message.to_owned());
        self.finish(group, Outcome::Success, status, message)
    }

    /// Finalizes the line with a red cross and its current message.
    pub fn fail(self, group: &mut MultiState) -> (out: String)
        requires
            self@.index < old(group)@.lines.len(),
        ensures
            final(group)@ == (MultiView {
                lines: with_status(old(group)@.lines, self@.index, StatusView::Failed),
                ..old(group)@
            }),
            out@ == line_finish_text(
                old(group)@.is_tty,
                Outcome::Failure,
                old(group)@.lines[self@.index as int].message,
            ),
            out@ == finish_output(old(group)@.is_tty, old(group)@.lines, self@.index, LineFinish::Fail),
    {
        let message = group.lines[self.index].message.clone();
        self.finish(group, Outcome::Failure, LineStatus::Failed, message.as_str())
    }

    /// Finalizes the line with a red cross and a replacement message.
    pub fn fail_with(self, group: &mut MultiState, message: &str) -> (out: String)
        requires
            self@.index < old(group)@.lines.len(),
        ensures
            final(group)@ == (MultiView {
                lines: with_status(old(group)@.lines, self@.index, StatusView::FailedWith(message@)),
                ..old(group)@
            }),
            out@ == line_finish_text(old(group)@.is_tty, Outcome::Failure, message@),
            out@ == finish_output(old(group)@.is_tty, old(group)@.lines, self@.index, LineFinish::FailWith(message@)),
    {
        let status = LineStatus::FailedWith(message.to_owned());
        self.finish(group, Outcome::Failure, status, message)
    }

    /// Dismisses the line: it is no longer drawn, and nothing is written.
    pub fn clear(self, group: &mut MultiState)
        requires
            self@.index < old(group)@.lines.len(),
        ensures
            final(group)@ == (MultiView {
                lines: with_status(old(group)@.lines, self@.index, StatusView::Cleared),
                ..old(group)@
            }),
    {
        group.set_status(self.index, LineStatus::Cleared);
    }
}

/// The rows of a text, put back together in order.
pub open spec fn join_rows(rows: Seq<Seq<char>>) -> Seq<char>
    decreases rows.len(),
{
    if rows.len() == 0 {
        Seq::empty()
    } else {
        join_rows(rows.drop_last()) + rows.last()
    }
}

/// A row that rewrites a whole terminal line: it goes to the line start,
/// erases the line, and ends with a newline.
pub open spec fn is_row(r: Seq<char>) -> bool {
    &&& r.len() >= 5
    &&& r.subrange(0, 5) == seq!['\r'] + clear_line_code()
    &&& r.last() == '\n'
}

/// The rows the drawn lines take in an animation frame, in order.
pub open spec fn shown_frame_rows(ls: Seq<LineView>, frame_char: char) -> Seq<Seq<char>>
    decreases ls.len(),
{
    if ls.len() == 0 {
        Seq::empty()
    } else if is_shown(ls.last()) {
        shown_frame_rows(ls.drop_last(), frame_char).push(frame_row(ls.last(), frame_char))
    } else {
        shown_frame_rows(ls.drop_last(), frame_char)
    }
}

/// The rows the drawn lines take in the last drawing, in order.
pub open spec fn shown_final_rows(ls: Seq<LineView>) -> Seq<Seq<char>>
    decreases ls.len(),
{
    if ls.len() == 0 {
        Seq::empty()
    } else if is_shown(ls.last()) {
        shown_final_rows(ls.drop_last()).push(final_row(ls.last()))
    } else {
        shown_final_rows(ls.drop_last())
    }
}

/// `n` erased rows.
pub open spec fn erase_rows(n: nat) -> Seq<Seq<char>> {
    Seq::new(n, |i: int| erase_row())
}

proof fn lemma_join_append(a: Seq<Seq<char>>, b: Seq<Seq<char>>)
    ensures
        join_rows(a + b) == join_rows(a) + join_rows(b),
    decreases b.len(),
{
    if b.len() == 0 {
        assert(a + b =~= a);
    } else {
        lemma_join_append(a, b.drop_last());
        assert((a + b).drop_last() =~= a + b.drop_last());
        assert(join_rows(a) + join_rows(b) =~= join_rows(a) + join_rows(b.drop_last()) + b.last());
    }
}

proof fn lemma_erase_rows(n: nat)
    ensures
        repeat_text(erase_row(), n) == join_rows(erase_rows(n)),
        forall|i: int| 0 <= i < n ==> #[trigger] erase_rows(n)[i] == erase_row(),
    decreases n,
{
    if n > 0 {
        lemma_erase_rows((n - 1) as nat);
        assert(erase_rows(n).drop_last() =~= erase_rows((n - 1) as nat));
    }
}

proof fn lemma_erase_row_is_row()
    ensures
        is_row(erase_row()),
{
    assert(erase_row().subrange(0, 5) =~= seq!['\r'] + clear_line_code());
}

proof fn lemma_outcome_row_is_row(l: LineView)
    requires
        is_shown(l),
        !(l.status is Active),
    ensures
        is_row(outcome_row(l)),
{
    let r = outcome_row(l);
    assert(r.subrange(0, 5) =~= seq!['\r'] + clear_line_code());
}

proof fn lemma_frame_row_is_row(l: LineView, frame_char: char)
    requires
        is_shown(l),
    ensures
        is_row(frame_row(l, frame_char)),
{
    if l.status is Active {
        let r = frame_row(l, frame_char);
        assert(r.subrange(0, 5) =~= seq!['\r'] + clear_line_code());
    } else {
        lemma_outcome_row_is_row(l);
    }
}

proof fn lemma_final_row_is_row(l: LineView)
    requires
        is_shown(l),
    ensures
        is_row(final_row(l)),
{
    if l.status is Active {
        lemma_erase_row_is_row();
    } else {
        lemma_outcome_row_is_row(l);
    }
}

proof fn lemma_shown_frame_rows(ls: Seq<LineView>, frame_char: char)
    ensures
        frame_rows(ls, frame_char) == join_rows(shown_frame_rows(ls, frame_char)),
        shown_frame_rows(ls, frame_char).len() == shown_count(ls),
        forall|i: int|
            0 <= i < shown_count(ls) ==> is_row(#[trigger] shown_frame_rows(ls, frame_char)[i]),
    decreases ls.len(),
{
    if ls.len() > 0 {
        lemma_shown_frame_rows(ls.drop_last(), frame_char);
        if is_shown(ls.last()) {
            lemma_frame_row_is_row(ls.last(), frame_char);
            assert(shown_frame_rows(ls, frame_char).drop_last() =~= shown_frame_rows(
                ls.drop_last(),
                frame_char,
            ));
        } else {
            assert(frame_rows(ls, frame_char) =~= frame_rows(ls.drop_last(), frame_char));
        }
    }
}

proof fn lemma_shown_final_rows(ls: Seq<LineView>)
    ensures
        final_rows(ls) == join_rows(shown_final_rows(ls)),
        shown_final_rows(ls).len() == shown_count(ls),
        forall|i: int| 0 <= i < shown_count(ls) ==> is_row(#[trigger] shown_final_rows(ls)[i]),
    decreases ls.len(),
{
    if ls.len() > 0 {
        lemma_shown_final_rows(ls.drop_last());
        if is_shown(ls.last()) {
            lemma_final_row_is_row(ls.last());
            assert(shown_final_rows(ls).drop_last() =~= shown_final_rows(ls.drop_last()));
        } else {
            assert(final_rows(ls) =~= final_rows(ls.drop_last()));
        }
    }
}

/// The rows an animation frame writes: the drawn lines, then an erased row
/// for each row left over from the last frame.
pub open spec fn group_frame_row_list(ls: Seq<LineView>, frame_char: char, prev: nat) -> Seq<Seq<char>> {
    shown_frame_rows(ls, frame_char) + erase_rows(vacated(prev, shown_count(ls)))
}

/// The rows the last drawing writes: the drawn lines, then an erased row for
/// each row left over.
pub open spec fn group_final_row_list(ls: Seq<LineView>, visible: nat) -> Seq<Seq<char>> {
    shown_final_rows(ls) + erase_rows(vacated(visible, shown_count(ls)))
}

/// No line is left behind by an animation frame: a frame goes up over the
/// `prev` rows the last frame drew, rewrites as many rows as the larger of
/// `prev` and the number of lines drawn now (each row erased before it is
/// written), and goes back up over the leftover rows, so that the cursor
/// ends right below the lines drawn now, where the next frame expects it.
pub proof fn law_frame_rewrites_every_row(ls: Seq<LineView>, frame_char: char, prev: nat)
    ensures
        group_frame_text(ls, frame_char, prev) == up_text(prev) + join_rows(
            group_frame_row_list(ls, frame_char, prev),
        ) + up_text(
            (group_frame_row_list(ls, frame_char, prev).len() - shown_count(ls)) as nat,
        ),
        group_frame_row_list(ls, frame_char, prev).len() == if prev > shown_count(ls) {
            prev
        } else {
            shown_count(ls)
        },
        forall|i: int|
            0 <= i < group_frame_row_list(ls, frame_char, prev).len() ==> is_row(
                #[trigger] group_frame_row_list(ls, frame_char, prev)[i],
            ),
{
    let v = vacated(prev, shown_count(ls));
    lemma_shown_frame_rows(ls, frame_char);
    lemma_erase_rows(v);
    lemma_erase_row_is_row();
    lemma_join_append(shown_frame_rows(ls, frame_char), erase_rows(v));
    let rows = group_frame_row_list(ls, frame_char, prev);
    assert forall|i: int| 0 <= i < rows.len() implies is_row(#[trigger] rows[i]) by {
        if i >= shown_count(ls) {
            assert(rows[i] == erase_rows(v)[i - shown_count(ls)]);
        }
    }
}

/// No line is left behind by the last drawing either: it goes up over the
/// `visible` rows the last frame drew and rewrites as many rows as the
/// larger of `visible` and the number of lines still drawn, each erased
/// before it is written.
pub proof fn law_final_drawing_rewrites_every_row(ls: Seq<LineView>, visible: nat)
    ensures
        group_final_text(ls, visible) == cursor_up_text(visible) + join_rows(
            group_final_row_list(ls, visible),
        ),
        group_final_row_list(ls, visible).len() == if visible > shown_count(ls) {
            visible
        } else {
            shown_count(ls)
        },
        forall|i: int|
            0 <= i < group_final_row_list(ls, visible).len() ==> is_row(
                #[trigger] group_final_row_list(ls, visible)[i],
            ),
{
    let v = vacated(visible, shown_count(ls));
    lemma_shown_final_rows(ls);
    lemma_erase_rows(v);
    lemma_erase_row_is_row();
    lemma_join_append(shown_final_rows(ls), erase_rows(v));
    let rows = group_final_row_list(ls, visible);
    assert forall|i: int| 0 <= i < rows.len() implies is_row(#[trigger] rows[i]) by {
        if i >= shown_count(ls) {
            assert(rows[i] == erase_rows(v)[i - shown_count(ls)]);
        }
    }
}

/// Every line is either drawn or cleared: the rows drawn are the lines added
/// less the lines cleared.
pub proof fn law_shown_is_total_minus_cleared(ls: Seq<LineView>)
    ensures
        shown_count(ls) + cleared_count(ls) == ls.len(),
    decreases ls.len(),
{
    if ls.len() > 0 {
        law_shown_is_total_minus_cleared(ls.drop_last());
    }
}

proof fn lemma_rows_append(a: Seq<LineView>, b: Seq<LineView>, frame_char: char)
    ensures
        frame_rows(a + b, frame_char) == frame_rows(a, frame_char) + frame_rows(b, frame_char),
        final_rows(a + b) == final_rows(a) + final_rows(b),
        shown_count(a + b) == shown_count(a) + shown_count(b),
    decreases b.len(),
{
    if b.len() == 0 {
        assert(a + b =~= a);
    } else {
        lemma_rows_append(a, b.drop_last(), frame_char);
        assert((a + b).drop_last() =~= a + b.drop_last());
        assert(frame_rows(a, frame_char) + frame_rows(b, frame_char) =~= frame_rows(a, frame_char)
            + frame_rows(b.drop_last(), frame_char) + frame_row(b.last(), frame_char));
        assert(final_rows(a) + final_rows(b) =~= final_rows(a) + final_rows(b.drop_last())
            + final_row(b.last()));
    }
}

/// A cleared line disappears and the lines around it close up with no gap:
/// every frame and the last drawing show the lines before it directly
/// followed by the lines after it.
pub proof fn law_cleared_line_collapses(ls: Seq<LineView>, i: nat, frame_char: char)
    requires
        i < ls.len(),
    ensures
        frame_rows(with_status(ls, i, StatusView::Cleared), frame_char) == frame_rows(
            ls.take(i as int),
            frame_char,
        ) + frame_rows(ls.skip(i as int + 1), frame_char),
        final_rows(with_status(ls, i, StatusView::Cleared)) == final_rows(ls.take(i as int))
            + final_rows(ls.skip(i as int + 1)),
        shown_count(with_status(ls, i, StatusView::Cleared)) == shown_count(ls.take(i as int))
            + shown_count(ls.skip(i as int + 1)),
{
    let c = with_status(ls, i, StatusView::Cleared);
    let mid = seq![c[i as int]];
    assert(c =~= ls.take(i as int) + mid + ls.skip(i as int + 1));
    lemma_rows_append(ls.take(i as int) + mid, ls.skip(i as int + 1), frame_char);
    lemma_rows_append(ls.take(i as int), mid, frame_char);
    assert(mid.drop_last() =~= Seq::<LineView>::empty());
    assert(mid.last() == c[i as int]);
    assert(c[i as int].status is Cleared);
    assert(frame_rows(Seq::<LineView>::empty(), frame_char) =~= Seq::<char>::empty());
    assert(final_rows(Seq::<LineView>::empty()) =~= Seq::<char>::empty());
    assert(frame_rows(mid, frame_char) =~= Seq::<char>::empty());
    assert(final_rows(mid) =~= Seq::<char>::empty());
    assert(shown_count(Seq::<LineView>::empty()) == 0);
    assert(!is_shown(mid.last()));
    assert(shown_count(mid) == 0);
    assert(frame_rows(ls.take(i as int) + mid, frame_char) =~= frame_rows(ls.take(i as int), frame_char));
    assert(final_rows(ls.take(i as int) + mid) =~= final_rows(ls.take(i as int)));
}

/// Lines finalized from different handles do not interfere: finalizing two
/// different lines leaves the same lines whichever goes first.
pub proof fn law_finalizations_commute(
    ls: Seq<LineView>,
    i: nat,
    j: nat,
    s: StatusView,
    t: StatusView,
)
    requires
        i < ls.len(),
        j < ls.len(),
        i != j,
    ensures
        with_status(with_status(ls, i, s), j, t) == with_status(with_status(ls, j, t), i, s),
{
    assert(with_status(with_status(ls, i, s), j, t) =~= with_status(with_status(ls, j, t), i, s));
}

/// In plain mode a line writes only when it is finalized, and then exactly
/// its plain outcome line: no escape sequence and no carriage return unless
/// the message brings one. On a terminal finalizing writes nothing.
pub proof fn law_plain_line_finish_is_plain(is_tty: bool, outcome: Outcome, message: Seq<char>)
    ensures
        is_tty ==> line_finish_text(is_tty, outcome, message) == Seq::<char>::empty(),
        !is_tty ==> line_finish_text(is_tty, outcome, message) == plain_text(
            outcome.symbol_text(),
            message,
        ),
        !message.contains(esc()) ==> !line_finish_text(is_tty, outcome, message).contains(esc()),
        !message.contains('\r') ==> !line_finish_text(is_tty, outcome, message).contains('\r'),
{
    lemma_symbols_are_plain(outcome);
    if !message.contains(esc()) && !is_tty {
        law_plain_text_avoids(outcome.symbol_text(), message, esc());
    }
    if !message.contains('\r') && !is_tty {
        law_plain_text_avoids(outcome.symbol_text(), message, '\r');
    }
}

/// How a line handle ends its line.
pub enum LineFinish {
    Success,
    SuccessWith(Seq<char>),
    Fail,
    FailWith(Seq<char>),
    Clear,
}

/// The status a finish gives the line.
pub open spec fn finish_status(f: LineFinish) -> StatusView {
    match f {
        LineFinish::Success => StatusView::Succeeded,
        LineFinish::SuccessWith(m) => StatusView::SucceededWith(m),
        LineFinish::Fail => StatusView::Failed,
        LineFinish::FailWith(m) => StatusView::FailedWith(m),
        LineFinish::Clear => StatusView::Cleared,
    }
}

/// What a finish of line `i` writes, as the handle methods state it:
/// `success` and `fail` show the line's message at the time, the `_with`
/// forms their replacement, and `clear` writes nothing.
pub open spec fn finish_output(is_tty: bool, ls: Seq<LineView>, i: nat, f: LineFinish) -> Seq<char> {
    match f {
        LineFinish::Success => line_finish_text(is_tty, Outcome::Success, ls[i as int].message),
        LineFinish::SuccessWith(m) => line_finish_text(is_tty, Outcome::Success, m),
        LineFinish::Fail => line_finish_text(is_tty, Outcome::Failure, ls[i as int].message),
        LineFinish::FailWith(m) => line_finish_text(is_tty, Outcome::Failure, m),
        LineFinish::Clear => Seq::empty(),
    }
}

/// The lines after a series of finishes `(line, finish)`, applied in order.
pub open spec fn finished_lines(ls: Seq<LineView>, ops: Seq<(nat, LineFinish)>) -> Seq<LineView>
    decreases ops.len(),
{
    if ops.len() == 0 {
        ls
    } else {
        let prior = finished_lines(ls, ops.drop_last());
        with_status(prior, ops.last().0, finish_status(ops.last().1))
    }
}

/// What a series of finishes writes, each finish in turn on the lines the
/// earlier ones left.
pub open spec fn finished_text(is_tty: bool, ls: Seq<LineView>, ops: Seq<(nat, LineFinish)>) -> Seq<char>
    decreases ops.len(),
{
    if ops.len() == 0 {
        Seq::empty()
    } else {
        let prior = finished_lines(ls, ops.drop_last());
        finished_text(is_tty, ls, ops.drop_last()) + finish_output(
            is_tty,
            prior,
            ops.last().0,
            ops.last().1,
        )
    }
}

/// The plain lines of a series of finishes, in the order they were made,
/// each with the message its line was added with or its replacement.
pub open spec fn plain_lines_in_order(ls: Seq<LineView>, ops: Seq<(nat, LineFinish)>) -> Seq<char>
    decreases ops.len(),
{
    if ops.len() == 0 {
        Seq::empty()
    } else {
        plain_lines_in_order(ls, ops.drop_last()) + finish_output(
            false,
            ls,
            ops.last().0,
            ops.last().1,
        )
    }
}

proof fn lemma_finished_lines_keep_messages(ls: Seq<LineView>, ops: Seq<(nat, LineFinish)>)
    requires
        forall|k: int| 0 <= k < ops.len() ==> #[trigger] ops[k].0 < ls.len(),
    ensures
        finished_lines(ls, ops).len() == ls.len(),
        forall|i: int| 0 <= i < ls.len() ==> #[trigger] finished_lines(ls, ops)[i].message == ls[i].message,
    decreases ops.len(),
{
    if ops.len() > 0 {
        assert forall|k: int| 0 <= k < ops.drop_last().len() implies #[trigger] ops.drop_last()[k].0
            < ls.len() by {
            assert(ops.drop_last()[k] == ops[k]);
        }
        lemma_finished_lines_keep_messages(ls, ops.drop_last());
        assert(ops[ops.len() - 1].0 < ls.len());
    }
}

/// In plain mode, finishing lines writes each finished line's plain text in
/// the order the finishes are made, whatever order the lines were added in:
/// `success` and `fail` show the message the line has, `_with` its
/// replacement, `clear` nothing. Finishing one line never changes another
/// line's message, so each shows what it would have shown alone.
pub proof fn law_plain_finishes_in_call_order(ls: Seq<LineView>, ops: Seq<(nat, LineFinish)>)
    requires
        forall|k: int| 0 <= k < ops.len() ==> #[trigger] ops[k].0 < ls.len(),
    ensures
        finished_text(false, ls, ops) == plain_lines_in_order(ls, ops),
    decreases ops.len(),
{
    if ops.len() > 0 {
        let init = ops.drop_last();
        assert forall|k: int| 0 <= k < init.len() implies #[trigger] init[k].0 < ls.len() by {
            assert(init[k] == ops[k]);
        }
        law_plain_finishes_in_call_order(ls, init);
        lemma_finished_lines_keep_messages(ls, init);
        assert(ops[ops.len() - 1].0 < ls.len());
    }
}

} // verus!

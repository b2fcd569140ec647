//! How many erase sequences and outcome marks a group's frames hold.
use vstd::prelude::*;

use crate::multi::{
    erase_row, final_row, final_rows, frame_row, frame_rows, group_final_row_list,
    group_final_text, group_frame_row_list, group_frame_text, is_row, is_shown, join_rows,
    law_final_drawing_rewrites_every_row, law_frame_rewrites_every_row, outcome_row, repeat_text,
    shown_count, up_text, vacated, LineView, StatusView,
};
use crate::shared::{
    char_count, clear_line_code, cursor_up_text, erase_count, esc, lemma_char_count_absent,
    lemma_char_count_append, lemma_cursor_up_plain, lemma_erase_count_append,
    lemma_erase_count_concat_at_least,
    lemma_erase_count_clear_line, lemma_erase_count_without_k, outcome_text, reset_code, Outcome,
};

verus! {

/// The check mark of a successful line.
pub open spec fn check_mark() -> char {
    '\u{2714}'
}

/// The cross of a failed line.
pub open spec fn cross_mark() -> char {
    '\u{2716}'
}

/// The message a line shows in its row: the replacement it was finalized
/// with, if any, otherwise its own message.
pub open spec fn shown_message(l: LineView) -> Seq<char> {
    match l.status {
        StatusView::SucceededWith(m) => m,
        StatusView::FailedWith(m) => m,
        _ => l.message,
    }
}

/// The mark a line's row shows once the line is finalized: a check mark
/// for a success, a cross for a failure, none otherwise.
pub open spec fn line_mark(l: LineView) -> Option<char> {
    match l.status {
        StatusView::Succeeded => Some(check_mark()),
        StatusView::SucceededWith(_) => Some(check_mark()),
        StatusView::Failed => Some(cross_mark()),
        StatusView::FailedWith(_) => Some(cross_mark()),
        _ => None,
    }
}

/// The number of lines whose row shows the mark `ch`.
pub open spec fn mark_count(ls: Seq<LineView>, ch: char) -> nat
    decreases ls.len(),
{
    if ls.len() == 0 {
        0
    } else {
        mark_count(ls.drop_last(), ch) + if line_mark(ls.last()) == Some(ch) {
            1nat
        } else {
            0nat
        }
    }
}

/// No line shows an erase sequence in its message.
pub open spec fn shows_no_erase(ls: Seq<LineView>) -> bool {
    forall|i: int| 0 <= i < ls.len() ==> erase_count(#[trigger] shown_message(ls[i])) == 0
}

/// No line shows the mark `ch` in its message.
pub open spec fn shows_no_mark(ls: Seq<LineView>, ch: char) -> bool {
    forall|i: int| 0 <= i < ls.len() ==> char_count(#[trigger] shown_message(ls[i]), ch) == 0
}

/// One of the two outcome marks.
pub open spec fn is_mark(ch: char) -> bool {
    ch == check_mark() || ch == cross_mark()
}

/// The larger of two numbers.
pub open spec fn larger(a: nat, b: nat) -> nat {
    if a > b {
        a
    } else {
        b
    }
}

proof fn lemma_erase_count_short(s: Seq<char>)
    requires
        s.len() < 4,
    ensures
        erase_count(s) == 0,
    decreases s.len(),
{
    if s.len() > 0 {
        lemma_erase_count_short(s.drop_last());
    }
}

proof fn lemma_marks_absent(s: Seq<char>)
    requires
        forall|i: int|
            0 <= i < s.len() ==> s[i] != check_mark() && s[i] != cross_mark() && s[i] != 'K',
    ensures
        char_count(s, check_mark()) == 0,
        char_count(s, cross_mark()) == 0,
        erase_count(s) == 0,
{
    lemma_char_count_absent(s, check_mark());
    lemma_char_count_absent(s, cross_mark());
    lemma_erase_count_without_k(s);
}

proof fn lemma_fixed_pieces()
    ensures
        char_count(seq!['\r'], check_mark()) == 0,
        char_count(seq!['\r'], cross_mark()) == 0,
        erase_count(seq!['\r']) == 0,
        char_count(seq![' '], check_mark()) == 0,
        char_count(seq![' '], cross_mark()) == 0,
        erase_count(seq![' ']) == 0,
        char_count(seq!['\n'], check_mark()) == 0,
        char_count(seq!['\n'], cross_mark()) == 0,
        erase_count(seq!['\n']) == 0,
        char_count(clear_line_code(), check_mark()) == 0,
        char_count(clear_line_code(), cross_mark()) == 0,
        erase_count(clear_line_code()) == 1,
        char_count(reset_code(), check_mark()) == 0,
        char_count(reset_code(), cross_mark()) == 0,
        erase_count(reset_code()) == 0,
{
    lemma_marks_absent(seq!['\r']);
    lemma_marks_absent(seq![' ']);
    lemma_marks_absent(seq!['\n']);
    lemma_marks_absent(reset_code());
    lemma_char_count_absent(clear_line_code(), check_mark());
    lemma_char_count_absent(clear_line_code(), cross_mark());
    lemma_erase_count_clear_line();
}

proof fn lemma_outcome_pieces(o: Outcome)
    ensures
        char_count(o.color_text(), check_mark()) == 0,
        char_count(o.color_text(), cross_mark()) == 0,
        erase_count(o.color_text()) == 0,
        o.color_text().last() == 'm',
        o.symbol_text().len() == 1,
        char_count(o.symbol_text(), check_mark()) == if o == Outcome::Success {
            1nat
        } else {
            0nat
        },
        char_count(o.symbol_text(), cross_mark()) == if o == Outcome::Failure {
            1nat
        } else {
            0nat
        },
        erase_count(o.symbol_text()) == 0,
{
    lemma_marks_absent(o.color_text());
    lemma_erase_count_short(o.symbol_text());
    let t = o.symbol_text();
    assert(t.drop_last() =~= Seq::<char>::empty());
    assert(char_count(Seq::<char>::empty(), check_mark()) == 0);
    assert(char_count(Seq::<char>::empty(), cross_mark()) == 0);
    assert(check_mark() != cross_mark());
    match o {
        Outcome::Success => assert(t.last() == check_mark()),
        Outcome::Failure => assert(t.last() == cross_mark()),
    }
}

/// The counts in a finalized row: one erase sequence, the outcome's mark,
/// and whatever the message holds.
proof fn lemma_outcome_text_counts(o: Outcome, m: Seq<char>)
    ensures
        erase_count(outcome_text(true, o, m)) == 1 + erase_count(m),
        char_count(outcome_text(true, o, m), check_mark()) == char_count(m, check_mark()) + if o
            == Outcome::Success {
            1nat
        } else {
            0nat
        },
        char_count(outcome_text(true, o, m), cross_mark()) == char_count(m, cross_mark()) + if o
            == Outcome::Failure {
            1nat
        } else {
            0nat
        },
        outcome_text(true, o, m)[0] == '\r',
{
    lemma_fixed_pieces();
    lemma_outcome_pieces(o);
    let p1 = seq!['\r'];
    let p2 = p1 + clear_line_code();
    let p3 = p2 + o.color_text();
    let p4 = p3 + o.symbol_text();
    let p5 = p4 + reset_code();
    let p6 = p5 + seq![' '];
    let p7 = p6 + m;
    let p8 = p7 + seq!['\n'];
    assert(p8 == outcome_text(true, o, m));
    lemma_erase_count_append(p1, clear_line_code());
    assert(p2.last() == 'K');
    lemma_erase_count_append(p2, o.color_text());
    assert(p3.last() == 'm');
    lemma_erase_count_append(p3, o.symbol_text());
    assert(p4.last() == o.symbol_text()[0]);
    assert(o.symbol_text()[0] == '\u{2714}' || o.symbol_text()[0] == '\u{2716}');
    lemma_erase_count_append(p4, reset_code());
    assert(p5.last() == 'm');
    lemma_erase_count_append(p5, seq![' ']);
    assert(p6.last() == ' ');
    lemma_erase_count_append(p6, m);
    lemma_erase_count_append(p7, seq!['\n']);
    let ch = check_mark();
    let cr = cross_mark();
    lemma_char_count_append(p1, clear_line_code(), ch);
    lemma_char_count_append(p2, o.color_text(), ch);
    lemma_char_count_append(p3, o.symbol_text(), ch);
    lemma_char_count_append(p4, reset_code(), ch);
    lemma_char_count_append(p5, seq![' '], ch);
    lemma_char_count_append(p6, m, ch);
    lemma_char_count_append(p7, seq!['\n'], ch);
    lemma_char_count_append(p1, clear_line_code(), cr);
    lemma_char_count_append(p2, o.color_text(), cr);
    lemma_char_count_append(p3, o.symbol_text(), cr);
    lemma_char_count_append(p4, reset_code(), cr);
    lemma_char_count_append(p5, seq![' '], cr);
    lemma_char_count_append(p6, m, cr);
    lemma_char_count_append(p7, seq!['\n'], cr);
}

proof fn lemma_erase_row_counts()
    ensures
        erase_count(erase_row()) == 1,
        char_count(erase_row(), check_mark()) == 0,
        char_count(erase_row(), cross_mark()) == 0,
        erase_row()[0] == '\r',
{
    lemma_fixed_pieces();
    let p2 = seq!['\r'] + clear_line_code();
    lemma_erase_count_append(seq!['\r'], clear_line_code());
    lemma_erase_count_append(p2, seq!['\n']);
    lemma_char_count_append(seq!['\r'], clear_line_code(), check_mark());
    lemma_char_count_append(p2, seq!['\n'], check_mark());
    lemma_char_count_append(seq!['\r'], clear_line_code(), cross_mark());
    lemma_char_count_append(p2, seq!['\n'], cross_mark());
}

/// What `line_mark` adds to the count of `ch`.
pub open spec fn mark_of(l: LineView, ch: char) -> nat {
    if line_mark(l) == Some(ch) {
        1
    } else {
        0
    }
}

proof fn lemma_outcome_row_counts(l: LineView)
    requires
        is_shown(l),
        !(l.status is Active),
    ensures
        erase_count(outcome_row(l)) == 1 + erase_count(shown_message(l)),
        char_count(outcome_row(l), check_mark()) == char_count(shown_message(l), check_mark())
            + mark_of(l, check_mark()),
        char_count(outcome_row(l), cross_mark()) == char_count(shown_message(l), cross_mark())
            + mark_of(l, cross_mark()),
        outcome_row(l)[0] == '\r',
{
    assert(check_mark() != cross_mark());
    match l.status {
        StatusView::Succeeded => lemma_outcome_text_counts(Outcome::Success, l.message),
        StatusView::SucceededWith(m) => lemma_outcome_text_counts(Outcome::Success, m),
        StatusView::Failed => lemma_outcome_text_counts(Outcome::Failure, l.message),
        StatusView::FailedWith(m) => lemma_outcome_text_counts(Outcome::Failure, m),
        _ => {},
    }
}

proof fn lemma_frame_row_counts(l: LineView, frame_char: char)
    requires
        !is_mark(frame_char),
    ensures
        is_shown(l) ==> erase_count(frame_row(l, frame_char)) == 1 + erase_count(
            shown_message(l),
        ),
        is_shown(l) ==> frame_row(l, frame_char)[0] == '\r',
        !is_shown(l) ==> frame_row(l, frame_char) == Seq::<char>::empty(),
        char_count(frame_row(l, frame_char), check_mark()) == (if is_shown(l) {
            char_count(shown_message(l), check_mark())
        } else {
            0
        }) + mark_of(l, check_mark()),
        char_count(frame_row(l, frame_char), cross_mark()) == (if is_shown(l) {
            char_count(shown_message(l), cross_mark())
        } else {
            0
        }) + mark_of(l, cross_mark()),
{
    if l.status is Active {
        lemma_fixed_pieces();
        let m = l.message;
        let p2 = seq!['\r'] + clear_line_code();
        let p3 = p2 + seq![frame_char, ' '];
        let p4 = p3 + m;
        assert(p4 + seq!['\n'] == frame_row(l, frame_char));
        lemma_erase_count_short(seq![frame_char, ' ']);
        lemma_char_count_absent(seq![frame_char, ' '], check_mark());
        lemma_char_count_absent(seq![frame_char, ' '], cross_mark());
        lemma_erase_count_append(seq!['\r'], clear_line_code());
        assert(p2.last() == 'K');
        lemma_erase_count_append(p2, seq![frame_char, ' ']);
        assert(p3.last() == ' ');
        lemma_erase_count_append(p3, m);
        lemma_erase_count_append(p4, seq!['\n']);
        lemma_char_count_append(seq!['\r'], clear_line_code(), check_mark());
        lemma_char_count_append(p2, seq![frame_char, ' '], check_mark());
        lemma_char_count_append(p3, m, check_mark());
        lemma_char_count_append(p4, seq!['\n'], check_mark());
        lemma_char_count_append(seq!['\r'], clear_line_code(), cross_mark());
        lemma_char_count_append(p2, seq![frame_char, ' '], cross_mark());
        lemma_char_count_append(p3, m, cross_mark());
        lemma_char_count_append(p4, seq!['\n'], cross_mark());
    } else if l.status is Cleared {
        assert(char_count(Seq::<char>::empty(), check_mark()) == 0);
        assert(char_count(Seq::<char>::empty(), cross_mark()) == 0);
    } else {
        lemma_outcome_row_counts(l);
    }
}

proof fn lemma_final_row_counts(l: LineView)
    ensures
        is_shown(l) ==> erase_count(final_row(l)) == 1 + if l.status is Active {
            0
        } else {
            erase_count(shown_message(l))
        },
        is_shown(l) ==> final_row(l)[0] == '\r',
        !is_shown(l) ==> final_row(l) == Seq::<char>::empty(),
        char_count(final_row(l), check_mark()) == (if is_shown(l) && !(l.status is Active) {
            char_count(shown_message(l), check_mark())
        } else {
            0
        }) + mark_of(l, check_mark()),
        char_count(final_row(l), cross_mark()) == (if is_shown(l) && !(l.status is Active) {
            char_count(shown_message(l), cross_mark())
        } else {
            0
        }) + mark_of(l, cross_mark()),
{
    if l.status is Active {
        lemma_erase_row_counts();
    } else if l.status is Cleared {
        assert(char_count(Seq::<char>::empty(), check_mark()) == 0);
        assert(char_count(Seq::<char>::empty(), cross_mark()) == 0);
    } else {
        lemma_outcome_row_counts(l);
    }
}

proof fn lemma_frame_rows_counts(ls: Seq<LineView>, frame_char: char, ch: char)
    requires
        !is_mark(frame_char),
        is_mark(ch),
    ensures
        shows_no_erase(ls) ==> erase_count(frame_rows(ls, frame_char)) == shown_count(ls),
        shows_no_mark(ls, ch) ==> char_count(frame_rows(ls, frame_char), ch) == mark_count(ls, ch),
    decreases ls.len(),
{
    if ls.len() > 0 {
        let init = ls.drop_last();
        let l = ls.last();
        assert forall|i: int| 0 <= i < init.len() implies #[trigger] init[i] == ls[i] by {}
        assert(shows_no_erase(ls) ==> shows_no_erase(init));
        assert(shows_no_mark(ls, ch) ==> shows_no_mark(init, ch));
        lemma_frame_rows_counts(init, frame_char, ch);
        assert(shows_no_erase(ls) ==> erase_count(shown_message(ls[ls.len() - 1])) == 0);
        assert(shows_no_mark(ls, ch) ==> char_count(shown_message(ls[ls.len() - 1]), ch) == 0);
        lemma_frame_row_counts(l, frame_char);
        lemma_erase_count_append(frame_rows(init, frame_char), frame_row(l, frame_char));
        lemma_char_count_append(frame_rows(init, frame_char), frame_row(l, frame_char), ch);
    }
}

proof fn lemma_final_rows_counts(ls: Seq<LineView>, ch: char)
    requires
        is_mark(ch),
    ensures
        shows_no_erase(ls) ==> erase_count(final_rows(ls)) == shown_count(ls),
        shows_no_mark(ls, ch) ==> char_count(final_rows(ls), ch) == mark_count(ls, ch),
    decreases ls.len(),
{
    if ls.len() > 0 {
        let init = ls.drop_last();
        let l = ls.last();
        assert forall|i: int| 0 <= i < init.len() implies #[trigger] init[i] == ls[i] by {}
        assert(shows_no_erase(ls) ==> shows_no_erase(init));
        assert(shows_no_mark(ls, ch) ==> shows_no_mark(init, ch));
        lemma_final_rows_counts(init, ch);
        assert(shows_no_erase(ls) ==> erase_count(shown_message(ls[ls.len() - 1])) == 0);
        assert(shows_no_mark(ls, ch) ==> char_count(shown_message(ls[ls.len() - 1]), ch) == 0);
        lemma_final_row_counts(l);
        lemma_erase_count_append(final_rows(init), final_row(l));
        lemma_char_count_append(final_rows(init), final_row(l), ch);
    }
}

proof fn lemma_erase_rows_counts(n: nat, ch: char)
    requires
        is_mark(ch),
    ensures
        erase_count(repeat_text(erase_row(), n)) == n,
        char_count(repeat_text(erase_row(), n), ch) == 0,
        n > 0 ==> repeat_text(erase_row(), n)[0] == '\r',
    decreases n,
{
    lemma_erase_row_counts();
    if n > 0 {
        lemma_erase_rows_counts((n - 1) as nat, ch);
        lemma_erase_count_append(repeat_text(erase_row(), (n - 1) as nat), erase_row());
        lemma_char_count_append(repeat_text(erase_row(), (n - 1) as nat), erase_row(), ch);
    }
}

proof fn lemma_up_text_counts(n: nat, ch: char)
    requires
        is_mark(ch),
    ensures
        erase_count(up_text(n)) == 0,
        char_count(up_text(n), ch) == 0,
        n > 0 ==> up_text(n)[0] == esc() && up_text(n).last() == 'A',
        n == 0 ==> up_text(n) == Seq::<char>::empty(),
{
    if n > 0 {
        lemma_cursor_up_plain(n);
        assert('\u{2714}' as int == 10004);
        assert('\u{2716}' as int == 10006);
        lemma_char_count_absent(cursor_up_text(n), ch);
    } else {
        assert(char_count(Seq::<char>::empty(), ch) == 0);
    }
}

/// Every animation frame erases exactly as many rows as it rewrites: when
/// no line shows an erase sequence in its message, a frame holds one erase
/// sequence per row it writes, the larger of the rows the last frame drew
/// and the lines drawn now. So when all lines are active and the last frame
/// drew as many rows as there are lines, a frame holds exactly one erase
/// sequence per line.
pub proof fn law_frame_erase_count(ls: Seq<LineView>, frame_char: char, prev: nat)
    requires
        !is_mark(frame_char),
        shows_no_erase(ls),
    ensures
        erase_count(group_frame_text(ls, frame_char, prev)) == larger(prev, shown_count(ls)),
        (forall|i: int| 0 <= i < ls.len() ==> #[trigger] ls[i].status is Active) ==> shown_count(ls)
            == ls.len(),
{
    let ch = check_mark();
    let v = vacated(prev, shown_count(ls));
    let a = up_text(prev);
    let b = frame_rows(ls, frame_char);
    let c = repeat_text(erase_row(), v);
    let d = up_text(v);
    lemma_up_text_counts(prev, ch);
    lemma_up_text_counts(v, ch);
    lemma_frame_rows_counts(ls, frame_char, ch);
    lemma_erase_rows_counts(v, ch);
    lemma_erase_count_append(a, b);
    lemma_erase_count_append(a + b, c);
    lemma_erase_count_append(a + b + c, d);
    law_all_shown(ls);
}

/// The lines drawn are all lines when none is cleared.
pub proof fn law_all_shown(ls: Seq<LineView>)
    ensures
        (forall|i: int| 0 <= i < ls.len() ==> is_shown(#[trigger] ls[i])) ==> shown_count(ls)
            == ls.len(),
        (forall|i: int| 0 <= i < ls.len() ==> #[trigger] ls[i].status is Active) ==> shown_count(
            ls,
        ) == ls.len(),
    decreases ls.len(),
{
    if ls.len() > 0 {
        law_all_shown(ls.drop_last());
        assert forall|i: int| 0 <= i < ls.drop_last().len() implies #[trigger] ls.drop_last()[i]
            == ls[i] by {}
        if forall|i: int| 0 <= i < ls.len() ==> is_shown(#[trigger] ls[i]) {
            assert(is_shown(ls[ls.len() - 1]));
        }
        if forall|i: int| 0 <= i < ls.len() ==> #[trigger] ls[i].status is Active {
            assert(ls[ls.len() - 1].status is Active);
        }
    }
}

/// Every animation frame shows one check mark per successful line and one
/// cross per failed line, whether finalized with its own message or a
/// replacement, when no message shows a mark and the frame character is
/// not one.
pub proof fn law_frame_mark_count(ls: Seq<LineView>, frame_char: char, prev: nat, ch: char)
    requires
        !is_mark(frame_char),
        is_mark(ch),
        shows_no_mark(ls, ch),
    ensures
        char_count(group_frame_text(ls, frame_char, prev), ch) == mark_count(ls, ch),
{
    let v = vacated(prev, shown_count(ls));
    let a = up_text(prev);
    let b = frame_rows(ls, frame_char);
    let c = repeat_text(erase_row(), v);
    let d = up_text(v);
    lemma_up_text_counts(prev, ch);
    lemma_up_text_counts(v, ch);
    lemma_frame_rows_counts(ls, frame_char, ch);
    lemma_erase_rows_counts(v, ch);
    lemma_char_count_append(a, b, ch);
    lemma_char_count_append(a + b, c, ch);
    lemma_char_count_append(a + b + c, d, ch);
}

/// The last drawing of a group goes up over the rows last drawn and then
/// holds one erase sequence per row it writes: the larger of the rows last
/// drawn and the lines still drawn, when no message shows an erase
/// sequence. So when no line is cleared and the last frame drew every line,
/// it is a cursor-up by the number of lines followed by exactly that many
/// erase sequences.
pub proof fn law_final_drawing_erase_count(ls: Seq<LineView>, visible: nat)
    requires
        shows_no_erase(ls),
    ensures
        group_final_text(ls, visible) == cursor_up_text(visible) + (final_rows(ls) + repeat_text(
            erase_row(),
            vacated(visible, shown_count(ls)),
        )),
        erase_count(final_rows(ls) + repeat_text(erase_row(), vacated(visible, shown_count(ls))))
            == larger(visible, shown_count(ls)),
        erase_count(group_final_text(ls, visible)) == larger(visible, shown_count(ls)),
        (forall|i: int| 0 <= i < ls.len() ==> is_shown(#[trigger] ls[i])) ==> shown_count(ls)
            == ls.len(),
{
    let ch = check_mark();
    let v = vacated(visible, shown_count(ls));
    let a = cursor_up_text(visible);
    let b = final_rows(ls);
    let c = repeat_text(erase_row(), v);
    lemma_cursor_up_plain(visible);
    lemma_final_rows_counts(ls, ch);
    lemma_erase_rows_counts(v, ch);
    assert(a + b + c =~= a + (b + c));
    lemma_erase_count_append(b, c);
    lemma_erase_count_append(a, b + c);
    law_all_shown(ls);
}

/// The last drawing of a group shows one check mark per successful line
/// and one cross per failed line, when no message shows a mark.
pub proof fn law_final_drawing_mark_count(ls: Seq<LineView>, visible: nat, ch: char)
    requires
        is_mark(ch),
        shows_no_mark(ls, ch),
    ensures
        char_count(group_final_text(ls, visible), ch) == mark_count(ls, ch),
{
    let v = vacated(visible, shown_count(ls));
    let a = cursor_up_text(visible);
    let b = final_rows(ls);
    let c = repeat_text(erase_row(), v);
    lemma_cursor_up_plain(visible);
    assert('\u{2714}' as int == 10004);
    assert('\u{2716}' as int == 10006);
    lemma_char_count_absent(a, ch);
    lemma_final_rows_counts(ls, ch);
    lemma_erase_rows_counts(v, ch);
    lemma_char_count_append(a, b, ch);
    lemma_char_count_append(a + b, c, ch);
}

/// A row holds at least the erase sequence it starts with.
proof fn lemma_row_erases(r: Seq<char>)
    requires
        is_row(r),
    ensures
        erase_count(r) >= 1,
{
    lemma_fixed_pieces();
    lemma_erase_count_append(seq!['\r'], clear_line_code());
    assert(r =~= r.subrange(0, 5) + r.subrange(5, r.len() as int));
    lemma_erase_count_concat_at_least(r.subrange(0, 5), r.subrange(5, r.len() as int));
}

/// Rows put together hold at least one erase sequence each.
proof fn lemma_rows_erase(rows: Seq<Seq<char>>)
    requires
        forall|i: int| 0 <= i < rows.len() ==> is_row(#[trigger] rows[i]),
    ensures
        erase_count(join_rows(rows)) >= rows.len(),
    decreases rows.len(),
{
    if rows.len() > 0 {
        let init = rows.drop_last();
        assert forall|i: int| 0 <= i < init.len() implies is_row(#[trigger] init[i]) by {
            assert(init[i] == rows[i]);
        }
        lemma_rows_erase(init);
        assert(is_row(rows[rows.len() - 1]));
        lemma_row_erases(rows.last());
        lemma_erase_count_concat_at_least(join_rows(init), rows.last());
    }
}

/// No row is left standing by a frame, whatever the messages hold: every
/// frame holds at least one erase sequence for each row the last frame drew
/// and for each line drawn now.
pub proof fn law_frame_erases_every_row(ls: Seq<LineView>, frame_char: char, prev: nat)
    ensures
        erase_count(group_frame_text(ls, frame_char, prev)) >= larger(prev, shown_count(ls)),
{
    law_frame_rewrites_every_row(ls, frame_char, prev);
    let rows = group_frame_row_list(ls, frame_char, prev);
    lemma_rows_erase(rows);
    let a = up_text(prev);
    let b = join_rows(rows);
    let c = up_text((rows.len() - shown_count(ls)) as nat);
    lemma_erase_count_concat_at_least(a, b);
    lemma_erase_count_concat_at_least(a + b, c);
}

/// No row is left standing by the last drawing, whatever the messages
/// hold: after its cursor-up over the `visible` rows last drawn, it holds at
/// least one erase sequence for each of those rows and for each line still
/// drawn.
pub proof fn law_final_drawing_erases_every_row(ls: Seq<LineView>, visible: nat)
    ensures
        group_final_text(ls, visible) == cursor_up_text(visible) + join_rows(
            group_final_row_list(ls, visible),
        ),
        erase_count(join_rows(group_final_row_list(ls, visible))) >= larger(
            visible,
            shown_count(ls),
        ),
{
    law_final_drawing_rewrites_every_row(ls, visible);
    lemma_rows_erase(group_final_row_list(ls, visible));
}

} // verus!

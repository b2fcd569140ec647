//! The texts the spinners write, spelled out character by character, and
//! the numbers in them read back as values.
use vstd::prelude::*;

use crate::multi::{
    final_drawing_text, final_row, frame_row, group_final_text, group_frame_text, next_frame_idx,
    shown_count, vacated, LineView, StatusView,
};
use crate::shared::{decimal, digit_char, Outcome};
use crate::shared::braille_frames;
use crate::spinner::{after_tick, finish_text, stop_text, tick_text, with_message, SpinnerStateView};

verus! {

/// The value of a string of decimal digits, most significant first.
pub open spec fn digits_value(s: Seq<char>) -> int
    decreases s.len(),
{
    if s.len() == 0 {
        0
    } else {
        digits_value(s.drop_last()) * 10 + (s.last() as int - 48)
    }
}

/// The decimal notation of a number is a non-empty string of digits that
/// reads back as the number, with no leading zero.
pub proof fn law_decimal_reads_back(n: nat)
    ensures
        decimal(n).len() >= 1,
        forall|i: int| 0 <= i < decimal(n).len() ==> 48 <= #[trigger] decimal(n)[i] as int <= 57,
        digits_value(decimal(n)) == n,
        n > 0 ==> decimal(n)[0] != '0',
    decreases n,
{
    assert(digit_char(n % 10) as int == 48 + n % 10);
    assert('0' as int == 48);
    if n >= 10 {
        law_decimal_reads_back(n / 10);
        let d = decimal(n);
        assert(d.drop_last() =~= decimal(n / 10));
        assert(d[0] == decimal(n / 10)[0]);
        assert forall|i: int| 0 <= i < d.len() implies 48 <= #[trigger] d[i] as int <= 57 by {
            if i < d.len() - 1 {
                assert(d[i] == decimal(n / 10)[i]);
            }
        }
        vstd::arithmetic::div_mod::lemma_fundamental_div_mod(n as int, 10);
        assert(d.last() == digit_char(n % 10));
        assert(digits_value(d) == digits_value(decimal(n / 10)) * 10 + (n % 10));
        assert((n / 10) * 10 + n % 10 == n) by (nonlinear_arith)
            requires
                (n as int) == 10 * (n as int / 10) + (n as int % 10),
        ;
    } else {
        assert(n % 10 == n);
        let d = decimal(n);
        assert(d.drop_last() =~= Seq::<char>::empty());
        assert(digits_value(d.drop_last()) == 0);
        assert(d.last() == digit_char(n));
    }
}

/// The frame counter of a group counts up by one per animation step and
/// wraps to zero only after the largest `usize`.
pub proof fn law_frame_counter_counts_up(i: nat)
    ensures
        i < usize::MAX ==> next_frame_idx(i) == i + 1,
        i == usize::MAX ==> next_frame_idx(i) == 0,
{
}

/// The frame counter after `k` steps from a fresh group.
pub open spec fn frame_idx_after(k: nat) -> nat
    decreases k,
{
    if k == 0 {
        0
    } else {
        next_frame_idx(frame_idx_after((k - 1) as nat))
    }
}

/// After `k` animation steps from a fresh group the counter is `k`, so
/// step `k` draws frame `k % 10`: every frame of the set in turn.
pub proof fn law_frame_counter_after_steps(k: nat)
    requires
        k <= usize::MAX,
    ensures
        frame_idx_after(k) == k,
    decreases k,
{
    if k > 0 {
        law_frame_counter_after_steps((k - 1) as nat);
    }
}

/// Every row of an animation frame, spelled out: an active line shows
/// `\r`, the erase code, the frame character, a space, its message and a
/// newline; a successful line a green check mark and a failed line a red
/// cross, before the message it was finalized with; a cleared line nothing.
pub proof fn law_frame_row_spelled(l: LineView, c: char)
    ensures
        l.status is Active ==> frame_row(l, c) == seq!['\r', '\x1b', '[', '2', 'K', c, ' ']
            + l.message + seq!['\n'],
        l.status is Succeeded ==> frame_row(l, c) == seq![
            '\r',
            '\x1b',
            '[',
            '2',
            'K',
            '\x1b',
            '[',
            '3',
            '2',
            'm',
            '\u{2714}',
            '\x1b',
            '[',
            '0',
            'm',
            ' ',
        ] + l.message + seq!['\n'],
        l.status matches StatusView::SucceededWith(m) ==> frame_row(l, c) == seq![
            '\r',
            '\x1b',
            '[',
            '2',
            'K',
            '\x1b',
            '[',
            '3',
            '2',
            'm',
            '\u{2714}',
            '\x1b',
            '[',
            '0',
            'm',
            ' ',
        ] + m + seq!['\n'],
        l.status is Failed ==> frame_row(l, c) == seq![
            '\r',
            '\x1b',
            '[',
            '2',
            'K',
            '\x1b',
            '[',
            '3',
            '1',
            'm',
            '\u{2716}',
            '\x1b',
            '[',
            '0',
            'm',
            ' ',
        ] + l.message + seq!['\n'],
        l.status matches StatusView::FailedWith(m) ==> frame_row(l, c) == seq![
            '\r',
            '\x1b',
            '[',
            '2',
            'K',
            '\x1b',
            '[',
            '3',
            '1',
            'm',
            '\u{2716}',
            '\x1b',
            '[',
            '0',
            'm',
            ' ',
        ] + m + seq!['\n'],
        l.status is Cleared ==> frame_row(l, c) == Seq::<char>::empty(),
{
    match l.status {
        StatusView::Active => {
            assert(frame_row(l, c) =~= seq!['\r', '\x1b', '[', '2', 'K', c, ' '] + l.message
                + seq!['\n']);
        },
        StatusView::Succeeded => {
            assert(frame_row(l, c) =~= success_prefix() + l.message + seq!['\n']);
        },
        StatusView::SucceededWith(m) => {
            assert(frame_row(l, c) =~= success_prefix() + m + seq!['\n']);
        },
        StatusView::Failed => {
            assert(frame_row(l, c) =~= failure_prefix() + l.message + seq!['\n']);
        },
        StatusView::FailedWith(m) => {
            assert(frame_row(l, c) =~= failure_prefix() + m + seq!['\n']);
        },
        StatusView::Cleared => {},
    }
}

spec fn success_prefix() -> Seq<char> {
    seq![
        '\r',
        '\x1b',
        '[',
        '2',
        'K',
        '\x1b',
        '[',
        '3',
        '2',
        'm',
        '\u{2714}',
        '\x1b',
        '[',
        '0',
        'm',
        ' ',
    ]
}

spec fn failure_prefix() -> Seq<char> {
    seq![
        '\r',
        '\x1b',
        '[',
        '2',
        'K',
        '\x1b',
        '[',
        '3',
        '1',
        'm',
        '\u{2716}',
        '\x1b',
        '[',
        '0',
        'm',
        ' ',
    ]
}

/// Every row of the last drawing, spelled out: an active line is only
/// erased (`\r`, the erase code, a newline); a successful line shows a
/// green check mark and a failed line a red cross before the message it
/// was finalized with; a cleared line nothing.
pub proof fn law_final_row_spelled(l: LineView)
    ensures
        l.status is Active ==> final_row(l) == seq!['\r', '\x1b', '[', '2', 'K', '\n'],
        l.status is Succeeded ==> final_row(l) == seq![
            '\r',
            '\x1b',
            '[',
            '2',
            'K',
            '\x1b',
            '[',
            '3',
            '2',
            'm',
            '\u{2714}',
            '\x1b',
            '[',
            '0',
            'm',
            ' ',
        ] + l.message + seq!['\n'],
        l.status matches StatusView::SucceededWith(m) ==> final_row(l) == seq![
            '\r',
            '\x1b',
            '[',
            '2',
            'K',
            '\x1b',
            '[',
            '3',
            '2',
            'm',
            '\u{2714}',
            '\x1b',
            '[',
            '0',
            'm',
            ' ',
        ] + m + seq!['\n'],
        l.status is Failed ==> final_row(l) == seq![
            '\r',
            '\x1b',
            '[',
            '2',
            'K',
            '\x1b',
            '[',
            '3',
            '1',
            'm',
            '\u{2716}',
            '\x1b',
            '[',
            '0',
            'm',
            ' ',
        ] + l.message + seq!['\n'],
        l.status matches StatusView::FailedWith(m) ==> final_row(l) == seq![
            '\r',
            '\x1b',
            '[',
            '2',
            'K',
            '\x1b',
            '[',
            '3',
            '1',
            'm',
            '\u{2716}',
            '\x1b',
            '[',
            '0',
            'm',
            ' ',
        ] + m + seq!['\n'],
        l.status is Cleared ==> final_row(l) == Seq::<char>::empty(),
{
    match l.status {
        StatusView::Active => {
            assert(final_row(l) =~= seq!['\r', '\x1b', '[', '2', 'K', '\n']);
        },
        StatusView::Succeeded => {
            assert(final_row(l) =~= success_prefix() + l.message + seq!['\n']);
        },
        StatusView::SucceededWith(m) => {
            assert(final_row(l) =~= success_prefix() + m + seq!['\n']);
        },
        StatusView::Failed => {
            assert(final_row(l) =~= failure_prefix() + l.message + seq!['\n']);
        },
        StatusView::FailedWith(m) => {
            assert(final_row(l) =~= failure_prefix() + m + seq!['\n']);
        },
        StatusView::Cleared => {},
    }
}

/// Finishing a single spinner, spelled out for every message: on a
/// terminal the spinner line is erased (`\r` and the erase code), then the
/// whole message follows a green check mark or a red cross on an erased
/// line; off a terminal only the mark, a space, the whole message and a
/// newline are written.
pub proof fn law_finish_spelled(m: Seq<char>)
    ensures
        finish_text(true, Outcome::Success, m) == seq!['\r', '\x1b', '[', '2', 'K'] + seq![
            '\r',
            '\x1b',
            '[',
            '2',
            'K',
            '\x1b',
            '[',
            '3',
            '2',
            'm',
            '\u{2714}',
            '\x1b',
            '[',
            '0',
            'm',
            ' ',
        ] + m + seq!['\n'],
        finish_text(true, Outcome::Failure, m) == seq!['\r', '\x1b', '[', '2', 'K'] + seq![
            '\r',
            '\x1b',
            '[',
            '2',
            'K',
            '\x1b',
            '[',
            '3',
            '1',
            'm',
            '\u{2716}',
            '\x1b',
            '[',
            '0',
            'm',
            ' ',
        ] + m + seq!['\n'],
        finish_text(false, Outcome::Success, m) == seq!['\u{2714}', ' '] + m + seq!['\n'],
        finish_text(false, Outcome::Failure, m) == seq!['\u{2716}', ' '] + m + seq!['\n'],
{
    assert(finish_text(true, Outcome::Success, m) =~= seq!['\r', '\x1b', '[', '2', 'K']
        + success_prefix() + m + seq!['\n']);
    assert(finish_text(true, Outcome::Failure, m) =~= seq!['\r', '\x1b', '[', '2', 'K']
        + failure_prefix() + m + seq!['\n']);
    assert(finish_text(false, Outcome::Success, m) =~= seq!['\u{2714}', ' '] + m + seq!['\n']);
    assert(finish_text(false, Outcome::Failure, m) =~= seq!['\u{2716}', ' '] + m + seq!['\n']);
}

/// An animation frame starts by going up exactly the rows the last frame
/// drew: `ESC [`, the decimal notation of that count, `A`. When rows are left over
/// it ends by going back up exactly over them.
pub proof fn law_frame_moves_over_last_rows(ls: Seq<LineView>, c: char, prev: nat)
    ensures
        prev > 0 ==> group_frame_text(ls, c, prev).subrange(0, decimal(prev).len() + 3int)
            == seq!['\x1b', '['] + decimal(prev) + seq!['A'],
        prev > shown_count(ls) ==> {
            let v = vacated(prev, shown_count(ls));
            let t = group_frame_text(ls, c, prev);
            t.subrange(t.len() - (decimal(v).len() + 3), t.len() as int) == seq!['\x1b', '[']
                + decimal(v) + seq!['A']
        },
{
    let t = group_frame_text(ls, c, prev);
    if prev > 0 {
        let up = seq!['\x1b', '['] + decimal(prev) + seq!['A'];
        assert(t.subrange(0, up.len() as int) =~= up);
    }
    if prev > shown_count(ls) {
        let v = vacated(prev, shown_count(ls));
        let down = seq!['\x1b', '['] + decimal(v) + seq!['A'];
        assert(t.subrange(t.len() - down.len(), t.len() as int) =~= down);
    }
}

/// The last drawing of a group on a terminal whose last frame drew rows
/// starts by going up exactly those rows: `ESC [`, the decimal notation of
/// the count, `A`. Off a terminal, or with no row drawn, it writes nothing.
pub proof fn law_final_drawing_moves_over_last_rows(ls: Seq<LineView>, is_tty: bool, visible: nat)
    ensures
        is_tty && visible > 0 ==> final_drawing_text(ls, is_tty, visible).subrange(
            0,
            decimal(visible).len() + 3int,
        ) == seq!['\x1b', '['] + decimal(visible) + seq!['A'],
        !is_tty || visible == 0 ==> final_drawing_text(ls, is_tty, visible) == Seq::<char>::empty(),
{
    if is_tty && visible > 0 {
        let t = group_final_text(ls, visible);
        let up = seq!['\x1b', '['] + decimal(visible) + seq!['A'];
        assert(t.subrange(0, up.len() as int) =~= up);
    }
}

/// The animation set is the ten Braille dots in order, all different.
pub proof fn law_braille_frames_spelled()
    ensures
        braille_frames() == seq![
            '\u{280b}',
            '\u{2819}',
            '\u{2839}',
            '\u{2838}',
            '\u{283c}',
            '\u{2834}',
            '\u{2826}',
            '\u{2827}',
            '\u{2807}',
            '\u{280f}',
        ],
        forall|i: int, j: int|
            0 <= i < 10 && 0 <= j < 10 && i != j ==> braille_frames()[i] != braille_frames()[j],
{
}

/// One step of a single spinner, spelled out: back to the line start,
/// the erase code, the current frame character, a space and the current
/// message; the next step shows the next frame, wrapping round after the
/// last, and nothing else changes. Stopping erases the line on a terminal
/// and writes nothing otherwise; replacing the message changes only it.
pub proof fn law_spinner_step_spelled(v: SpinnerStateView, m: Seq<char>)
    requires
        v.frames.len() > 0,
        v.frame < v.frames.len(),
    ensures
        tick_text(v) == seq!['\r', '\x1b', '[', '2', 'K', v.frames[v.frame as int], ' '] + v.message,
        after_tick(v).frame == if v.frame + 1 == v.frames.len() {
            0
        } else {
            v.frame + 1
        },
        after_tick(v).message == v.message && after_tick(v).frames == v.frames && after_tick(v).is_tty
            == v.is_tty && after_tick(v).running == v.running && after_tick(v).interval_ms
            == v.interval_ms,
        stop_text(true) == seq!['\r', '\x1b', '[', '2', 'K'],
        stop_text(false) == Seq::<char>::empty(),
        with_message(v, m).message == m && with_message(v, m).frame == v.frame
            && with_message(v, m).frames == v.frames && with_message(v, m).is_tty == v.is_tty
            && with_message(v, m).running == v.running,
{
    assert(tick_text(v) =~= seq!['\r', '\x1b', '[', '2', 'K', v.frames[v.frame as int], ' ']
        + v.message);
    assert(stop_text(true) =~= seq!['\r', '\x1b', '[', '2', 'K']);
    if v.frame + 1 == v.frames.len() {
        vstd::arithmetic::div_mod::lemma_mod_self_0(v.frames.len() as int);
    } else {
        vstd::arithmetic::div_mod::lemma_small_mod(v.frame + 1, v.frames.len());
    }
}

} // verus!

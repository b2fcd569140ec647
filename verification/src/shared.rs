//! Escape codes, the frame set and the text of every line the spinners write.
use vstd::prelude::*;

verus! {

/// ANSI code that switches the foreground colour to green.
pub const GREEN: &'static str = "\x1b[32m";

/// ANSI code that switches the foreground colour to red.
pub const RED: &'static str = "\x1b[31m";

/// ANSI code that switches the foreground colour to yellow.
pub const YELLOW: &'static str = "\x1b[33m";

/// ANSI code that switches the foreground colour to blue.
pub const BLUE: &'static str = "\x1b[34m";

/// ANSI code that resets every colour attribute.
pub const RESET: &'static str = "\x1b[0m";

/// ANSI code that erases the whole line the cursor is on.
pub const CLEAR_LINE: &'static str = "\x1b[2K";

/// The symbol printed in front of a successful line.
pub const SUCCESS_SYMBOL: &'static str = "\u{2714}";

/// The symbol printed in front of a failed line.
pub const FAILURE_SYMBOL: &'static str = "\u{2716}";

/// The escape character that starts every ANSI sequence.
pub open spec fn esc() -> char {
    '\x1b'
}

pub open spec fn green_code() -> Seq<char> {
    seq![esc(), '[', '3', '2', 'm']
}

pub open spec fn red_code() -> Seq<char> {
    seq![esc(), '[', '3', '1', 'm']
}

pub open spec fn yellow_code() -> Seq<char> {
    seq![esc(), '[', '3', '3', 'm']
}

pub open spec fn blue_code() -> Seq<char> {
    seq![esc(), '[', '3', '4', 'm']
}

pub open spec fn reset_code() -> Seq<char> {
    seq![esc(), '[', '0', 'm']
}

pub open spec fn clear_line_code() -> Seq<char> {
    seq![esc(), '[', '2', 'K']
}

pub open spec fn success_symbol() -> Seq<char> {
    seq!['\u{2714}']
}

pub open spec fn failure_symbol() -> Seq<char> {
    seq!['\u{2716}']
}

/// What each named constant holds.
pub proof fn lemma_codes()
    ensures
        GREEN@ == green_code(),
        RED@ == red_code(),
        YELLOW@ == yellow_code(),
        BLUE@ == blue_code(),
        RESET@ == reset_code(),
        CLEAR_LINE@ == clear_line_code(),
        SUCCESS_SYMBOL@ == success_symbol(),
        FAILURE_SYMBOL@ == failure_symbol(),
{
    reveal_strlit("\x1b[32m");
    reveal_strlit("\x1b[31m");
    reveal_strlit("\x1b[33m");
    reveal_strlit("\x1b[34m");
    reveal_strlit("\x1b[0m");
    reveal_strlit("\x1b[2K");
    reveal_strlit("\u{2714}");
    reveal_strlit("\u{2716}");
    assert(GREEN@ =~= green_code());
    assert(RED@ =~= red_code());
    assert(YELLOW@ =~= yellow_code());
    assert(BLUE@ =~= blue_code());
    assert(RESET@ =~= reset_code());
    assert(CLEAR_LINE@ =~= clear_line_code());
    assert(SUCCESS_SYMBOL@ =~= success_symbol());
    assert(FAILURE_SYMBOL@ =~= failure_symbol());
}

/// The Braille-dot animation, in the order it is shown.
pub open spec fn braille_frames() -> Seq<char> {
    seq![
        '\u{280b}',
        '\u{2819}',
        '\u{2839}',
        '\u{2838}',
        '\u{283c}',
        '\u{2834}',
        '\u{2826}',
        '\u{2827}',
        '\u{2807}',
        '\u{280f}',
    ]
}

/// The default frame set, a fresh vector of the ten Braille dots.
pub fn default_frames() -> (frames: Vec<char>)
    ensures
        frames@ == braille_frames(),
{
    vec![
        '\u{280b}',
        '\u{2819}',
        '\u{2839}',
        '\u{2838}',
        '\u{283c}',
        '\u{2834}',
        '\u{2826}',
        '\u{2827}',
        '\u{2807}',
        '\u{280f}',
    ]
}

/// `String::push` (std) is taken to append exactly the given character to the
/// string's characters and to change nothing else.
pub assume_specification[ String::push ](s: &mut String, ch: char)
    ensures
        final(s)@ == old(s)@.push(ch),
;

/// One animation frame of a single spinner: return to the line start,
/// erase it, then the frame character, a space and the message.
pub open spec fn frame_text(frame_char: char, message: Seq<char>) -> Seq<char> {
    seq!['\r'] + clear_line_code() + seq![frame_char, ' '] + message
}

/// A finalized line on a terminal: erase, coloured symbol, reset, message, newline.
pub open spec fn finalize_text(symbol: Seq<char>, color: Seq<char>, message: Seq<char>) -> Seq<char> {
    seq!['\r'] + clear_line_code() + color + symbol + reset_code() + seq![' '] + message + seq!['\n']
}

/// A finalized line in plain (non-terminal) mode: symbol, space, message, newline.
pub open spec fn plain_text(symbol: Seq<char>, message: Seq<char>) -> Seq<char> {
    symbol + seq![' '] + message + seq!['\n']
}

/// Formats one animation frame.
pub fn format_frame(frame_char: char, message: &str) -> (out: String)
    ensures
        out@ == frame_text(frame_char, message@),
{
    proof {
        lemma_codes();
    }
    let mut out = String::new();
    out.push('\r');
    out.append(CLEAR_LINE);
    out.push(frame_char);
    out.push(' ');
    out.append(message);
    assert(out@ =~= frame_text(frame_char, message@));
    out
}

/// Formats a finalized line for a terminal.
pub fn format_finalize(symbol: &str, color: &str, message: &str) -> (out: String)
    ensures
        out@ == finalize_text(symbol@, color@, message@),
{
    proof {
        lemma_codes();
    }
    let mut out = String::new();
    out.push('\r');
    out.append(CLEAR_LINE);
    out.append(color);
    out.append(symbol);
    out.append(RESET);
    out.push(' ');
    out.append(message);
    out.push('\n');
    assert(out@ =~= finalize_text(symbol@, color@, message@));
    out
}

/// Formats a finalized line in plain mode.
pub fn format_finalize_plain(symbol: &str, message: &str) -> (out: String)
    ensures
        out@ == plain_text(symbol@, message@),
{
    let mut out = String::new();
    out.append(symbol);
    out.push(' ');
    out.append(message);
    out.push('\n');
    assert(out@ =~= plain_text(symbol@, message@));
    out
}

/// How a spinner or a spinner line ends.
#[derive(Clone, Copy, Debug, PartialEq, Eq)]
pub enum Outcome {
    /// A green check mark.
    Success,
    /// A red cross.
    Failure,
}

impl Outcome {
    pub open spec fn symbol_text(self) -> Seq<char> {
        match self {
            Outcome::Success => success_symbol(),
            Outcome::Failure => failure_symbol(),
        }
    }

    pub open spec fn color_text(self) -> Seq<char> {
        match self {
            Outcome::Success => green_code(),
            Outcome::Failure => red_code(),
        }
    }

    /// The symbol shown for this outcome.
    pub fn symbol(&self) -> (s: &'static str)
        ensures
            s@ == self.symbol_text(),
    {
        proof {
            lemma_codes();
        }
        match self {
            Outcome::Success => SUCCESS_SYMBOL,
            Outcome::Failure => FAILURE_SYMBOL,
        }
    }

    /// The colour the symbol is shown in on a terminal.
    pub fn color(&self) -> (c: &'static str)
        ensures
            c@ == self.color_text(),
    {
        proof {
            lemma_codes();
        }
        match self {
            Outcome::Success => GREEN,
            Outcome::Failure => RED,
        }
    }
}

/// The text a finalized line shows for an outcome: coloured on a terminal, plain otherwise.
pub open spec fn outcome_text(is_tty: bool, outcome: Outcome, message: Seq<char>) -> Seq<char> {
    if is_tty {
        finalize_text(outcome.symbol_text(), outcome.color_text(), message)
    } else {
        plain_text(outcome.symbol_text(), message)
    }
}

/// Formats the finalized line for an outcome, coloured or plain.
pub fn format_outcome(is_tty: bool, outcome: Outcome, message: &str) -> (out: String)
    ensures
        out@ == outcome_text(is_tty, outcome, message@),
{
    if is_tty {
        format_finalize(outcome.symbol(), outcome.color(), message)
    } else {
        format_finalize_plain(outcome.symbol(), message)
    }
}

/// The character of a decimal digit.
pub open spec fn digit_char(d: nat) -> char {
    (48 + d) as char
}

/// The decimal notation of a natural number, most significant digit first.
pub open spec fn decimal(n: nat) -> Seq<char>
    decreases n,
{
    if n < 10 {
        seq![digit_char(n)]
    } else {
        decimal(n / 10).push(digit_char(n % 10))
    }
}

/// Appends the decimal notation of `n`.
pub fn push_decimal(out: &mut String, n: usize)
    ensures
        final(out)@ == old(out)@ + decimal(n as nat),
    decreases n,
{
    if n >= 10 {
        push_decimal(out, n / 10);
    }
    let d: u8 = (n % 10) as u8;
    out.push((48u8 + d) as char);
    assert(final(out)@ =~= old(out)@ + decimal(n as nat));
}

/// The ANSI sequence that moves the cursor up `n` rows.
pub open spec fn cursor_up_text(n: nat) -> Seq<char> {
    seq![esc(), '['] + decimal(n) + seq!['A']
}

/// Appends the ANSI sequence that moves the cursor up `n` rows.
pub fn push_cursor_up(out: &mut String, n: usize)
    ensures
        final(out)@ == old(out)@ + cursor_up_text(n as nat),
{
    out.push('\x1b');
    out.push('[');
    push_decimal(out, n);
    out.push('A');
    assert(final(out)@ =~= old(out)@ + cursor_up_text(n as nat));
}

/// Plain finalized text holds no character other than the space and the
/// newline that neither the symbol nor the message holds: no escape sequence
/// and no carriage return unless the message brings one.
pub proof fn law_plain_text_avoids(symbol: Seq<char>, message: Seq<char>, c: char)
    requires
        c != ' ',
        c != '\n',
        !symbol.contains(c),
        !message.contains(c),
    ensures
        !plain_text(symbol, message).contains(c),
{
    let t = plain_text(symbol, message);
    assert forall|i: int| 0 <= i < t.len() implies t[i] != c by {
        if i < symbol.len() {
            assert(t[i] == symbol[i]);
        } else if i == symbol.len() {
        } else if i < symbol.len() + 1 + message.len() {
            assert(t[i] == message[i - symbol.len() - 1]);
        }
    }
}

/// Neither outcome symbol holds an escape character, a carriage return, a
/// space or a newline.
pub proof fn lemma_symbols_are_plain(outcome: Outcome)
    ensures
        !outcome.symbol_text().contains(esc()),
        !outcome.symbol_text().contains('\r'),
{
    let t = outcome.symbol_text();
    assert(t.len() == 1);
    assert(forall|i: int| 0 <= i < t.len() ==> t[i] != esc() && t[i] != '\r');
}

/// The number of times a character occurs in a text.
pub open spec fn char_count(s: Seq<char>, c: char) -> nat
    decreases s.len(),
{
    if s.len() == 0 {
        0
    } else {
        char_count(s.drop_last(), c) + if s.last() == c {
            1nat
        } else {
            0nat
        }
    }
}

/// Counting a character over a concatenation adds up.
pub proof fn lemma_char_count_append(a: Seq<char>, b: Seq<char>, c: char)
    ensures
        char_count(a + b, c) == char_count(a, c) + char_count(b, c),
    decreases b.len(),
{
    if b.len() == 0 {
        assert(a + b =~= a);
    } else {
        lemma_char_count_append(a, b.drop_last(), c);
        assert((a + b).drop_last() =~= a + b.drop_last());
    }
}

/// A character that does not occur is counted zero times.
pub proof fn lemma_char_count_absent(s: Seq<char>, c: char)
    requires
        forall|i: int| 0 <= i < s.len() ==> s[i] != c,
    ensures
        char_count(s, c) == 0,
    decreases s.len(),
{
    if s.len() > 0 {
        lemma_char_count_absent(s.drop_last(), c);
    }
}

/// Whether an erase sequence starts at position `i` of a text.
pub open spec fn erase_at(s: Seq<char>, i: int) -> bool {
    0 <= i && i + 4 <= s.len() && s.subrange(i, i + 4) == clear_line_code()
}

/// The number of erase sequences in a text, each counted where it ends.
pub open spec fn erase_count(s: Seq<char>) -> nat
    decreases s.len(),
{
    if s.len() == 0 {
        0
    } else {
        erase_count(s.drop_last()) + if erase_at(s, s.len() - 4) {
            1nat
        } else {
            0nat
        }
    }
}

/// A character an erase sequence can hold before its last one.
pub open spec fn erase_head(c: char) -> bool {
    c == esc() || c == '[' || c == '2'
}

/// A character an erase sequence can hold after its first one.
pub open spec fn erase_tail(c: char) -> bool {
    c == '[' || c == '2' || c == 'K'
}

/// Erase sequences over a concatenation add up when none can span the
/// seam: the first part does not end inside one, or the second does not
/// go on with one.
pub proof fn lemma_erase_count_append(a: Seq<char>, b: Seq<char>)
    requires
        a.len() == 0 || b.len() == 0 || !erase_head(a.last()) || !erase_tail(b[0]),
    ensures
        erase_count(a + b) == erase_count(a) + erase_count(b),
    decreases b.len(),
{
    if b.len() == 0 {
        assert(a + b =~= a);
    } else {
        if b.len() > 1 {
            assert(b.drop_last()[0] == b[0]);
        }
        lemma_erase_count_append(a, b.drop_last());
        let s = a + b;
        assert(s.drop_last() =~= a + b.drop_last());
        let e = s.len() - 4;
        if b.len() >= 4 {
            assert(s.subrange(e, e + 4) =~= b.subrange(b.len() - 4, b.len() as int));
        } else if erase_at(s, e) && a.len() > 0 {
            let k = a.len() - e;
            let w = s.subrange(e, e + 4);
            assert(w[k - 1] == a.last());
            assert(w[k] == b[0]);
            assert(clear_line_code()[0] == esc());
            assert(clear_line_code()[1] == '[');
            assert(clear_line_code()[2] == '2');
            assert(clear_line_code()[3] == 'K');
        }
    }
}

/// A concatenation holds at least the erase sequences of its parts, whatever
/// the parts are: one spanning the seam can only add to them.
pub proof fn lemma_erase_count_concat_at_least(a: Seq<char>, b: Seq<char>)
    ensures
        erase_count(a + b) >= erase_count(a) + erase_count(b),
    decreases b.len(),
{
    if b.len() == 0 {
        assert(a + b =~= a);
    } else {
        lemma_erase_count_concat_at_least(a, b.drop_last());
        let s = a + b;
        assert(s.drop_last() =~= a + b.drop_last());
        if erase_at(b, b.len() - 4) {
            let e = s.len() - 4;
            assert(s.subrange(e, e + 4) =~= b.subrange(b.len() - 4, b.len() as int));
        }
    }
}

/// A text without the letter `K` holds no erase sequence.
pub proof fn lemma_erase_count_without_k(s: Seq<char>)
    requires
        forall|i: int| 0 <= i < s.len() ==> s[i] != 'K',
    ensures
        erase_count(s) == 0,
    decreases s.len(),
{
    if s.len() > 0 {
        lemma_erase_count_without_k(s.drop_last());
        if erase_at(s, s.len() - 4) {
            assert(s.subrange(s.len() - 4, s.len() as int)[3] == s[s.len() - 1]);
            assert(clear_line_code()[3] == 'K');
        }
    }
}

/// The erase code is one erase sequence.
pub proof fn lemma_erase_count_clear_line()
    ensures
        erase_count(clear_line_code()) == 1,
{
    let c = clear_line_code();
    lemma_erase_count_without_k(c.drop_last());
    assert(c.subrange(0, 4) =~= c);
}

/// Every character of a decimal notation is a digit.
pub proof fn lemma_decimal_digits(n: nat)
    ensures
        forall|i: int| 0 <= i < decimal(n).len() ==> 48 <= #[trigger] decimal(n)[i] as int <= 57,
    decreases n,
{
    assert(digit_char(n % 10) as int == 48 + n % 10);
    if n >= 10 {
        lemma_decimal_digits(n / 10);
        assert(decimal(n).drop_last() =~= decimal(n / 10));
    } else {
        assert(n % 10 == n);
    }
}

/// A cursor-up sequence holds no erase sequence and no character beyond
/// the escape, the bracket, digits and `A`.
pub proof fn lemma_cursor_up_plain(n: nat)
    ensures
        forall|i: int|
            0 <= i < cursor_up_text(n).len() ==> {
                let ch = #[trigger] cursor_up_text(n)[i];
                ch == esc() || ch == '[' || ch == 'A' || 48 <= ch as int <= 57
            },
        erase_count(cursor_up_text(n)) == 0,
        cursor_up_text(n)[0] == esc(),
        cursor_up_text(n).last() == 'A',
{
    lemma_decimal_digits(n);
    let t = cursor_up_text(n);
    assert forall|i: int| 0 <= i < t.len() implies {
        let ch = #[trigger] t[i];
        ch == esc() || ch == '[' || ch == 'A' || 48 <= ch as int <= 57
    } by {
        if 2 <= i < t.len() - 1 {
            assert(t[i] == decimal(n)[i - 2]);
        }
    }
    assert forall|i: int| 0 <= i < t.len() implies t[i] != 'K' by {
        assert('K' as int == 75);
    }
    lemma_erase_count_without_k(t);
}

} // verus!

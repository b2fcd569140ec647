//! A single spinner: its builder and the state its animation and
//! finalization go through.
use vstd::prelude::*;

use crate::shared::{
    braille_frames, clear_line_code, default_frames, esc, format_frame, format_outcome,
    frame_text, law_plain_text_avoids, lemma_codes, lemma_symbols_are_plain, outcome_text,
    Outcome, CLEAR_LINE,
};

verus! {

/// The time between two animation frames, in milliseconds.
pub const FRAME_INTERVAL_MS: u64 = 80;

/// What a spinner builder holds, apart from its writer.
pub struct SpinnerConfig {
    pub message: Seq<char>,
    pub frames: Seq<char>,
    pub interval_ms: u64,
    pub is_tty: bool,
}

/// A builder for one spinner: its message, frames, frame interval, the
/// writer its output goes to, and whether that writer is a terminal.
pub struct Spinner<W> {
    message: String,
    frames: Vec<char>,
    interval_ms: u64,
    writer: W,
    is_tty: bool,
}

impl<W> View for Spinner<W> {
    type V = SpinnerConfig;

    closed spec fn view(&self) -> SpinnerConfig {
        SpinnerConfig {
            message: self.message@,
            frames: self.frames@,
            interval_ms: self.interval_ms,
            is_tty: self.is_tty,
        }
    }
}

impl<W> Spinner<W> {
    #[verifier::type_invariant]
    spec fn inv(self) -> bool {
        self.frames.len() > 0
    }

    /// The writer the spinner was built with.
    pub closed spec fn writer_spec(&self) -> W {
        self.writer
    }

    /// A spinner for a custom writer, which is taken not to be a terminal.
    pub fn with_writer(message: &str, writer: W) -> (s: Self)
        ensures
            s@ == (SpinnerConfig {
                message: message@,
                frames: braille_frames(),
                interval_ms: FRAME_INTERVAL_MS,
                is_tty: false,
            }),
            s.writer_spec() == writer,
    {
        Spinner {
            message: message.to_owned(),
            frames: default_frames(),
            interval_ms: FRAME_INTERVAL_MS,
            is_tty: false,
            writer,
        }
    }

    /// A spinner for a custom writer, with an explicit choice of terminal mode.
    pub fn with_writer_tty(message: &str, writer: W, is_tty: bool) -> (s: Self)
        ensures
            s@ == (SpinnerConfig {
                message: message@,
                frames: braille_frames(),
                interval_ms: FRAME_INTERVAL_MS,
                is_tty,
            }),
            s.writer_spec() == writer,
    {
        Spinner {
            message: message.to_owned(),
            frames: default_frames(),
            interval_ms: FRAME_INTERVAL_MS,
            is_tty,
            writer,
        }
    }

    /// The message the spinner starts with.
    pub fn message(&self) -> (m: &str)
        ensures
            m@ == self@.message,
    {
        self.message.as_str()
    }

    /// The animation frames.
    pub fn frames(&self) -> (f: &Vec<char>)
        ensures
            f@ == self@.frames,
    {
        &self.frames
    }

    /// The time between two frames, in milliseconds.
    pub fn interval_millis(&self) -> (ms: u64)
        ensures
            ms == self@.interval_ms,
    {
        self.interval_ms
    }

    /// Whether the output is treated as a terminal.
    pub fn is_tty(&self) -> (b: bool)
        ensures
            b == self@.is_tty,
    {
        self.is_tty
    }

    /// Starts the spinner: the state it runs with, and its writer handed back.
    /// Only a terminal spinner animates; a plain one is stopped from the start.
    pub fn into_state(self) -> (r: (SpinnerState, W))
        ensures
            r.0@ == (SpinnerStateView {
                message: self@.message,
                frames: self@.frames,
                frame: 0,
                interval_ms: self@.interval_ms,
                is_tty: self@.is_tty,
                running: self@.is_tty,
            }),
            r.1 == self.writer_spec(),
    {
        proof {
            use_type_invariant(&self);
        }
        let Spinner { message, frames, interval_ms, writer, is_tty } = self;
        let state = SpinnerState { message, frames, frame: 0, interval_ms, is_tty, running: is_tty };
        (state, writer)
    }
}

/// What a started spinner holds: its message, its frames and the one shown
/// next, its frame interval, its mode, and whether it still animates.
pub struct SpinnerStateView {
    pub message: Seq<char>,
    pub frames: Seq<char>,
    pub frame: nat,
    pub interval_ms: u64,
    pub is_tty: bool,
    pub running: bool,
}

/// A started spinner.
pub struct SpinnerState {
    message: String,
    frames: Vec<char>,
    frame: usize,
    interval_ms: u64,
    is_tty: bool,
    running: bool,
}

impl View for SpinnerState {
    type V = SpinnerStateView;

    closed spec fn view(&self) -> SpinnerStateView {
        SpinnerStateView {
            message: self.message@,
            frames: self.frames@,
            frame: self.frame as nat,
            interval_ms: self.interval_ms,
            is_tty: self.is_tty,
            running: self.running,
        }
    }
}

/// The text of one animation step: the current frame with the current message.
pub open spec fn tick_text(v: SpinnerStateView) -> Seq<char> {
    frame_text(v.frames[v.frame as int], v.message)
}

/// The state after one animation step: the next frame, wrapping round.
pub open spec fn after_tick(v: SpinnerStateView) -> SpinnerStateView {
    SpinnerStateView { frame: (v.frame + 1) % v.frames.len(), ..v }
}

/// The state after its message is replaced.
pub open spec fn with_message(v: SpinnerStateView, m: Seq<char>) -> SpinnerStateView {
    SpinnerStateView { message: m, ..v }
}

/// What stopping writes: on a terminal the spinner line is erased, otherwise nothing.
pub open spec fn stop_text(is_tty: bool) -> Seq<char> {
    if is_tty {
        seq!['\r'] + clear_line_code()
    } else {
        Seq::empty()
    }
}

/// What finishing a spinner writes: the stop text, then the finalized line.
pub open spec fn finish_text(is_tty: bool, outcome: Outcome, message: Seq<char>) -> Seq<char> {
    stop_text(is_tty) + outcome_text(is_tty, outcome, message)
}

impl SpinnerState {
    #[verifier::type_invariant]
    spec fn inv(self) -> bool {
        &&& self.frames.len() > 0
        &&& self.frame < self.frames.len()
    }

    /// The frames are never empty and the next frame is one of them.
    pub fn frame_index(&self) -> (i: usize)
        ensures
            i == self@.frame,
            i < self@.frames.len(),
    {
        proof {
            use_type_invariant(self);
        }
        self.frame
    }

    /// Whether the animation still runs.
    pub fn is_running(&self) -> (b: bool)
        ensures
            b == self@.running,
    {
        self.running
    }

    /// Whether the output is treated as a terminal.
    pub fn is_tty(&self) -> (b: bool)
        ensures
            b == self@.is_tty,
    {
        self.is_tty
    }

    /// The time between two frames, in milliseconds.
    pub fn interval_millis(&self) -> (ms: u64)
        ensures
            ms == self@.interval_ms,
    {
        self.interval_ms
    }

    /// The current message.
    pub fn message(&self) -> (m: &str)
        ensures
            m@ == self@.message,
    {
        self.message.as_str()
    }

    /// One step of the animation: the text of the current frame, and the
    /// next frame chosen, wrapping round after the last.
    pub fn tick(&mut self) -> (out: String)
        requires
            old(self)@.running,
        ensures
            out@ == tick_text(old(self)@),
            out@ == frame_text(old(self)@.frames[old(self)@.frame as int], old(self)@.message),
            final(self)@ == after_tick(old(self)@),
    {
        proof {
            use_type_invariant(&*self);
        }
        let out = format_frame(self.frames[self.frame], self.message.as_str());
        let next = (self.frame + 1) % self.frames.len();
        self.frame = next;
        out
    }

    /// Replaces the message; it shows from the next frame on.
    pub fn update(&mut self, message: &str)
        ensures
            final(self)@ == with_message(old(self)@, message@),
    {
        proof {
            use_type_invariant(&*self);
        }
        self.message = message.to_owned();
    }

    /// Stops the animation; on a terminal the spinner line is erased.
    pub fn stop(&mut self) -> (out: String)
        ensures
            out@ == stop_text(old(self)@.is_tty),
            final(self)@ == (SpinnerStateView { running: false, ..old(self)@ }),
    {
        proof {
            use_type_invariant(&*self);
        }
        self.running = false;
        if self.is_tty {
            let mut out = String::new();
            out.push('\r');
            out.append(CLEAR_LINE);
            proof {
                lemma_codes();
                assert(out@ =~= stop_text(true));
            }
            out
        } else {
            String::new()
        }
    }

    fn finish(self, outcome: Outcome, message: &str) -> (out: String)
        ensures
            out@ == finish_text(self@.is_tty, outcome, message@),
    {
        let mut state = self;
        let mut out = state.stop();
        let line = format_outcome(state.is_tty, outcome, message);
        out.append(line.as_str());
        out
    }

    /// Stops and shows a green check mark with the current message.
    pub fn success(self) -> (out: String)
        ensures
            out@ == finish_text(self@.is_tty, Outcome::Success, self@.message),
    {
        let message = self.message.clone();
        self.finish(Outcome::Success, message.as_str())
    }

    /// Stops and shows a green check mark with a replacement message.
    pub fn success_with(self, message: &str) -> (out: String)
        ensures
            out@ == finish_text(self@.is_tty, Outcome::Success, message@),
    {
        self.finish(Outcome::Success, message)
    }

    /// Stops and shows a red cross with the current message.
    pub fn fail(self) -> (out: String)
        ensures
            out@ == finish_text(self@.is_tty, Outcome::Failure, self@.message),
    {
        let message = self.message.clone();
        self.finish(Outcome::Failure, message.as_str())
    }

    /// Stops and shows a red cross with a replacement message.
    pub fn fail_with(self, message: &str) -> (out: String)
        ensures
            out@ == finish_text(self@.is_tty, Outcome::Failure, message@),
    {
        self.finish(Outcome::Failure, message)
    }
}

/// The frame shown after `k` steps from frame `start` of `n` frames.
pub open spec fn frame_after(start: nat, n: nat, k: nat) -> nat
    decreases k,
{
    if k == 0 {
        start
    } else {
        (frame_after(start, n, (k - 1) as nat) + 1) % n
    }
}

/// The animation goes through the frames in order and wraps round: after `k`
/// steps from frame `start` it shows frame `(start + k) % n`.
pub proof fn law_frames_cycle(start: nat, n: nat, k: nat)
    requires
        start < n,
    ensures
        frame_after(start, n, k) == (start + k) % n,
    decreases k,
{
    if k > 0 {
        law_frames_cycle(start, n, (k - 1) as nat);
        let prior = (start + k - 1) as int;
        vstd::arithmetic::div_mod::lemma_add_mod_noop(prior, 1, n as int);
        vstd::arithmetic::div_mod::lemma_add_mod_noop(prior % (n as int), 1, n as int);
        vstd::arithmetic::div_mod::lemma_mod_twice(prior, n as int);
    } else {
        vstd::arithmetic::div_mod::lemma_small_mod(start, n);
    }
}

/// After as many steps as there are frames the animation is back at the
/// frame it started from.
pub proof fn law_frames_return(start: nat, n: nat)
    requires
        start < n,
    ensures
        frame_after(start, n, n) == start,
{
    law_frames_cycle(start, n, n);
    vstd::arithmetic::div_mod::lemma_mod_add_multiples_vanish(start as int, n as int);
    vstd::arithmetic::div_mod::lemma_small_mod(start, n);
}

/// Finishing with the current message after an update shows the new
/// message: `update(m)` then `success()` writes what `success_with(m)`
/// writes, and the same holds of `fail()` and `fail_with(m)`.
pub proof fn law_update_then_finish(v: SpinnerStateView, m: Seq<char>, outcome: Outcome)
    ensures
        finish_text(with_message(v, m).is_tty, outcome, with_message(v, m).message) == finish_text(
            v.is_tty,
            outcome,
            m,
        ),
{
}

/// The state after an animation run in which the message is set to
/// `ms[k]` before step `k`.
pub open spec fn run_state(v: SpinnerStateView, ms: Seq<Seq<char>>) -> SpinnerStateView
    decreases ms.len(),
{
    if ms.len() == 0 {
        v
    } else {
        after_tick(with_message(run_state(v, ms.drop_last()), ms.last()))
    }
}

/// The text such a run writes, step by step.
pub open spec fn run_text(v: SpinnerStateView, ms: Seq<Seq<char>>) -> Seq<char>
    decreases ms.len(),
{
    if ms.len() == 0 {
        Seq::empty()
    } else {
        run_text(v, ms.drop_last()) + tick_text(with_message(run_state(v, ms.drop_last()), ms.last()))
    }
}

/// The frames of a run written out: step `k` shows frame `(start + k) % n`
/// with message `ms[k]`.
pub open spec fn frames_in_order(frames: Seq<char>, start: nat, ms: Seq<Seq<char>>) -> Seq<char>
    decreases ms.len(),
{
    if ms.len() == 0 {
        Seq::empty()
    } else {
        frames_in_order(frames, start, ms.drop_last()) + frame_text(
            frames[((start + ms.len() - 1) % (frames.len() as int))],
            ms.last(),
        )
    }
}

/// An animation run writes the frames in order from the starting one,
/// wrapping round, each with the message current at its step, and ends on
/// the frame after the last one shown; nothing else about the spinner changes.
pub proof fn law_run_writes_frames_in_order(v: SpinnerStateView, ms: Seq<Seq<char>>)
    requires
        v.frames.len() > 0,
        v.frame < v.frames.len(),
    ensures
        run_text(v, ms) == frames_in_order(v.frames, v.frame, ms),
        run_state(v, ms).frame == (v.frame + ms.len()) % v.frames.len(),
        run_state(v, ms).frames == v.frames,
        run_state(v, ms).is_tty == v.is_tty,
        run_state(v, ms).running == v.running,
        ms.len() > 0 ==> run_state(v, ms).message == ms.last(),
        ms.len() == 0 ==> run_state(v, ms).message == v.message,
    decreases ms.len(),
{
    if ms.len() > 0 {
        let init = ms.drop_last();
        law_run_writes_frames_in_order(v, init);
        let n = v.frames.len();
        law_frames_cycle(v.frame, n, init.len());
        law_frames_cycle(v.frame, n, ms.len());
    } else {
        vstd::arithmetic::div_mod::lemma_small_mod(v.frame, v.frames.len());
    }
}

/// Off a terminal a spinner writes no escape sequence and no carriage
/// return: what finishing writes is the plain line alone, and it holds
/// neither unless the message brings one.
pub proof fn law_plain_finish_is_plain(outcome: Outcome, message: Seq<char>)
    ensures
        finish_text(false, outcome, message) == plain_text_of(outcome, message),
        !message.contains(esc()) ==> !finish_text(false, outcome, message).contains(esc()),
        !message.contains('\r') ==> !finish_text(false, outcome, message).contains('\r'),
{
    lemma_symbols_are_plain(outcome);
    assert(finish_text(false, outcome, message) =~= plain_text_of(outcome, message));
    if !message.contains(esc()) {
        law_plain_text_avoids(outcome.symbol_text(), message, esc());
    }
    if !message.contains('\r') {
        law_plain_text_avoids(outcome.symbol_text(), message, '\r');
    }
}

/// The plain line for an outcome: symbol, space, message, newline.
pub open spec fn plain_text_of(outcome: Outcome, message: Seq<char>) -> Seq<char> {
    crate::shared::plain_text(outcome.symbol_text(), message)
}

} // verus!

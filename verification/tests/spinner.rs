use nanospinner::spinner::FRAME_INTERVAL_MS;
use nanospinner::{Spinner, CLEAR_LINE, GREEN, RED, RESET};
use std::time::Duration;

#[test]
fn test_default_frames() {
    let expected = vec!['⠋', '⠙', '⠹', '⠸', '⠼', '⠴', '⠦', '⠧', '⠇', '⠏'];
    let spinner = Spinner::with_writer("test", Vec::<u8>::new());
    assert_eq!(*spinner.frames(), expected);
}

#[test]
fn test_default_interval() {
    let spinner = Spinner::with_writer("test", Vec::<u8>::new());
    assert_eq!(Duration::from_millis(spinner.interval_millis()), Duration::from_millis(80));
    assert_eq!(FRAME_INTERVAL_MS, 80);
}

#[test]
fn test_construction_preserves_message() {
    for s in ["", "Loading...", "ünïcödé ✓"] {
        let spinner = Spinner::with_writer(s, Vec::<u8>::new());
        assert_eq!(spinner.message(), s);
        assert!(!spinner.is_tty());
    }
}

#[test]
fn test_with_writer_uses_provided_writer() {
    let buf = vec![1u8, 2, 3];
    let spinner = Spinner::with_writer("test", buf);
    let (mut state, writer) = spinner.into_state();
    assert_eq!(writer, vec![1u8, 2, 3]);
    assert!(!state.is_running());
    assert_eq!(state.stop(), "");
}

#[test]
fn test_update_changes_message_state() {
    let (mut state, _) = Spinner::with_writer("initial", ()).into_state();
    state.update("new message");
    assert_eq!(state.message(), "new message");
    assert_eq!(state.success(), "✔ new message\n");
}

#[test]
fn test_non_tty_success_has_no_ansi_codes() {
    let (state, _) = Spinner::with_writer("Compiling...", ()).into_state();
    let output = state.success();
    assert!(!output.contains("\x1b["), "non-TTY output must not contain ANSI escape codes");
    assert!(!output.contains(CLEAR_LINE), "non-TTY output must not contain CLEAR_LINE");
    assert!(output.contains("✔"), "non-TTY output should contain ✔");
    assert!(output.contains("Compiling..."), "non-TTY output should contain the message");
    assert_eq!(output, "✔ Compiling...\n");
}

#[test]
fn test_non_tty_fail_has_no_ansi_codes() {
    let (state, _) = Spinner::with_writer("Deploying...", ()).into_state();
    let output = state.fail();
    assert!(!output.contains("\x1b["), "non-TTY output must not contain ANSI escape codes");
    assert!(output.contains("✖"), "non-TTY output should contain ✖");
    assert_eq!(output, "✖ Deploying...\n");
}

#[test]
fn test_non_tty_success_with_has_no_ansi_codes() {
    let (state, _) = Spinner::with_writer("Working...", ()).into_state();
    let output = state.success_with("Done!");
    assert!(!output.contains("\x1b["), "non-TTY output must not contain ANSI escape codes");
    assert_eq!(output, "✔ Done!\n");
}

#[test]
fn test_non_tty_fail_with_is_plain() {
    let (state, _) = Spinner::with_writer_tty("Working...", (), false).into_state();
    assert_eq!(state.fail_with("Broken"), "✖ Broken\n");
}

#[test]
fn test_non_tty_skips_animation() {
    let (state, _) = Spinner::with_writer("Loading...", ()).into_state();
    // A plain spinner is stopped from the start: no frame is ever drawn.
    assert!(!state.is_running());
    let output = state.success();
    assert!(!output.contains('⠋'), "non-TTY output must not contain spinner frames");
    assert!(!output.contains('\r'), "non-TTY output must not contain carriage returns");
    assert_eq!(output, "✔ Loading...\n");
}

#[test]
fn test_tty_mode_emits_ansi_codes() {
    let (mut state, _) = Spinner::with_writer_tty("Building...", (), true).into_state();
    assert!(state.is_running());
    let mut output = String::new();
    output.push_str(&state.tick());
    output.push_str(&state.tick());
    output.push_str(&state.success());
    assert!(output.contains("\x1b["), "TTY output should contain ANSI escape codes");
    assert!(output.contains("✔"), "TTY output should contain ✔");
    assert!(output.contains(GREEN), "TTY output should contain GREEN");
    assert_eq!(
        output,
        "\r\x1b[2K⠋ Building...\r\x1b[2K⠙ Building...\r\x1b[2K\r\x1b[2K\x1b[32m✔\x1b[0m Building...\n"
    );
}

#[test]
fn test_tty_fail_output_contains_ansi_symbol_and_message() {
    let (state, _) = Spinner::with_writer_tty("Deploy step", (), true).into_state();
    let output = state.fail();
    assert!(output.contains(RED));
    assert!(output.contains("✖"));
    assert!(output.contains("Deploy step"));
    assert!(output.contains(RESET));
    assert_eq!(output, format!("\r{CLEAR_LINE}\r{CLEAR_LINE}{RED}✖{RESET} Deploy step\n"));
}

#[test]
fn test_tty_fail_with_output_contains_replacement() {
    let (state, _) = Spinner::with_writer_tty("first message", (), true).into_state();
    let output = state.fail_with("replacement");
    assert!(output.contains(RED));
    assert!(output.contains("replacement"));
    assert!(!output.contains("first message"));
}

#[test]
fn test_with_writer_tty_false_produces_plain_output() {
    let (state, _) = Spinner::with_writer_tty("plain text", (), false).into_state();
    let output = state.success();
    assert!(!output.contains("\x1b["));
    assert_eq!(output, "✔ plain text\n");
}

#[test]
fn test_tty_stop_clears_line() {
    let (mut state, _) = Spinner::with_writer_tty("x", (), true).into_state();
    assert_eq!(state.stop(), "\r\x1b[2K");
    assert!(!state.is_running());
    // Stopping again clears the line again, as the handle's stop does.
    assert_eq!(state.stop(), "\r\x1b[2K");
}

#[test]
fn test_frames_cycle_through_all_ten() {
    let frames = ['⠋', '⠙', '⠹', '⠸', '⠼', '⠴', '⠦', '⠧', '⠇', '⠏'];
    let (mut state, _) = Spinner::with_writer_tty("m", (), true).into_state();
    for round in 0..3 {
        for (i, c) in frames.iter().enumerate() {
            assert_eq!(state.frame_index(), i, "round {round}");
            assert_eq!(state.tick(), format!("\r\x1b[2K{c} m"));
        }
    }
    assert_eq!(state.frame_index(), 0);
}

#[test]
fn test_spinner_success_output_contains_checkmark_and_message() {
    let (state, _) = Spinner::with_writer("Loading...", ()).into_state();
    let output = state.success();
    assert!(output.contains("✔"), "output should contain the ✔ symbol");
    assert!(output.contains("Loading..."), "output should contain the spinner message");
}

#[test]
fn test_update_then_success_matches_success_with() {
    for tty in [false, true] {
        let (mut updated, _) = Spinner::with_writer_tty("before", (), tty).into_state();
        updated.update("after");
        let (replaced, _) = Spinner::with_writer_tty("before", (), tty).into_state();
        assert_eq!(updated.success(), replaced.success_with("after"));
        let (mut updated, _) = Spinner::with_writer_tty("before", (), tty).into_state();
        updated.update("after");
        let (replaced, _) = Spinner::with_writer_tty("before", (), tty).into_state();
        assert_eq!(updated.fail(), replaced.fail_with("after"));
    }
}

#[test]
fn test_run_writes_frames_in_order_with_updates() {
    let frames = ['⠋', '⠙', '⠹', '⠸', '⠼', '⠴', '⠦', '⠧', '⠇', '⠏'];
    let (mut state, _) = Spinner::with_writer_tty("m0", (), true).into_state();
    let mut text = String::new();
    let mut expected = String::new();
    for k in 0..23usize {
        let message = format!("m{}", k);
        state.update(&message);
        text.push_str(&state.tick());
        expected.push_str(&format!("\r\x1b[2K{} {}", frames[k % 10], message));
    }
    assert_eq!(text, expected);
    assert_eq!(state.frame_index(), 23 % 10);
}

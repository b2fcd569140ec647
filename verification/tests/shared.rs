use nanospinner::shared::{
    format_finalize, format_finalize_plain, format_frame, format_outcome, push_cursor_up,
    push_decimal,
};
use nanospinner::{Outcome, BLUE, CLEAR_LINE, GREEN, RED, RESET, YELLOW};

const FRAMES: [char; 10] = ['⠋', '⠙', '⠹', '⠸', '⠼', '⠴', '⠦', '⠧', '⠇', '⠏'];

#[test]
fn test_yellow_constant() {
    assert_eq!(YELLOW, "\x1b[33m");
}

#[test]
fn test_blue_constant() {
    assert_eq!(BLUE, "\x1b[34m");
}

#[test]
fn test_color_constants() {
    assert_eq!(GREEN, "\x1b[32m");
    assert_eq!(RED, "\x1b[31m");
    assert_eq!(RESET, "\x1b[0m");
    assert_eq!(CLEAR_LINE, "\x1b[2K");
}

#[test]
fn test_format_frame_exact() {
    for (idx, msg) in [(0usize, ""), (3, "Loading..."), (999, "héllo wörld")] {
        let frame_char = FRAMES[idx % FRAMES.len()];
        let result = format_frame(frame_char, msg);
        assert_eq!(result, format!("\r{CLEAR_LINE}{frame_char} {msg}"));
    }
    assert_eq!(format_frame('⠋', "x"), "\r\x1b[2K⠋ x");
}

#[test]
fn test_format_finalize_all_variants() {
    let msg = "Deploying v1.2";
    assert_eq!(format_finalize("✔", GREEN, msg), format!("\r{CLEAR_LINE}{GREEN}✔{RESET} {msg}\n"));
    assert_eq!(format_finalize("✖", RED, msg), format!("\r{CLEAR_LINE}{RED}✖{RESET} {msg}\n"));
    assert_eq!(format_finalize("⚠", YELLOW, msg), format!("\r{CLEAR_LINE}{YELLOW}⚠{RESET} {msg}\n"));
    assert_eq!(format_finalize("ℹ", BLUE, msg), format!("\r{CLEAR_LINE}{BLUE}ℹ{RESET} {msg}\n"));
    assert_eq!(format_finalize_plain("✔", msg), format!("✔ {msg}\n"));
    assert_eq!(format_finalize_plain("✖", msg), format!("✖ {msg}\n"));
    assert_eq!(format_finalize_plain("⚠", msg), format!("⚠ {msg}\n"));
    assert_eq!(format_finalize_plain("ℹ", msg), format!("ℹ {msg}\n"));
}

#[test]
fn test_plain_finalization_warn_info_format() {
    for msg in ["", "done", "a [bracket] and 33m"] {
        let warn_output = format_finalize_plain("⚠", msg);
        assert!(!warn_output.contains('\x1b'));
        assert_eq!(warn_output, format!("⚠ {}\n", msg));
        let info_output = format_finalize_plain("ℹ", msg);
        assert!(!info_output.contains('\x1b'));
        assert_eq!(info_output, format!("ℹ {}\n", msg));
    }
}

#[test]
fn test_format_outcome_modes() {
    assert_eq!(format_outcome(true, Outcome::Success, "ok"), "\r\x1b[2K\x1b[32m✔\x1b[0m ok\n");
    assert_eq!(format_outcome(true, Outcome::Failure, "no"), "\r\x1b[2K\x1b[31m✖\x1b[0m no\n");
    assert_eq!(format_outcome(false, Outcome::Success, "ok"), "✔ ok\n");
    assert_eq!(format_outcome(false, Outcome::Failure, "no"), "✖ no\n");
    assert_eq!(Outcome::Success.symbol(), "✔");
    assert_eq!(Outcome::Failure.color(), RED);
}

#[test]
fn test_decimal_and_cursor_up() {
    for n in [0usize, 7, 10, 42, 100, 12345, usize::MAX] {
        let mut s = String::from(">");
        push_decimal(&mut s, n);
        assert_eq!(s, format!(">{n}"));
        let mut up = String::new();
        push_cursor_up(&mut up, n);
        assert_eq!(up, format!("\x1b[{n}A"));
    }
}

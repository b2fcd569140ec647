use nanospinner::multi::render_final;
use nanospinner::{
    LineStatus, MultiSpinner, MultiState, SpinnerLineHandle, CLEAR_LINE, GREEN, RED,
};

const BRAILLE: [char; 10] = ['⠋', '⠙', '⠹', '⠸', '⠼', '⠴', '⠦', '⠧', '⠇', '⠏'];

fn tty_group() -> MultiState {
    let (state, ()) = MultiSpinner::with_writer_tty((), true).into_state();
    state
}

fn plain_group() -> MultiState {
    let (state, ()) = MultiSpinner::with_writer(()).into_state();
    state
}

/// Runs `n` animation steps and collects what they write.
fn ticks(state: &mut MultiState, n: usize, out: &mut String) {
    for _ in 0..n {
        out.push_str(&state.tick());
    }
}

/// Position and amount of every cursor-up sequence.
fn cursor_ups(output: &str) -> Vec<(usize, usize)> {
    let bytes = output.as_bytes();
    let mut found = Vec::new();
    for i in 0..bytes.len().saturating_sub(3) {
        if bytes[i] == b'\x1b' && bytes[i + 1] == b'[' {
            let mut j = i + 2;
            while j < bytes.len() && bytes[j].is_ascii_digit() {
                j += 1;
            }
            if j > i + 2 && j < bytes.len() && bytes[j] == b'A' {
                let n: usize = std::str::from_utf8(&bytes[i + 2..j]).unwrap().parse().unwrap();
                found.push((i, n));
            }
        }
    }
    found
}

fn count_occurrences(haystack: &str, needle: &str) -> usize {
    haystack.matches(needle).count()
}

#[test]
fn test_spinner_line_handle_is_send() {
    fn assert_send<T: Send>() {}
    assert_send::<SpinnerLineHandle>();
    assert_send::<MultiState>();
}

#[test]
fn test_multi_spinner_tty_single_spinner_renders() {
    let mut group = tty_group();
    let mut output = String::new();
    let line = group.add("Compiling crate");
    ticks(&mut group, 3, &mut output);
    output.push_str(&line.success(&mut group));
    ticks(&mut group, 1, &mut output);
    output.push_str(&group.shutdown());

    assert!(BRAILLE.iter().any(|&c| output.contains(c)), "TTY output must contain braille animation frames");
    assert!(output.contains(GREEN), "TTY output must contain GREEN ANSI code");
    assert!(output.contains("✔"), "TTY output must contain ✔");
    assert!(output.contains("Compiling crate"), "TTY output must contain the spinner message");
    assert!(output.contains("\x1b["), "TTY output must contain ANSI escape codes");
}

#[test]
fn test_multi_spinner_tty_add_after_finalize() {
    let mut group = tty_group();
    let mut output = String::new();
    let line_a = group.add("Task A");
    ticks(&mut group, 2, &mut output);
    output.push_str(&line_a.success(&mut group));
    let line_b = group.add("Task B");
    ticks(&mut group, 2, &mut output);
    output.push_str(&line_b.fail(&mut group));
    ticks(&mut group, 1, &mut output);
    output.push_str(&group.shutdown());

    assert!(output.contains("Task A"), "output must contain Task A message");
    assert!(output.contains("Task B"), "output must contain Task B message");
    assert!(output.contains("✔"), "output must contain ✔ for Task A");
    assert!(output.contains("✖"), "output must contain ✖ for Task B");
}

#[test]
fn test_multi_spinner_tty_stop_joins_thread() {
    let mut group = tty_group();
    let _line = group.add("Working");
    let mut output = String::new();
    ticks(&mut group, 1, &mut output);
    let last = group.shutdown();
    assert!(!group.is_running());
    // The active line is erased; its message is not redrawn.
    assert_eq!(last, "\x1b[1A\r\x1b[2K\n");
    // A second stop writes nothing.
    assert_eq!(group.shutdown(), "");
}

#[test]
fn test_multi_spinner_drop_renders_same_as_stop() {
    // Stopping and dropping a group both end in `shutdown`: the first one
    // draws the final frame, any later one (the drop after a stop) nothing.
    let mut group = tty_group();
    let mut output = String::new();
    let a = group.add("Alpha");
    let b = group.add("Beta");
    ticks(&mut group, 2, &mut output);
    output.push_str(&a.success_with(&mut group, "Alpha done."));
    output.push_str(&b.fail_with(&mut group, "Beta failed."));
    ticks(&mut group, 1, &mut output);
    let out_stop = group.shutdown();
    assert!(out_stop.contains("✔"), "stop output must contain ✔");
    assert!(out_stop.contains("✖"), "stop output must contain ✖");
    assert!(out_stop.contains("Alpha done."));
    assert!(out_stop.contains("Beta failed."));
    assert!(out_stop.len() > 0, "stop must produce output");
    let out_drop = group.shutdown();
    assert_eq!(out_drop, "", "a drop after stop writes nothing more");
}

#[test]
fn test_spinner_line_handle_send_to_thread() {
    // A line handle holds no reference to its group: whichever thread holds
    // the group finalizes through it.
    let mut group = plain_group();
    let line_handle = group.add("Task from another thread");
    let output = line_handle.success(&mut group);
    assert_eq!(output, "✔ Task from another thread\n");
}

#[test]
fn test_multiple_handles_finalized_from_different_threads() {
    // Handles finalized in an arbitrary order each write their own line once.
    let mut group = plain_group();
    let h1 = group.add("alpha");
    let h2 = group.add("beta");
    let h3 = group.add("gamma");
    let mut output = String::new();
    output.push_str(&h2.fail(&mut group));
    output.push_str(&h3.success_with(&mut group, "gamma done"));
    output.push_str(&h1.success(&mut group));

    let output_lines: Vec<&str> = output.split('\n').filter(|l| !l.is_empty()).collect();
    assert_eq!(output_lines.len(), 3, "must have exactly 3 output lines");
    assert!(output_lines.contains(&"✔ alpha"), "output must contain '✔ alpha'");
    assert!(output_lines.contains(&"✖ beta"), "output must contain '✖ beta'");
    assert!(output_lines.contains(&"✔ gamma done"), "output must contain '✔ gamma done'");
}

#[test]
fn test_stop_finalization_clear_one_among_others() {
    let mut group = tty_group();
    let mut output = String::new();
    let line1 = group.add("first-line");
    let line2 = group.add("second-line");
    let line3 = group.add("third-line");
    ticks(&mut group, 3, &mut output);
    line1.success(&mut group);
    line2.clear(&mut group);
    line3.fail(&mut group);
    ticks(&mut group, 1, &mut output);
    output.push_str(&group.shutdown());

    let (pos, _) = *cursor_ups(&output)
        .last()
        .expect("TTY output must contain at least one cursor-up sequence");
    let final_frame = &output[pos..];
    assert!(!final_frame.contains("second-line"), "cleared line 'second-line' must NOT appear in the final frame");
    assert!(final_frame.contains("first-line"), "succeeded line 'first-line' must appear in the final frame");
    assert!(final_frame.contains("third-line"), "failed line 'third-line' must appear in the final frame");
    assert!(final_frame.contains("✔"), "final frame must contain ✔");
    assert!(final_frame.contains("✖"), "final frame must contain ✖");
}

#[test]
fn test_stop_finalization_all_cleared() {
    let mut group = tty_group();
    let mut output = String::new();
    let line1 = group.add("alpha");
    let line2 = group.add("beta");
    let line3 = group.add("gamma");
    ticks(&mut group, 3, &mut output);
    line1.clear(&mut group);
    line2.clear(&mut group);
    line3.clear(&mut group);
    ticks(&mut group, 1, &mut output);
    assert_eq!(group.last_visible_count(), 0);

    let output_after_stop = group.shutdown();
    assert!(cursor_ups(&output_after_stop).is_empty(), "stop() must NOT write a cursor-up escape when all lines are cleared");
    assert!(!output_after_stop.contains("alpha"));
    assert!(!output_after_stop.contains("beta"));
    assert!(!output_after_stop.contains("gamma"));
}

#[test]
fn test_add_grows_line_list() {
    let mut group = plain_group();
    let line = group.add("a message");
    assert_eq!(line.index(), 0);
    assert_eq!(group.line_count(), 1);
    assert_eq!(group.lines()[0].message, "a message");
    assert_eq!(group.lines()[0].status, LineStatus::Active);
}

#[test]
fn test_update_changes_message() {
    let mut group = plain_group();
    let line = group.add("initial");
    line.update(&mut group, "updated");
    assert_eq!(group.lines()[0].message, "updated");
    assert_eq!(line.success(&mut group), "✔ updated\n");
}

#[test]
fn test_plain_mode_outputs() {
    let mut group = plain_group();
    let a = group.add("one");
    let b = group.add("two");
    let c = group.add("three");
    let d = group.add("four");
    assert_eq!(a.success(&mut group), "✔ one\n");
    assert_eq!(b.success_with(&mut group, "TWO"), "✔ TWO\n");
    assert_eq!(c.fail(&mut group), "✖ three\n");
    assert_eq!(d.fail_with(&mut group, "FOUR"), "✖ FOUR\n");
    assert_eq!(group.lines()[1].status, LineStatus::SucceededWith("TWO".to_string()));
    assert_eq!(group.lines()[1].message, "two");
    assert_eq!(group.lines()[3].status, LineStatus::FailedWith("FOUR".to_string()));
    // Plain mode never animates and never redraws.
    assert!(!group.is_running());
    assert_eq!(group.shutdown(), "");
}

#[test]
fn test_plain_mode_finalization_order() {
    let messages = ["m0", "m1", "m2", "m3", "m4"];
    let mut group = plain_group();
    let handles: Vec<SpinnerLineHandle> = messages.iter().map(|m| group.add(m)).collect();
    let mut output = String::new();
    for h in handles.into_iter().rev() {
        output.push_str(&h.success(&mut group));
    }
    assert_eq!(output, "✔ m4\n✔ m3\n✔ m2\n✔ m1\n✔ m0\n");
}

#[test]
fn test_clear_writes_nothing_in_plain_mode() {
    let messages = ["a1", "b2", "c3", "d4"];
    let flags = [true, false, true, false];
    let mut group = plain_group();
    let handles: Vec<SpinnerLineHandle> = messages.iter().map(|m| group.add(m)).collect();
    let mut output = String::new();
    for (h, &clear) in handles.into_iter().zip(flags.iter()) {
        if clear {
            h.clear(&mut group);
        } else {
            output.push_str(&h.success(&mut group));
        }
    }
    assert_eq!(output, "✔ b2\n✔ d4\n");
    assert_eq!(group.lines()[0].status, LineStatus::Cleared);
}

#[test]
fn test_first_frames_exact() {
    let mut group = tty_group();
    assert_eq!(group.tick(), "");
    group.add("a");
    group.add("b");
    // Second step: frame character 1, nothing drawn before.
    assert_eq!(group.tick(), "\r\x1b[2K⠙ a\n\r\x1b[2K⠙ b\n");
    assert_eq!(group.last_visible_count(), 2);
    // Third step: back up over the two rows first.
    assert_eq!(group.tick(), "\x1b[2A\r\x1b[2K⠹ a\n\r\x1b[2K⠹ b\n");
}

#[test]
fn test_ghost_lines_erased_after_clear() {
    let mut group = tty_group();
    let handles: Vec<SpinnerLineHandle> = (0..4).map(|i| group.add(&format!("line-{i}"))).collect();
    let mut output = String::new();
    ticks(&mut group, 2, &mut output);
    let mut it = handles.into_iter();
    it.next().unwrap().clear(&mut group);
    it.next().unwrap().success(&mut group);
    it.next().unwrap().clear(&mut group);
    it.next().unwrap().fail(&mut group);
    let frame = group.tick();
    // Up over the 4 rows, 2 rows drawn, 2 rows erased, back up over those 2.
    assert_eq!(cursor_ups(&frame).iter().map(|&(_, n)| n).collect::<Vec<_>>(), vec![4, 2]);
    assert_eq!(count_occurrences(&frame, CLEAR_LINE), 4);
    assert!(!frame.contains("line-0"));
    assert!(frame.contains("line-1"));
    assert!(!frame.contains("line-2"));
    assert!(frame.contains("line-3"));
    assert_eq!(group.last_visible_count(), 2);
    // The next frame goes up over the 2 rows only.
    let next = group.tick();
    assert_eq!(cursor_ups(&next).iter().map(|&(_, n)| n).collect::<Vec<_>>(), vec![2]);
    assert_eq!(count_occurrences(&next, CLEAR_LINE), 2);
}

#[test]
fn test_ghost_lines_stop_path() {
    let mut group = tty_group();
    let handles: Vec<SpinnerLineHandle> = (0..3).map(|i| group.add(&format!("stopline-{i}"))).collect();
    let mut output = String::new();
    ticks(&mut group, 2, &mut output);
    let mut it = handles.into_iter();
    it.next().unwrap().clear(&mut group);
    it.next().unwrap().success(&mut group);
    it.next().unwrap().clear(&mut group);
    // Stop before the render loop saw the clears: the last frame drew 3 rows.
    let stop_output = group.shutdown();
    let ups = cursor_ups(&stop_output);
    assert_eq!(ups.len(), 1);
    let (pos, up) = ups[0];
    assert_eq!(up, 3);
    assert!(count_occurrences(&stop_output[pos..], CLEAR_LINE) >= up);
    assert_eq!(stop_output, "\x1b[3A\r\x1b[2K\x1b[32m✔\x1b[0m stopline-1\n\r\x1b[2K\n\r\x1b[2K\n");
}

#[test]
fn test_tty_render_loop_output() {
    let mut group = tty_group();
    let mut output = String::new();
    let line1 = group.add("success message");
    let line2 = group.add("failure message");
    ticks(&mut group, 3, &mut output);
    line1.success(&mut group);
    line2.fail(&mut group);
    ticks(&mut group, 1, &mut output);
    output.push_str(&group.shutdown());
    assert!(!cursor_ups(&output).is_empty());
    assert!(BRAILLE.iter().any(|&c| output.contains(c)));
    assert!(output.contains(GREEN));
    assert!(output.contains(RED));
    assert!(output.contains("✔"));
    assert!(output.contains("✖"));
    assert!(output.contains("success message"));
    assert!(output.contains("failure message"));
}

#[test]
fn test_visible_line_count_equals_total_minus_cleared() {
    let flags = [true, false, false, true, false];
    let mut group = tty_group();
    let handles: Vec<SpinnerLineHandle> = (0..5).map(|i| group.add(&format!("v{i}"))).collect();
    let mut output = String::new();
    ticks(&mut group, 2, &mut output);
    for (h, &clear) in handles.into_iter().zip(flags.iter()) {
        if clear {
            h.clear(&mut group);
        } else {
            h.success(&mut group);
        }
    }
    ticks(&mut group, 1, &mut output);
    assert_eq!(group.last_visible_count(), 3);
}

#[test]
fn test_preservation_stop_no_clears() {
    let mut group = tty_group();
    let handles: Vec<SpinnerLineHandle> = (0..4).map(|i| group.add(&format!("stopkeep-{i}"))).collect();
    let mut output = String::new();
    ticks(&mut group, 2, &mut output);
    let mut it = handles.into_iter();
    it.next().unwrap().success(&mut group);
    it.next().unwrap().fail(&mut group);
    it.next().unwrap().success_with(&mut group, "custom-success");
    it.next().unwrap().fail_with(&mut group, "custom-fail");
    ticks(&mut group, 1, &mut output);
    let stop_output = group.shutdown();
    let ups = cursor_ups(&stop_output);
    assert_eq!(ups.len(), 1);
    assert_eq!(ups[0].1, 4);
    assert_eq!(count_occurrences(&stop_output, CLEAR_LINE), 4);
    assert_eq!(count_occurrences(&stop_output, "✔"), 2);
    assert_eq!(count_occurrences(&stop_output, "✖"), 2);
    assert!(stop_output.contains("stopkeep-0"));
    assert!(stop_output.contains("stopkeep-1"));
    assert!(stop_output.contains("custom-success"));
    assert!(stop_output.contains("custom-fail"));
}

#[test]
fn test_cleared_line_collapses() {
    // A frame of [a, b, c] with b cleared is the frame of [a, c].
    let mut with_clear = tty_group();
    let a = with_clear.add("a");
    let b = with_clear.add("b");
    let _c = with_clear.add("c");
    b.clear(&mut with_clear);
    let _ = a;
    let mut without = tty_group();
    without.add("a");
    without.add("c");
    assert_eq!(with_clear.tick(), without.tick());
    assert_eq!(with_clear.tick(), without.tick());
    assert_eq!(with_clear.shutdown(), without.shutdown());
}

#[test]
fn test_finalizations_commute() {
    let build = || {
        let mut group = plain_group();
        let x = group.add("x");
        let y = group.add("y");
        (group, x, y)
    };
    let (mut first, x1, y1) = build();
    let _ = x1.success(&mut first);
    let _ = y1.fail_with(&mut first, "Y failed");
    let (mut second, x2, y2) = build();
    let _ = y2.fail_with(&mut second, "Y failed");
    let _ = x2.success(&mut second);
    assert_eq!(first.lines(), second.lines());
}

#[test]
fn test_preservation_render_no_clears() {
    for num_spinners in 1..=8usize {
        let mut group = tty_group();
        for i in 0..num_spinners {
            group.add(&format!("preserve-{}", i));
        }
        let first = group.tick();
        assert!(cursor_ups(&first).is_empty());
        for _ in 0..4 {
            let frame = group.tick();
            let ups = cursor_ups(&frame);
            assert_eq!(ups.len(), 1);
            assert_eq!(ups[0], (0, num_spinners));
            assert_eq!(count_occurrences(&frame, CLEAR_LINE), num_spinners);
            for i in 0..num_spinners {
                assert!(frame.contains(&format!("preserve-{}", i)));
            }
        }
    }
}

#[test]
fn test_preservation_finalized_lines_visible() {
    let patterns = [0u8, 1, 2, 3, 1, 0, 2];
    let mut group = tty_group();
    let messages: Vec<String> = (0..patterns.len()).map(|i| format!("finmsg-{}", i)).collect();
    let handles: Vec<SpinnerLineHandle> = messages.iter().map(|m| group.add(m)).collect();
    let mut output = String::new();
    ticks(&mut group, 3, &mut output);
    for (h, &p) in handles.into_iter().zip(patterns.iter()) {
        match p {
            0 => output.push_str(&h.success(&mut group)),
            1 => output.push_str(&h.fail(&mut group)),
            2 => output.push_str(&h.success_with(&mut group, "custom-ok")),
            _ => output.push_str(&h.fail_with(&mut group, "custom-err")),
        }
    }
    ticks(&mut group, 1, &mut output);
    let final_frame = group.shutdown();
    assert_eq!(count_occurrences(&final_frame, "✔"), 4);
    assert_eq!(count_occurrences(&final_frame, "✖"), 3);
    assert_eq!(count_occurrences(&final_frame, CLEAR_LINE), patterns.len());
    assert_eq!(cursor_ups(&final_frame), vec![(0, patterns.len())]);
    for (i, &p) in patterns.iter().enumerate() {
        match p {
            0 | 1 => assert!(final_frame.contains(&messages[i])),
            2 => assert!(final_frame.contains("custom-ok")),
            _ => assert!(final_frame.contains("custom-err")),
        }
    }
}

#[test]
fn test_line_mode_is_the_groups() {
    // A line of a terminal group writes nothing when finalized: the next
    // frame draws it.
    let mut group = tty_group();
    let line = group.add("quiet");
    assert_eq!(line.success(&mut group), "");
}

#[test]
fn test_render_final_writes_nothing_without_rows_or_terminal() {
    let lines = vec![nanospinner::SpinnerLine { message: "m".to_string(), status: LineStatus::Succeeded }];
    assert_eq!(render_final(&Vec::new(), true, 0), "");
    assert_eq!(render_final(&lines, true, 0), "");
    assert_eq!(render_final(&lines, false, 3), "");
    assert_eq!(render_final(&lines, true, 2), "\x1b[2A\r\x1b[2K\x1b[32m✔\x1b[0m m\n\r\x1b[2K\n");
}

#[test]
fn test_frames_erase_every_row_with_erase_codes_in_messages() {
    let mut group = tty_group();
    let a = group.add("x\x1b[2Ky");
    let _b = group.add("plain");
    let mut out = String::new();
    ticks(&mut group, 2, &mut out);
    a.clear(&mut group);
    let frame = group.tick();
    assert!(count_occurrences(&frame, CLEAR_LINE) >= 2);
    assert!(cursor_ups(&frame).first() == Some(&(0, 2)));
}

use zellij_load::ansi::{strip_ansi_codes, visible_len};
use zellij_load::status_bar::{
    fit_segments, join, render_segments, segment, separator, separator_bar, status_line,
    status_segments,
};
use zellij_load::style::{
    level_for_percent, usage_color, Paint, Styled, UsageLevel, CPU_CRIT_PCT, CPU_WARN_PCT,
};

fn colors_on() {
    colored::control::set_override(true);
}

#[test]
fn strip_removes_color_and_erase_sequences() {
    assert_eq!(strip_ansi_codes("\x1b[1;90mCPU:\x1b[0m 5%"), "CPU: 5%");
    assert_eq!(strip_ansi_codes("a\x1b[Kb\x1b[mc"), "abc");
    assert_eq!(strip_ansi_codes("plain"), "plain");
}

#[test]
fn strip_keeps_incomplete_sequences() {
    assert_eq!(strip_ansi_codes("\x1b[12"), "\x1b[12");
    assert_eq!(strip_ansi_codes("\x1b[1x"), "\x1b[1x");
    assert_eq!(strip_ansi_codes("\x1b[1\x1b[0m"), "\x1b[1");
    assert_eq!(strip_ansi_codes("\x1b(m"), "\x1b(m");
}

#[test]
fn visible_len_counts_characters_outside_sequences() {
    assert_eq!(visible_len("\x1b[92m12.5%\x1b[0m"), 5);
    assert_eq!(visible_len("é\x1b[0m"), 1);
    assert_eq!(visible_len(""), 0);
}

#[test]
fn levels_follow_thresholds() {
    assert_eq!(UsageLevel::classify(false, false), UsageLevel::Normal);
    assert_eq!(UsageLevel::classify(true, false), UsageLevel::Warning);
    assert_eq!(UsageLevel::classify(true, true), UsageLevel::Critical);
    assert_eq!(UsageLevel::classify(false, true), UsageLevel::Critical);
    assert_eq!(level_for_percent(49, CPU_WARN_PCT, CPU_CRIT_PCT), UsageLevel::Normal);
    assert_eq!(level_for_percent(50, CPU_WARN_PCT, CPU_CRIT_PCT), UsageLevel::Warning);
    assert_eq!(level_for_percent(79, CPU_WARN_PCT, CPU_CRIT_PCT), UsageLevel::Warning);
    assert_eq!(level_for_percent(80, CPU_WARN_PCT, CPU_CRIT_PCT), UsageLevel::Critical);
}

#[test]
fn usage_color_picks_the_level_colour() {
    let red = usage_color("x", UsageLevel::Critical);
    assert_eq!(red.text, "x");
    assert_eq!(red.paint, Paint::BrightRed);
    assert_eq!(usage_color("x", UsageLevel::Warning).paint, Paint::Yellow);
    assert_eq!(usage_color("x", UsageLevel::Normal).paint, Paint::BrightGreen);
}

#[test]
fn styled_text_renders_in_its_colour() {
    colors_on();
    let styled = |paint| Styled { text: "x".to_string(), paint };
    assert_eq!(styled(Paint::BrightRed).render(), "\x1b[91mx\x1b[0m");
    assert_eq!(styled(Paint::Yellow).render(), "\x1b[33mx\x1b[0m");
    assert_eq!(styled(Paint::BrightGreen).render(), "\x1b[92mx\x1b[0m");
    assert_eq!(styled(Paint::BrightBlack).render(), "\x1b[90mx\x1b[0m");
    assert_eq!(styled(Paint::BoldBrightBlack).render(), "\x1b[1;90mx\x1b[0m");
}

#[test]
fn segment_styles_label_and_value() {
    let s = segment("CPU:", "12.5%", UsageLevel::Normal);
    assert_eq!(s.label.text, "CPU:");
    assert_eq!(s.label.paint, Paint::BoldBrightBlack);
    assert_eq!(s.value.text, "12.5%");
    assert_eq!(s.value.paint, Paint::BrightGreen);
}

#[test]
fn segment_renders_coloured() {
    colors_on();
    let s = segment("CPU:", "80.0%", UsageLevel::Critical).render();
    assert_eq!(s, "\x1b[1;90mCPU:\x1b[0m \x1b[91m80.0%\x1b[0m");
    assert_eq!(strip_ansi_codes(&s), "CPU: 80.0%");
}

#[test]
fn separator_is_a_dim_bar() {
    colors_on();
    let bar = separator_bar();
    assert_eq!(bar.text, "|");
    assert_eq!(bar.paint, Paint::BrightBlack);
    assert_eq!(separator(), " \x1b[90m|\x1b[0m ");
    assert_eq!(visible_len(&separator()), 3);
}

#[test]
fn status_segments_in_order() {
    let segs = status_segments("5.0%", UsageLevel::Normal, "1.00/2.00GB", UsageLevel::Warning, None);
    assert_eq!(segs.len(), 2);
    assert_eq!(segs[0].label.text, "CPU:");
    assert_eq!(segs[1].label.text, "MEM:");
    assert_eq!(segs[1].value.text, "1.00/2.00GB");
    assert_eq!(segs[1].value.paint, Paint::Yellow);
    let segs = status_segments(
        "5.0%",
        UsageLevel::Normal,
        "1.00/2.00GB",
        UsageLevel::Warning,
        Some(("90.0%", UsageLevel::Critical, "0.50/8.00GB", UsageLevel::Normal)),
    );
    assert_eq!(segs.len(), 4);
    assert_eq!(segs[2].label.text, "GPU:");
    assert_eq!(segs[2].value.paint, Paint::BrightRed);
    assert_eq!(segs[3].label.text, "VRAM:");
    assert_eq!(segs[3].value.text, "0.50/8.00GB");
}

#[test]
fn join_puts_separator_between_parts() {
    let parts = vec!["a".to_string(), "bb".to_string(), "c".to_string()];
    assert_eq!(join(&parts, ", "), "a, bb, c");
    assert_eq!(join(&vec!["only".to_string()], ", "), "only");
    assert_eq!(join(&Vec::new(), ", "), "");
}

#[test]
fn fit_takes_the_longest_prefix_that_fits() {
    let segs = vec!["aaaa".to_string(), "bbbb".to_string(), "cc".to_string()];
    assert_eq!(fit_segments(&segs, 3).len(), 0);
    assert_eq!(fit_segments(&segs, 4), vec!["aaaa".to_string()]);
    assert_eq!(fit_segments(&segs, 10).len(), 1);
    assert_eq!(fit_segments(&segs, 11).len(), 2);
    assert_eq!(fit_segments(&segs, 15).len(), 2);
    assert_eq!(fit_segments(&segs, 16).len(), 3);
    // a later short segment is not taken once one does not fit
    let segs = vec!["aaaa".to_string(), "bbbbbbbb".to_string(), "c".to_string()];
    assert_eq!(fit_segments(&segs, 10).len(), 1);
}

#[test]
fn fit_counts_visible_width_only() {
    let segs = vec!["\x1b[92maaaa\x1b[0m".to_string(), "\x1b[91mbb\x1b[0m".to_string()];
    assert_eq!(fit_segments(&segs, 9).len(), 2);
    assert_eq!(fit_segments(&segs, 8).len(), 1);
}

#[test]
fn status_line_is_empty_without_room() {
    let segs = vec!["abc".to_string()];
    assert!(status_line(&segs, 0).is_none());
    assert!(status_line(&segs, 2).is_none());
    assert!(status_line(&Vec::new(), 10).is_none());
}

#[test]
fn status_line_is_right_aligned_and_fills_the_pane() {
    colors_on();
    let segs = render_segments(&vec![
        segment("CPU:", "12.5%", UsageLevel::Normal),
        segment("MEM:", "3.00/16.00GB", UsageLevel::Warning),
        segment("GPU:", "90.0%", UsageLevel::Critical),
    ]);
    let line = status_line(&segs, 40).unwrap();
    assert_eq!(strip_ansi_codes(&line), format!("{}CPU: 12.5% | MEM: 3.00/16.00GB", " ".repeat(10)));
    assert_eq!(visible_len(&line), 40);
    let line = status_line(&segs, 60).unwrap();
    assert_eq!(
        strip_ansi_codes(&line),
        format!("{}CPU: 12.5% | MEM: 3.00/16.00GB | GPU: 90.0%", " ".repeat(17))
    );
    assert_eq!(visible_len(&line), 60);
    let line = status_line(&segs, 10).unwrap();
    assert_eq!(strip_ansi_codes(&line), "CPU: 12.5%");
    assert!(line.starts_with("\x1b[1;90m"));
}

#[test]
fn styled_text_keeps_its_colour_after_an_inner_reset() {
    colors_on();
    let styled = Styled { text: "a\x1b[0mb".to_string(), paint: Paint::BrightRed };
    assert_eq!(styled.render(), "\x1b[91ma\x1b[0m\x1b[91mb\x1b[0m");
}

#[test]
fn status_bar_without_gpu_shows_cpu_and_memory_only() {
    let segs = status_segments("5.0%", UsageLevel::Normal, "1.00/2.00GB", UsageLevel::Normal, None);
    let line = status_line(&render_segments(&segs), 30).unwrap();
    assert_eq!(strip_ansi_codes(&line), format!("{}CPU: 5.0% | MEM: 1.00/2.00GB", " ".repeat(2)));
}

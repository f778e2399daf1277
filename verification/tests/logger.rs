use acyclib::logger::{
    ansi, clear_colours, esc, num_cs, progress_line_suffix, report_superbatch_finished,
    report_superbatch_progress, report_time_left, seconds_to_hms, set_cbcs, set_colour,
    set_colours_enabled, superbatch_counts, LogSettings, TrainingSteps,
};

#[test]
fn ansi_omits_escape_sequences_when_colours_are_disabled() {
    let mut settings = LogSettings::default();
    set_colours_enabled(&mut settings, false);

    assert_eq!(ansi(&settings, "value", 31), "value");

    set_colours_enabled(&mut settings, true);
}

#[test]
fn colours_are_on_at_first_and_in_the_first_scheme() {
    let settings = LogSettings::default();
    assert_eq!(settings, LogSettings { colours_enabled: true, cbcs: false });
    assert_eq!(num_cs(&settings), 36);
    assert_eq!(ansi(&settings, "value", 31), "\x1b[31mvalue\x1b[0m");
}

#[test]
fn ansi_goes_back_to_the_base_colour_in_the_second_scheme() {
    let mut settings = LogSettings::default();
    set_cbcs(&mut settings, true);
    assert_eq!(num_cs(&settings), 35);
    assert_eq!(ansi(&settings, 7usize, -3), "\x1b[-3m7\x1b[0m\x1b[38;5;225m");
    assert_eq!(ansi(&settings, String::from("a"), "1;4"), "\x1b[1;4ma\x1b[0m\x1b[38;5;225m");
    assert_eq!(esc(&settings), "\x1b[38;5;225m");
    assert_eq!(clear_colours(&settings), "\x1b[38;5;225m");
    set_colours_enabled(&mut settings, false);
    assert_eq!(num_cs(&settings), 35);
    assert_eq!(esc(&settings), "");
    assert_eq!(clear_colours(&settings), "");
}

#[test]
fn set_colour_writes_nothing_when_colours_are_off() {
    let mut settings = LogSettings::default();
    assert_eq!(set_colour(&settings, 31), "\x1b[31m");
    assert_eq!(progress_line_suffix(&settings), "\x1b[F");
    set_colours_enabled(&mut settings, false);
    assert_eq!(set_colour(&settings, 31), "");
    assert_eq!(progress_line_suffix(&settings), "");
}

#[test]
fn settings_are_set_one_by_one() {
    let mut settings = LogSettings::default();
    set_cbcs(&mut settings, true);
    set_colours_enabled(&mut settings, false);
    assert_eq!(settings, LogSettings { colours_enabled: false, cbcs: true });
    set_cbcs(&mut settings, false);
    assert_eq!(settings, LogSettings { colours_enabled: false, cbcs: false });
}

#[test]
fn numbers_are_written_in_decimal() {
    let settings = LogSettings { colours_enabled: false, cbcs: false };
    assert_eq!(ansi(&settings, 0usize, 0), "0");
    assert_eq!(ansi(&settings, 1234567890u32, 0), "1234567890");
    assert_eq!(ansi(&settings, u32::MAX, 0), u32::MAX.to_string());
    assert_eq!(ansi(&settings, usize::MAX, 0), usize::MAX.to_string());
    assert_eq!(ansi(&settings, i32::MIN, 0), i32::MIN.to_string());
    assert_eq!(ansi(&settings, i32::MAX, 0), i32::MAX.to_string());
}

#[test]
fn progress_report_without_colours() {
    let settings = LogSettings { colours_enabled: false, cbcs: true };
    assert_eq!(
        report_superbatch_progress(&settings, 3, 6104, 1526, "25.0", "123456", "17.5"),
        "superbatch 3 [25.0% (1526/6104 batches, 123456 pos/sec)]\nEstimated time to end of \
         superbatch: 17.5s     "
    );
}

#[test]
fn progress_report_with_colours() {
    let settings = LogSettings::default();
    assert_eq!(
        report_superbatch_progress(&settings, 1, 2, 1, "50.0", "9", "0.5"),
        "superbatch \x1b[36m1\x1b[0m [\x1b[35m50.0\x1b[0m% (\x1b[36m1\x1b[0m/\x1b[36m2\x1b[0m \
         batches, \x1b[36m9\x1b[0m pos/sec)]\nEstimated time to end of superbatch: \
         \x1b[36m0.5\x1b[0ms     \x1b[F"
    );
}

#[test]
fn finished_report_names_all_figures() {
    let settings = LogSettings { colours_enabled: false, cbcs: false };
    assert_eq!(
        report_superbatch_finished(&settings, 12, "0.012345", "60.1", "721.9", "1000000"),
        "superbatch 12 | time 60.1s | running loss 0.012345 | 1000000 pos/sec | total time 721.9s\n"
    );
}

#[test]
fn time_left_is_shown_in_hours_minutes_and_seconds() {
    let settings = LogSettings { colours_enabled: false, cbcs: false };
    assert_eq!(
        report_time_left(&settings, 3 * 3600 + 25 * 60 + 7),
        "Estimated time remaining in training: 3h 25m 7s\n"
    );
    let settings = LogSettings { colours_enabled: true, cbcs: true };
    assert_eq!(
        report_time_left(&settings, 59),
        "Estimated time remaining in training: \x1b[35m0\x1b[0m\x1b[38;5;225mh \
         \x1b[35m0\x1b[0m\x1b[38;5;225mm \x1b[35m59\x1b[0m\x1b[38;5;225ms\n"
    );
}

#[test]
fn seconds_are_split() {
    assert_eq!(seconds_to_hms(0), (0, 0, 0));
    assert_eq!(seconds_to_hms(59), (0, 0, 59));
    assert_eq!(seconds_to_hms(60), (0, 1, 0));
    assert_eq!(seconds_to_hms(3599), (0, 59, 59));
    assert_eq!(seconds_to_hms(3600), (1, 0, 0));
    assert_eq!(seconds_to_hms(u32::MAX), (1193046, 28, 15));
}

#[test]
fn superbatches_are_counted_from_the_first_of_the_run() {
    let steps = TrainingSteps { start_superbatch: 11, end_superbatch: 20 };
    assert_eq!(superbatch_counts(&steps, 11), (1, 10));
    assert_eq!(superbatch_counts(&steps, 20), (10, 10));
}

/// What a terminal shows: all but the escape sequences.
fn visible(text: &str) -> String {
    let mut shown = String::new();
    let mut in_sequence = false;
    for c in text.chars() {
        if c == '\x1b' {
            in_sequence = true;
        } else if !in_sequence {
            shown.push(c);
        } else if c.is_ascii_alphabetic() {
            in_sequence = false;
        }
    }
    shown
}

#[test]
fn colours_are_all_that_changes() {
    for cbcs in [false, true] {
        let on = LogSettings { colours_enabled: true, cbcs };
        let off = LogSettings { colours_enabled: false, cbcs };
        assert_eq!(visible(&ansi(&on, "value", 31)), "value");
        assert_eq!(
            visible(&report_superbatch_progress(&on, 3, 20, 10, "50.0", "7", "1.5")),
            report_superbatch_progress(&off, 3, 20, 10, "50.0", "7", "1.5")
        );
        assert_eq!(
            visible(&report_superbatch_finished(&on, 3, "0.5", "1.0", "2.0", "9")),
            report_superbatch_finished(&off, 3, "0.5", "1.0", "2.0", "9")
        );
        assert_eq!(visible(&report_time_left(&on, 4000)), report_time_left(&off, 4000));
    }
}

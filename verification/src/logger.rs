//! What the trainer writes to its log.
//!
//! The functions here make the text; printing it is left to the caller. Figures with a
//! fractional part come in as the text that they are to be shown as.

use crate::text::{decimal, Text};
use vstd::prelude::*;

verus! {

/// How log lines are coloured.
#[derive(Clone, Copy, Debug, PartialEq, Eq, Structural)]
pub struct LogSettings {
    /// Whether escape sequences are written at all.
    pub colours_enabled: bool,
    /// Whether the second of the two colour schemes is used.
    pub cbcs: bool,
}

impl Default for LogSettings {
    /// Colours are on, in the first scheme.
    fn default() -> (settings: Self)
        ensures
            settings.colours_enabled,
            !settings.cbcs,
    {
        LogSettings { colours_enabled: true, cbcs: false }
    }
}

/// The superbatches of a training run, the first and the last of them included.
#[derive(Clone, Copy, Debug, PartialEq, Eq, Structural)]
pub struct TrainingSteps {
    pub start_superbatch: usize,
    pub end_superbatch: usize,
}

/// The escape sequence that goes back to the base colour of the colour scheme.
pub open spec fn esc_text(settings: LogSettings) -> Seq<char> {
    if settings.colours_enabled && settings.cbcs {
        "\x1b[38;5;225m"@
    } else {
        ""@
    }
}

/// The characters `x` in the colour with the code `y`.
pub open spec fn ansi_text(settings: LogSettings, x: Seq<char>, y: Seq<char>) -> Seq<char> {
    if settings.colours_enabled {
        "\x1b["@ + y + "m"@ + x + "\x1b[0m"@ + esc_text(settings)
    } else {
        x
    }
}

/// The escape sequence that starts the colour with the code `x`.
pub open spec fn set_colour_text(settings: LogSettings, x: Seq<char>) -> Seq<char> {
    if settings.colours_enabled {
        "\x1b["@ + x + "m"@
    } else {
        ""@
    }
}

/// The colour code of the figures in log lines.
pub open spec fn number_colour(settings: LogSettings) -> int {
    if settings.cbcs {
        35
    } else {
        36
    }
}

/// The characters `x` in the colour of figures.
pub open spec fn figure(settings: LogSettings, x: Seq<char>) -> Seq<char> {
    ansi_text(settings, x, decimal(number_colour(settings) as nat))
}

/// The escape sequence that moves back to the first line of a progress report.
pub open spec fn progress_line_suffix_text(settings: LogSettings) -> Seq<char> {
    if settings.colours_enabled {
        "\x1b[F"@
    } else {
        ""@
    }
}

/// `x` in the colour with the code `y`, or plain where colours are off.
pub fn ansi<T: Text, U: Text>(settings: &LogSettings, x: T, y: U) -> (out: String)
    ensures
        out@ == ansi_text(*settings, x.text(), y.text()),
{
    if settings.colours_enabled {
        let mut out: String = String::from_str("\x1b[");
        y.append_to(&mut out);
        out.append("m");
        x.append_to(&mut out);
        out.append("\x1b[0m");
        out.append(esc(settings));
        out
    } else {
        let mut out: String = String::new();
        x.append_to(&mut out);
        assert(out@ =~= x.text());
        out
    }
}

/// What starts the colour with the code `x`; nothing where colours are off.
pub fn set_colour<U: Text>(settings: &LogSettings, x: U) -> (out: String)
    ensures
        out@ == set_colour_text(*settings, x.text()),
{
    if settings.colours_enabled {
        let mut out: String = String::from_str("\x1b[");
        x.append_to(&mut out);
        out.append("m");
        out
    } else {
        String::from_str("")
    }
}

/// What goes back to the base colour.
pub fn clear_colours(settings: &LogSettings) -> (out: String)
    ensures
        out@ == esc_text(*settings),
{
    String::from_str(esc(settings))
}

/// Switches colours on or off.
pub fn set_colours_enabled(settings: &mut LogSettings, val: bool)
    ensures
        final(settings).colours_enabled == val,
        final(settings).cbcs == old(settings).cbcs,
{
    settings.colours_enabled = val;
}

/// Chooses the colour scheme.
pub fn set_cbcs(settings: &mut LogSettings, val: bool)
    ensures
        final(settings).cbcs == val,
        final(settings).colours_enabled == old(settings).colours_enabled,
{
    settings.cbcs = val;
}

/// The colour code of the figures in log lines.
pub fn num_cs(settings: &LogSettings) -> (code: i32)
    ensures
        code == number_colour(*settings),
{
    if settings.cbcs {
        35
    } else {
        36
    }
}

/// The escape sequence that goes back to the base colour; empty where there is none.
pub fn esc(settings: &LogSettings) -> (out: &'static str)
    ensures
        out@ == esc_text(*settings),
{
    if settings.colours_enabled && settings.cbcs {
        "\x1b[38;5;225m"
    } else {
        ""
    }
}

/// The escape sequence at the end of a progress report; empty where colours are off.
pub fn progress_line_suffix(settings: &LogSettings) -> (out: &'static str)
    ensures
        out@ == progress_line_suffix_text(*settings),
{
    if settings.colours_enabled {
        "\x1b[F"
    } else {
        ""
    }
}

/// The text of a progress report.
pub open spec fn superbatch_progress_text(
    settings: LogSettings,
    superbatch: nat,
    batches: nat,
    finished_batches: nat,
    pct: Seq<char>,
    pos_per_sec: Seq<char>,
    seconds: Seq<char>,
) -> Seq<char> {
    "superbatch "@ + figure(settings, decimal(superbatch)) + " ["@ + ansi_text(
        settings,
        pct,
        decimal(35),
    ) + "% ("@ + figure(settings, decimal(finished_batches)) + "/"@ + figure(
        settings,
        decimal(batches),
    ) + " batches, "@ + figure(settings, pos_per_sec)
        + " pos/sec)]\nEstimated time to end of superbatch: "@ + figure(settings, seconds)
        + "s     "@ + progress_line_suffix_text(settings)
}

/// The two lines that say how far the current superbatch is: the share of its batches that are
/// done (in percent), the speed, and the seconds that are left. The second line is not ended.
pub fn report_superbatch_progress(
    settings: &LogSettings,
    superbatch: usize,
    batches: usize,
    finished_batches: usize,
    pct: &str,
    pos_per_sec: &str,
    seconds: &str,
) -> (out: String)
    ensures
        out@ == superbatch_progress_text(
            *settings,
            superbatch as nat,
            batches as nat,
            finished_batches as nat,
            pct@,
            pos_per_sec@,
            seconds@,
        ),
{
    let code: i32 = num_cs(settings);
    let mut out: String = String::from_str("superbatch ");
    out.append(ansi(settings, superbatch, code).as_str());
    out.append(" [");
    out.append(ansi(settings, pct, 35i32).as_str());
    out.append("% (");
    out.append(ansi(settings, finished_batches, code).as_str());
    out.append("/");
    out.append(ansi(settings, batches, code).as_str());
    out.append(" batches, ");
    out.append(ansi(settings, pos_per_sec, code).as_str());
    out.append(" pos/sec)]\nEstimated time to end of superbatch: ");
    out.append(ansi(settings, seconds, code).as_str());
    out.append("s     ");
    out.append(progress_line_suffix(settings));
    out
}

/// The text of the report on a finished superbatch.
pub open spec fn superbatch_finished_text(
    settings: LogSettings,
    superbatch: nat,
    error: Seq<char>,
    superbatch_time: Seq<char>,
    total_time: Seq<char>,
    pos_per_sec: Seq<char>,
) -> Seq<char> {
    "superbatch "@ + figure(settings, decimal(superbatch)) + " | time "@ + figure(
        settings,
        superbatch_time,
    ) + "s | running loss "@ + figure(settings, error) + " | "@ + figure(settings, pos_per_sec)
        + " pos/sec | total time "@ + figure(settings, total_time) + "s\n"@
}

/// The line that is logged when a superbatch is finished.
pub fn report_superbatch_finished(
    settings: &LogSettings,
    superbatch: usize,
    error: &str,
    superbatch_time: &str,
    total_time: &str,
    pos_per_sec: &str,
) -> (out: String)
    ensures
        out@ == superbatch_finished_text(
            *settings,
            superbatch as nat,
            error@,
            superbatch_time@,
            total_time@,
            pos_per_sec@,
        ),
{
    let code: i32 = num_cs(settings);
    let mut out: String = String::from_str("superbatch ");
    out.append(ansi(settings, superbatch, code).as_str());
    out.append(" | time ");
    out.append(ansi(settings, superbatch_time, code).as_str());
    out.append("s | running loss ");
    out.append(ansi(settings, error, code).as_str());
    out.append(" | ");
    out.append(ansi(settings, pos_per_sec, code).as_str());
    out.append(" pos/sec | total time ");
    out.append(ansi(settings, total_time, code).as_str());
    out.append("s\n");
    out
}

/// How many superbatches of the run are done once `superbatch` is, and how many there are.
pub fn superbatch_counts(steps: &TrainingSteps, superbatch: usize) -> (counts: (usize, usize))
    requires
        steps.start_superbatch <= superbatch,
        steps.start_superbatch <= steps.end_superbatch,
        superbatch - steps.start_superbatch < usize::MAX,
        steps.end_superbatch - steps.start_superbatch < usize::MAX,
    ensures
        counts.0 == superbatch - steps.start_superbatch + 1,
        counts.1 == steps.end_superbatch - steps.start_superbatch + 1,
{
    let finished: usize = superbatch - steps.start_superbatch + 1;
    let total: usize = steps.end_superbatch - steps.start_superbatch + 1;
    (finished, total)
}

/// The text of the report on the time that is left.
pub open spec fn time_left_text(settings: LogSettings, time_left: nat) -> Seq<char> {
    "Estimated time remaining in training: "@ + figure(settings, decimal(time_left / 3600))
        + "h "@ + figure(settings, decimal(time_left / 60 % 60)) + "m "@ + figure(
        settings,
        decimal(time_left % 60),
    ) + "s\n"@
}

/// The line that says how long the training will still take, for a time in seconds.
pub fn report_time_left(settings: &LogSettings, time_left: u32) -> (out: String)
    ensures
        out@ == time_left_text(*settings, time_left as nat),
{
    let code: i32 = num_cs(settings);
    let hms: (u32, u32, u32) = seconds_to_hms(time_left);
    let mut out: String = String::from_str("Estimated time remaining in training: ");
    out.append(ansi(settings, hms.0, code).as_str());
    out.append("h ");
    out.append(ansi(settings, hms.1, code).as_str());
    out.append("m ");
    out.append(ansi(settings, hms.2, code).as_str());
    out.append("s\n");
    out
}

/// A number of seconds as hours, minutes and seconds.
pub fn seconds_to_hms(seconds: u32) -> (hms: (u32, u32, u32))
    ensures
        hms.0 == seconds / 3600,
        hms.1 == seconds / 60 % 60,
        hms.2 == seconds % 60,
        hms.0 * 3600 + hms.1 * 60 + hms.2 == seconds,
        hms.1 < 60,
        hms.2 < 60,
{
    let mut seconds: u32 = seconds;
    let mut minutes: u32 = seconds / 60;
    let hours: u32 = minutes / 60;
    seconds = seconds - minutes * 60;
    minutes = minutes - hours * 60;
    (hours, minutes, seconds)
}

} // verus!

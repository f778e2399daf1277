//! What the reports of the log say, word for word.

use crate::logger::{
    ansi_text, esc_text, figure, number_colour, progress_line_suffix_text, set_colour_text,
    superbatch_finished_text, superbatch_progress_text, time_left_text, LogSettings,
};
use crate::logger_laws::{colourless, law_colours_are_all_that_changes};
use crate::parse::{is_digit, lemma_decimal_value, lemma_length_before, length_before};
use crate::text::decimal;
use crate::text_laws::law_decimal_tells_apart;
use vstd::prelude::*;

verus! {

/// Where colours are on, a coloured text starts with the escape sequence of the code and ends with
/// the one that resets colours, which in the second scheme is followed by its base colour. Where
/// colours are off, it is the text.
pub proof fn law_coloured_text(settings: LogSettings, x: Seq<char>, y: Seq<char>)
    ensures
        ansi_text(settings, x, y) == if settings.colours_enabled {
            seq!['\x1b', '['] + y + seq!['m'] + x + seq!['\x1b', '[', '0', 'm'] + if settings.cbcs {
                seq!['\x1b', '[', '3', '8', ';', '5', ';', '2', '2', '5', 'm']
            } else {
                seq![]
            }
        } else {
            x
        },
{
    reveal_strlit("\x1b[");
    reveal_strlit("m");
    reveal_strlit("\x1b[0m");
    reveal_strlit("\x1b[38;5;225m");
    reveal_strlit("");
    assert("\x1b["@ =~= seq!['\x1b', '[']);
    assert("m"@ =~= seq!['m']);
    assert("\x1b[0m"@ =~= seq!['\x1b', '[', '0', 'm']);
    assert("\x1b[38;5;225m"@ =~= seq!['\x1b', '[', '3', '8', ';', '5', ';', '2', '2', '5', 'm']);
    assert(""@ =~= seq![]);
}

/// The base colour is that of the second scheme, where there are colours. A colour starts with
/// its escape sequence. A progress report ends by going back one line up. Without colours, none
/// of them is anything. Figures have the code 36, and 35 in the second scheme.
pub proof fn law_escape_sequences(settings: LogSettings, x: Seq<char>)
    ensures
        settings.colours_enabled && settings.cbcs ==> esc_text(settings) == seq![
            '\x1b',
            '[',
            '3',
            '8',
            ';',
            '5',
            ';',
            '2',
            '2',
            '5',
            'm',
        ],
        !(settings.colours_enabled && settings.cbcs) ==> esc_text(settings).len() == 0,
        set_colour_text(settings, x) == if settings.colours_enabled {
            seq!['\x1b', '['] + x + seq!['m']
        } else {
            seq![]
        },
        progress_line_suffix_text(settings) == if settings.colours_enabled {
            seq!['\x1b', '[', 'F']
        } else {
            seq![]
        },
        number_colour(settings) == if settings.cbcs {
            35int
        } else {
            36int
        },
{
    reveal_strlit("\x1b[");
    reveal_strlit("m");
    reveal_strlit("\x1b[F");
    reveal_strlit("\x1b[38;5;225m");
    reveal_strlit("");
    assert("\x1b["@ =~= seq!['\x1b', '[']);
    assert("m"@ =~= seq!['m']);
    assert("\x1b[F"@ =~= seq!['\x1b', '[', 'F']);
    assert("\x1b[38;5;225m"@ =~= seq!['\x1b', '[', '3', '8', ';', '5', ';', '2', '2', '5', 'm']);
    assert(""@ =~= seq![]);
}

/// What stands before a figure.
pub open spec fn figure_start(settings: LogSettings) -> Seq<char> {
    if !settings.colours_enabled {
        ""@
    } else if settings.cbcs {
        "\x1b[35m"@
    } else {
        "\x1b[36m"@
    }
}

/// What stands before a share.
pub open spec fn share_start(settings: LogSettings) -> Seq<char> {
    if settings.colours_enabled {
        "\x1b[35m"@
    } else {
        ""@
    }
}

/// What stands behind a figure or a share.
pub open spec fn figure_end(settings: LogSettings) -> Seq<char> {
    if !settings.colours_enabled {
        ""@
    } else if settings.cbcs {
        "\x1b[0m\x1b[38;5;225m"@
    } else {
        "\x1b[0m"@
    }
}

proof fn lemma_two_digits()
    ensures
        decimal(35) == seq!['3', '5'],
        decimal(36) == seq!['3', '6'],
{
    reveal_with_fuel(decimal, 2);
    assert(decimal(35) =~= seq!['3', '5']);
    assert(decimal(36) =~= seq!['3', '6']);
}

/// A figure or a share stands between these two sequences.
proof fn lemma_between(settings: LogSettings, x: Seq<char>)
    ensures
        figure(settings, x) == figure_start(settings) + x + figure_end(settings),
        ansi_text(settings, x, decimal(35)) == share_start(settings) + x + figure_end(settings),
{
    reveal_strlit("\x1b[");
    reveal_strlit("m");
    reveal_strlit("\x1b[0m");
    reveal_strlit("\x1b[38;5;225m");
    reveal_strlit("");
    reveal_strlit("\x1b[35m");
    reveal_strlit("\x1b[36m");
    reveal_strlit("\x1b[0m\x1b[38;5;225m");
    lemma_two_digits();
    assert("\x1b["@ + seq!['3', '5'] + "m"@ =~= "\x1b[35m"@);
    assert("\x1b["@ + seq!['3', '6'] + "m"@ =~= "\x1b[36m"@);
    assert("\x1b[0m"@ + "\x1b[38;5;225m"@ =~= "\x1b[0m\x1b[38;5;225m"@);
    assert(figure(settings, x) =~= figure_start(settings) + x + figure_end(settings));
    assert(ansi_text(settings, x, decimal(35)) =~= share_start(settings) + x + figure_end(
        settings,
    ));
}

/// What stands around figures: nothing where colours are off; else the code before, and the reset
/// behind, with the base colour in the second scheme.
pub proof fn law_around_figures(settings: LogSettings)
    ensures
        !settings.colours_enabled ==> figure_start(settings).len() == 0 && share_start(
            settings,
        ).len() == 0 && figure_end(settings).len() == 0,
        settings.colours_enabled ==> share_start(settings) == seq!['\x1b', '[', '3', '5', 'm'],
        settings.colours_enabled && settings.cbcs ==> figure_start(settings) == seq![
            '\x1b',
            '[',
            '3',
            '5',
            'm',
        ] && figure_end(settings) == seq!['\x1b', '[', '0', 'm'] + seq![
            '\x1b',
            '[',
            '3',
            '8',
            ';',
            '5',
            ';',
            '2',
            '2',
            '5',
            'm',
        ],
        settings.colours_enabled && !settings.cbcs ==> figure_start(settings) == seq![
            '\x1b',
            '[',
            '3',
            '6',
            'm',
        ] && figure_end(settings) == seq!['\x1b', '[', '0', 'm'],
{
    reveal_strlit("");
    reveal_strlit("\x1b[35m");
    reveal_strlit("\x1b[36m");
    reveal_strlit("\x1b[0m");
    reveal_strlit("\x1b[0m\x1b[38;5;225m");
    assert("\x1b[35m"@ =~= seq!['\x1b', '[', '3', '5', 'm']);
    assert("\x1b[36m"@ =~= seq!['\x1b', '[', '3', '6', 'm']);
    assert("\x1b[0m"@ =~= seq!['\x1b', '[', '0', 'm']);
    assert("\x1b[0m\x1b[38;5;225m"@ =~= seq!['\x1b', '[', '0', 'm'] + seq![
        '\x1b',
        '[',
        '3',
        '8',
        ';',
        '5',
        ';',
        '2',
        '2',
        '5',
        'm',
    ]);
}

/// A progress report names the superbatch, the share, the batches that are done and all of them,
/// the speed and the seconds, in this order and each where its unit stands.
pub proof fn law_progress_report(
    settings: LogSettings,
    superbatch: nat,
    batches: nat,
    finished_batches: nat,
    pct: Seq<char>,
    pos_per_sec: Seq<char>,
    seconds: Seq<char>,
)
    ensures
        ({
            let on = figure_start(settings);
            let off = figure_end(settings);
            superbatch_progress_text(
                settings,
                superbatch,
                batches,
                finished_batches,
                pct,
                pos_per_sec,
                seconds,
            ) == "superbatch "@ + (on + decimal(superbatch) + off) + " ["@ + (share_start(settings)
                + pct + off) + "% ("@ + (on + decimal(finished_batches) + off) + "/"@ + (on
                + decimal(batches) + off) + " batches, "@ + (on + pos_per_sec + off)
                + " pos/sec)]\nEstimated time to end of superbatch: "@ + (on + seconds + off)
                + "s     "@ + if settings.colours_enabled {
                "\x1b[F"@
            } else {
                ""@
            }
        }),
{
    lemma_between(settings, decimal(superbatch));
    lemma_between(settings, pct);
    lemma_between(settings, decimal(finished_batches));
    lemma_between(settings, decimal(batches));
    lemma_between(settings, pos_per_sec);
    lemma_between(settings, seconds);
}

/// The report on a finished superbatch names the superbatch, its time, the loss, the speed and
/// the total time, in this order and each where its unit stands.
pub proof fn law_finished_report(
    settings: LogSettings,
    superbatch: nat,
    error: Seq<char>,
    superbatch_time: Seq<char>,
    total_time: Seq<char>,
    pos_per_sec: Seq<char>,
)
    ensures
        ({
            let on = figure_start(settings);
            let off = figure_end(settings);
            superbatch_finished_text(
                settings,
                superbatch,
                error,
                superbatch_time,
                total_time,
                pos_per_sec,
            ) == "superbatch "@ + (on + decimal(superbatch) + off) + " | time "@ + (on
                + superbatch_time + off) + "s | running loss "@ + (on + error + off) + " | "@ + (on
                + pos_per_sec + off) + " pos/sec | total time "@ + (on + total_time + off) + "s\n"@
        }),
{
    lemma_between(settings, decimal(superbatch));
    lemma_between(settings, superbatch_time);
    lemma_between(settings, error);
    lemma_between(settings, pos_per_sec);
    lemma_between(settings, total_time);
}

/// A time of so many hours, minutes and seconds, with fewer than sixty minutes and seconds, is
/// reported as these hours, minutes and seconds, however many hours there are.
pub proof fn law_time_left_report(
    settings: LogSettings,
    hours: nat,
    minutes: nat,
    seconds: nat,
)
    requires
        minutes < 60,
        seconds < 60,
    ensures
        ({
            let on = figure_start(settings);
            let off = figure_end(settings);
            time_left_text(settings, hours * 3600 + minutes * 60 + seconds)
                == "Estimated time remaining in training: "@ + (on + decimal(hours) + off) + "h "@
                + (on + decimal(minutes) + off) + "m "@ + (on + decimal(seconds) + off) + "s\n"@
        }),
{
    let time_left = hours * 3600 + minutes * 60 + seconds;
    assert(time_left / 3600 == hours && time_left / 60 % 60 == minutes && time_left % 60
        == seconds);
    lemma_between(settings, decimal(hours));
    lemma_between(settings, decimal(minutes));
    lemma_between(settings, decimal(seconds));
}

proof fn lemma_number_before(n: nat, c: char, rest: Seq<char>)
    requires
        !is_digit(c),
    ensures
        length_before(decimal(n) + seq![c] + rest, c) == decimal(n).len(),
{
    let s = decimal(n) + seq![c] + rest;
    lemma_decimal_value(n);
    assert forall|i: int| 0 <= i < decimal(n).len() implies s[i] != c by {
        assert(s[i] == decimal(n)[i]);
        assert(is_digit(decimal(n)[i]));
    }
    lemma_length_before(s, c, decimal(n).len() as int);
}

/// Texts that go on alike after numbers with the same unit have the same number, and the same
/// text behind the unit.
proof fn lemma_same_number(m: nat, n: nat, c: char, x: Seq<char>, y: Seq<char>)
    requires
        !is_digit(c),
        decimal(m) + seq![c] + x == decimal(n) + seq![c] + y,
    ensures
        m == n,
        x == y,
{
    let s = decimal(m) + seq![c] + x;
    let t = decimal(n) + seq![c] + y;
    lemma_number_before(m, c, x);
    lemma_number_before(n, c, y);
    let k = decimal(m).len() as int;
    assert(s.take(k) =~= decimal(m));
    assert(t.take(k) =~= decimal(n));
    law_decimal_tells_apart(m, n);
    assert(s.skip(k + 1) =~= x);
    assert(t.skip(k + 1) =~= y);
}

/// A report without colours, number by number.
proof fn lemma_time_left_plain(settings: LogSettings, n: nat)
    requires
        !settings.colours_enabled,
    ensures
        time_left_text(settings, n) == "Estimated time remaining in training: "@ + (decimal(
            n / 3600,
        ) + seq!['h'] + (seq![' '] + (decimal(n / 60 % 60) + seq!['m'] + (seq![' '] + (decimal(
            n % 60,
        ) + seq!['s'] + seq!['\n']))))),
{
    reveal_strlit("h ");
    reveal_strlit("m ");
    reveal_strlit("s\n");
    let start = "Estimated time remaining in training: "@;
    let h = decimal(n / 3600);
    let m = decimal(n / 60 % 60);
    let s = decimal(n % 60);
    assert("h "@ =~= seq!['h'] + seq![' ']);
    assert("m "@ =~= seq!['m'] + seq![' ']);
    assert("s\n"@ =~= seq!['s'] + seq!['\n']);
    assert(time_left_text(settings, n) == start + h + "h "@ + m + "m "@ + s + "s\n"@);
    assert(start + h + "h "@ + m + "m "@ + s + "s\n"@ =~= start + (h + seq!['h'] + (seq![' '] + (m
        + seq!['m'] + (seq![' '] + (s + seq!['s'] + seq!['\n']))))));
}

proof fn lemma_same_end(start: Seq<char>, x: Seq<char>, y: Seq<char>)
    requires
        start + x == start + y,
    ensures
        x == y,
{
    assert((start + x).skip(start.len() as int) =~= x);
    assert((start + y).skip(start.len() as int) =~= y);
}

/// Reports on different times differ, whatever the colours.
pub proof fn law_time_left_tells_apart(settings: LogSettings, a: nat, b: nat)
    requires
        time_left_text(settings, a) == time_left_text(settings, b),
    ensures
        a == b,
{
    let none = Seq::<char>::empty();
    law_colours_are_all_that_changes(
        settings, none, 0, 0, 0, 0, none, none, none, none, none, none, a,
    );
    law_colours_are_all_that_changes(
        settings, none, 0, 0, 0, 0, none, none, none, none, none, none, b,
    );
    lemma_time_left_plain(colourless(settings), a);
    lemma_time_left_plain(colourless(settings), b);
    let a3 = decimal(a % 60) + seq!['s'] + seq!['\n'];
    let b3 = decimal(b % 60) + seq!['s'] + seq!['\n'];
    let a2 = decimal(a / 60 % 60) + seq!['m'] + (seq![' '] + a3);
    let b2 = decimal(b / 60 % 60) + seq!['m'] + (seq![' '] + b3);
    let a1 = decimal(a / 3600) + seq!['h'] + (seq![' '] + a2);
    let b1 = decimal(b / 3600) + seq!['h'] + (seq![' '] + b2);
    lemma_same_end("Estimated time remaining in training: "@, a1, b1);
    lemma_same_number(a / 3600, b / 3600, 'h', seq![' '] + a2, seq![' '] + b2);
    lemma_same_end(seq![' '], a2, b2);
    lemma_same_number(a / 60 % 60, b / 60 % 60, 'm', seq![' '] + a3, seq![' '] + b3);
    lemma_same_end(seq![' '], a3, b3);
    lemma_same_number(a % 60, b % 60, 's', seq!['\n'], seq!['\n']);
}

} // verus!

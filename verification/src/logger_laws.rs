//! What colours do to the log, and what they leave alone.

use crate::logger::{
    ansi_text, esc_text, figure, number_colour, progress_line_suffix_text, set_colour_text,
    superbatch_finished_text, superbatch_progress_text, time_left_text, LogSettings,
};
use crate::parse::{is_digit, lemma_decimal_value};
use crate::text::decimal;
use vstd::prelude::*;

verus! {

/// Whether no escape sequence starts in `s`.
pub open spec fn has_no_escape(s: Seq<char>) -> bool {
    forall|i: int| 0 <= i < s.len() ==> #[trigger] s[i] != '\x1b'
}

proof fn lemma_no_escape_in_decimal(n: nat)
    ensures
        has_no_escape(decimal(n)),
{
    lemma_decimal_value(n);
    assert forall|i: int| 0 <= i < decimal(n).len() implies #[trigger] decimal(n)[i] != '\x1b' by {
        assert(is_digit(decimal(n)[i]));
    }
}

/// Where colours are off, the log holds no escape sequence that its arguments did not bring in,
/// and a coloured text is the text itself.
pub proof fn law_no_escape_without_colours(
    settings: LogSettings,
    x: Seq<char>,
    y: Seq<char>,
    superbatch: nat,
    batches: nat,
    finished_batches: nat,
    pct: Seq<char>,
    pos_per_sec: Seq<char>,
    seconds: Seq<char>,
    error: Seq<char>,
    superbatch_time: Seq<char>,
    total_time: Seq<char>,
    time_left: nat,
)
    requires
        !settings.colours_enabled,
        has_no_escape(pct),
        has_no_escape(pos_per_sec),
        has_no_escape(seconds),
        has_no_escape(error),
        has_no_escape(superbatch_time),
        has_no_escape(total_time),
    ensures
        ansi_text(settings, x, y) == x,
        set_colour_text(settings, x).len() == 0,
        esc_text(settings).len() == 0,
        progress_line_suffix_text(settings).len() == 0,
        has_no_escape(
            superbatch_progress_text(
                settings,
                superbatch,
                batches,
                finished_batches,
                pct,
                pos_per_sec,
                seconds,
            ),
        ),
        has_no_escape(
            superbatch_finished_text(
                settings,
                superbatch,
                error,
                superbatch_time,
                total_time,
                pos_per_sec,
            ),
        ),
        has_no_escape(time_left_text(settings, time_left)),
{
    reveal_strlit("");
    reveal_strlit("superbatch ");
    reveal_strlit(" [");
    reveal_strlit("% (");
    reveal_strlit("/");
    reveal_strlit(" batches, ");
    reveal_strlit(" pos/sec)]\nEstimated time to end of superbatch: ");
    reveal_strlit("s     ");
    reveal_strlit(" | time ");
    reveal_strlit("s | running loss ");
    reveal_strlit(" | ");
    reveal_strlit(" pos/sec | total time ");
    reveal_strlit("s\n");
    reveal_strlit("Estimated time remaining in training: ");
    reveal_strlit("h ");
    reveal_strlit("m ");
    lemma_no_escape_in_decimal(superbatch);
    lemma_no_escape_in_decimal(batches);
    lemma_no_escape_in_decimal(finished_batches);
    lemma_no_escape_in_decimal(time_left / 3600);
    lemma_no_escape_in_decimal(time_left / 60 % 60);
    lemma_no_escape_in_decimal(time_left % 60);
}

/// Whether `c` ends an escape sequence.
pub open spec fn is_letter(c: char) -> bool {
    'A' <= c <= 'Z' || 'a' <= c <= 'z'
}

/// The length of the escape sequence at the start of `s`: up to its first letter.
pub open spec fn sequence_length(s: Seq<char>) -> nat
    decreases s.len(),
{
    if s.len() == 0 {
        0
    } else if is_letter(s[0]) {
        1
    } else {
        1 + sequence_length(s.drop_first())
    }
}

/// An escape sequence ends within the text.
pub proof fn lemma_sequence_within(s: Seq<char>)
    requires
        s.len() > 0,
    ensures
        0 < sequence_length(s) <= s.len(),
    decreases s.len(),
{
    let rest = s.drop_first();
    if rest.len() == 0 {
        assert(sequence_length(rest) == 0);
    } else {
        lemma_sequence_within(rest);
    }
}

/// What a terminal shows of `s`: all but the escape sequences.
pub open spec fn visible(s: Seq<char>) -> Seq<char>
    decreases s.len(),
{
    if s.len() == 0 {
        seq![]
    } else if s[0] == '\x1b' {
        proof {
            lemma_sequence_within(s);
        }
        visible(s.skip(sequence_length(s) as int))
    } else {
        seq![s[0]] + visible(s.drop_first())
    }
}

proof fn lemma_visible_plain(a: Seq<char>, rest: Seq<char>)
    requires
        has_no_escape(a),
    ensures
        visible(a + rest) == a + visible(rest),
    decreases a.len(),
{
    if a.len() == 0 {
        assert(a + rest =~= rest);
        assert(a + visible(rest) =~= visible(rest));
    } else {
        let s = a + rest;
        assert(s[0] == a[0]);
        assert(s.drop_first() =~= a.drop_first() + rest);
        assert forall|i: int| 0 <= i < a.drop_first().len() implies #[trigger] a.drop_first()[i]
            != '\x1b' by {
            assert(a.drop_first()[i] == a[i + 1]);
        }
        lemma_visible_plain(a.drop_first(), rest);
        assert(a =~= seq![a[0]] + a.drop_first());
        assert(seq![a[0]] + (a.drop_first() + visible(rest)) =~= a + visible(rest));
    }
}

proof fn lemma_sequence_length(a: Seq<char>, rest: Seq<char>)
    requires
        a.len() > 0,
        is_letter(a.last()),
        forall|i: int| 0 <= i < a.len() - 1 ==> !is_letter(#[trigger] a[i]),
    ensures
        sequence_length(a + rest) == a.len(),
    decreases a.len(),
{
    let s = a + rest;
    assert(s[0] == a[0]);
    if a.len() > 1 {
        let b = a.drop_first();
        assert(!is_letter(a[0]));
        assert forall|i: int| 0 <= i < b.len() - 1 implies !is_letter(#[trigger] b[i]) by {
            assert(b[i] == a[i + 1]);
        }
        assert(s.drop_first() =~= b + rest);
        lemma_sequence_length(b, rest);
    }
}

proof fn lemma_visible_sequence(a: Seq<char>, rest: Seq<char>)
    requires
        a.len() > 0,
        a[0] == '\x1b',
        is_letter(a.last()),
        forall|i: int| 0 <= i < a.len() - 1 ==> !is_letter(#[trigger] a[i]),
    ensures
        visible(a + rest) == visible(rest),
{
    lemma_sequence_length(a, rest);
    assert((a + rest)[0] == '\x1b');
    assert((a + rest).skip(a.len() as int) =~= rest);
}

proof fn lemma_visible_ansi(settings: LogSettings, x: Seq<char>, code: nat, rest: Seq<char>)
    requires
        has_no_escape(x),
    ensures
        visible(ansi_text(settings, x, decimal(code)) + rest) == x + visible(rest),
{
    if settings.colours_enabled {
        reveal_strlit("\x1b[");
        reveal_strlit("m");
        reveal_strlit("\x1b[0m");
        reveal_strlit("\x1b[38;5;225m");
        reveal_strlit("");
        let y = decimal(code);
        lemma_decimal_value(code);
        let start = "\x1b["@ + y + "m"@;
        let esc = esc_text(settings);
        let after = esc + rest;
        let reset = "\x1b[0m"@ + after;
        assert(ansi_text(settings, x, y) + rest =~= start + (x + reset));
        assert forall|i: int| 0 <= i < start.len() - 1 implies !is_letter(#[trigger] start[i]) by {
            if 2 <= i {
                assert(start[i] == y[i - 2]);
                assert(is_digit(y[i - 2]));
            }
        }
        lemma_visible_sequence(start, x + reset);
        lemma_visible_plain(x, reset);
        lemma_visible_sequence("\x1b[0m"@, after);
        if settings.cbcs {
            lemma_visible_sequence(esc, rest);
        } else {
            assert(after =~= rest);
        }
    } else {
        lemma_visible_plain(x, rest);
    }
}

/// The settings with colours off.
pub open spec fn colourless(settings: LogSettings) -> LogSettings {
    LogSettings { colours_enabled: false, ..settings }
}

/// Whether a terminal shows `a` as `v`, whatever follows.
#[verifier::opaque]
pub open spec fn shows(a: Seq<char>, v: Seq<char>) -> bool {
    forall|rest: Seq<char>| #[trigger] visible(a + rest) == v + visible(rest)
}

proof fn lemma_shows_plain(a: Seq<char>)
    requires
        has_no_escape(a),
    ensures
        shows(a, a),
{
    reveal(shows);
    assert forall|rest: Seq<char>| #[trigger] visible(a + rest) == a + visible(rest) by {
        lemma_visible_plain(a, rest);
    }
}

proof fn lemma_shows_all(a: Seq<char>, v: Seq<char>)
    requires
        shows(a, v),
    ensures
        visible(a) == v,
{
    reveal(shows);
    let nothing = Seq::<char>::empty();
    assert(visible(a + nothing) == v + visible(nothing));
    assert(a + nothing =~= a);
    assert(v + visible(nothing) =~= v);
}

proof fn lemma_shows_both(a: Seq<char>, v: Seq<char>, b: Seq<char>, w: Seq<char>)
    requires
        shows(a, v),
        shows(b, w),
    ensures
        shows(a + b, v + w),
{
    reveal(shows);
    assert forall|rest: Seq<char>| #[trigger] visible(a + b + rest) == v + w + visible(rest) by {
        assert(a + b + rest =~= a + (b + rest));
        assert(visible(a + (b + rest)) == v + visible(b + rest));
        assert(v + (w + visible(rest)) =~= v + w + visible(rest));
    }
}

/// Adds a text that stands as it is.
proof fn lemma_shows_then_plain(a: Seq<char>, v: Seq<char>, plain: Seq<char>)
    requires
        shows(a, v),
        has_no_escape(plain),
    ensures
        shows(a + plain, v + plain),
{
    lemma_shows_plain(plain);
    lemma_shows_both(a, v, plain, plain);
}

/// Adds a coloured text.
proof fn lemma_shows_then_ansi(
    settings: LogSettings,
    a: Seq<char>,
    v: Seq<char>,
    x: Seq<char>,
    code: nat,
)
    requires
        shows(a, v),
        has_no_escape(x),
    ensures
        shows(
            a + ansi_text(settings, x, decimal(code)),
            v + ansi_text(colourless(settings), x, decimal(code)),
        ),
{
    let coloured = ansi_text(settings, x, decimal(code));
    assert(shows(coloured, x)) by {
        reveal(shows);
        assert forall|rest: Seq<char>| #[trigger] visible(coloured + rest) == x + visible(rest) by {
            lemma_visible_ansi(settings, x, code, rest);
        }
    }
    lemma_shows_both(a, v, coloured, x);
}

/// Adds a figure.
proof fn lemma_shows_then_figure(
    settings: LogSettings,
    a: Seq<char>,
    v: Seq<char>,
    x: Seq<char>,
)
    requires
        shows(a, v),
        has_no_escape(x),
    ensures
        shows(a + figure(settings, x), v + figure(colourless(settings), x)),
{
    lemma_shows_then_ansi(settings, a, v, x, number_colour(settings) as nat);
}

proof fn lemma_progress_visible(
    settings: LogSettings,
    superbatch: nat,
    batches: nat,
    finished_batches: nat,
    pct: Seq<char>,
    pos_per_sec: Seq<char>,
    seconds: Seq<char>,
)
    requires
        has_no_escape(pct),
        has_no_escape(pos_per_sec),
        has_no_escape(seconds),
    ensures
        visible(
            superbatch_progress_text(
                settings,
                superbatch,
                batches,
                finished_batches,
                pct,
                pos_per_sec,
                seconds,
            ),
        ) == superbatch_progress_text(
            colourless(settings),
            superbatch,
            batches,
            finished_batches,
            pct,
            pos_per_sec,
            seconds,
        ),
{
    reveal_strlit("");
    reveal_strlit("\x1b[F");
    reveal_strlit("superbatch ");
    reveal_strlit(" [");
    reveal_strlit("% (");
    reveal_strlit("/");
    reveal_strlit(" batches, ");
    reveal_strlit(" pos/sec)]\nEstimated time to end of superbatch: ");
    reveal_strlit("s     ");
    lemma_no_escape_in_decimal(superbatch);
    lemma_no_escape_in_decimal(batches);
    lemma_no_escape_in_decimal(finished_batches);
    let off = colourless(settings);
    let a0 = "superbatch "@;
    let v0 = a0;
    lemma_shows_plain(a0);
    let a1 = a0 + figure(settings, decimal(superbatch));
    let v1 = v0 + figure(off, decimal(superbatch));
    lemma_shows_then_figure(settings, a0, v0, decimal(superbatch));
    let a2 = a1 + " ["@;
    let v2 = v1 + " ["@;
    lemma_shows_then_plain(a1, v1, " ["@);
    let a3 = a2 + ansi_text(settings, pct, decimal(35));
    let v3 = v2 + ansi_text(off, pct, decimal(35));
    lemma_shows_then_ansi(settings, a2, v2, pct, 35);
    let a4 = a3 + "% ("@;
    let v4 = v3 + "% ("@;
    lemma_shows_then_plain(a3, v3, "% ("@);
    let a5 = a4 + figure(settings, decimal(finished_batches));
    let v5 = v4 + figure(off, decimal(finished_batches));
    lemma_shows_then_figure(settings, a4, v4, decimal(finished_batches));
    let a6 = a5 + "/"@;
    let v6 = v5 + "/"@;
    lemma_shows_then_plain(a5, v5, "/"@);
    let a7 = a6 + figure(settings, decimal(batches));
    let v7 = v6 + figure(off, decimal(batches));
    lemma_shows_then_figure(settings, a6, v6, decimal(batches));
    let a8 = a7 + " batches, "@;
    let v8 = v7 + " batches, "@;
    lemma_shows_then_plain(a7, v7, " batches, "@);
    let a9 = a8 + figure(settings, pos_per_sec);
    let v9 = v8 + figure(off, pos_per_sec);
    lemma_shows_then_figure(settings, a8, v8, pos_per_sec);
    let a10 = a9 + " pos/sec)]\nEstimated time to end of superbatch: "@;
    let v10 = v9 + " pos/sec)]\nEstimated time to end of superbatch: "@;
    lemma_shows_then_plain(a9, v9, " pos/sec)]\nEstimated time to end of superbatch: "@);
    let a11 = a10 + figure(settings, seconds);
    let v11 = v10 + figure(off, seconds);
    lemma_shows_then_figure(settings, a10, v10, seconds);
    let a12 = a11 + "s     "@;
    let v12 = v11 + "s     "@;
    lemma_shows_then_plain(a11, v11, "s     "@);
    let suffix = progress_line_suffix_text(settings);
    assert(shows(suffix, ""@)) by {
        reveal(shows);
        assert forall|rest: Seq<char>| #[trigger] visible(suffix + rest) == ""@ + visible(rest) by {
            if settings.colours_enabled {
                lemma_visible_sequence(suffix, rest);
            } else {
                lemma_visible_plain(suffix, rest);
            }
            assert(""@ + visible(rest) =~= visible(rest));
        }
    }
    lemma_shows_both(a12, v12, suffix, ""@);
    lemma_shows_all(a12 + suffix, v12 + ""@);
}

proof fn lemma_finished_visible(
    settings: LogSettings,
    superbatch: nat,
    error: Seq<char>,
    superbatch_time: Seq<char>,
    total_time: Seq<char>,
    pos_per_sec: Seq<char>,
)
    requires
        has_no_escape(error),
        has_no_escape(superbatch_time),
        has_no_escape(total_time),
        has_no_escape(pos_per_sec),
    ensures
        visible(
            superbatch_finished_text(
                settings,
                superbatch,
                error,
                superbatch_time,
                total_time,
                pos_per_sec,
            ),
        ) == superbatch_finished_text(
            colourless(settings),
            superbatch,
            error,
            superbatch_time,
            total_time,
            pos_per_sec,
        ),
{
    reveal_strlit("superbatch ");
    reveal_strlit(" | time ");
    reveal_strlit("s | running loss ");
    reveal_strlit(" | ");
    reveal_strlit(" pos/sec | total time ");
    reveal_strlit("s\n");
    lemma_no_escape_in_decimal(superbatch);
    let off = colourless(settings);
    let a0 = "superbatch "@;
    let v0 = a0;
    lemma_shows_plain(a0);
    let a1 = a0 + figure(settings, decimal(superbatch));
    let v1 = v0 + figure(off, decimal(superbatch));
    lemma_shows_then_figure(settings, a0, v0, decimal(superbatch));
    let a2 = a1 + " | time "@;
    let v2 = v1 + " | time "@;
    lemma_shows_then_plain(a1, v1, " | time "@);
    let a3 = a2 + figure(settings, superbatch_time);
    let v3 = v2 + figure(off, superbatch_time);
    lemma_shows_then_figure(settings, a2, v2, superbatch_time);
    let a4 = a3 + "s | running loss "@;
    let v4 = v3 + "s | running loss "@;
    lemma_shows_then_plain(a3, v3, "s | running loss "@);
    let a5 = a4 + figure(settings, error);
    let v5 = v4 + figure(off, error);
    lemma_shows_then_figure(settings, a4, v4, error);
    let a6 = a5 + " | "@;
    let v6 = v5 + " | "@;
    lemma_shows_then_plain(a5, v5, " | "@);
    let a7 = a6 + figure(settings, pos_per_sec);
    let v7 = v6 + figure(off, pos_per_sec);
    lemma_shows_then_figure(settings, a6, v6, pos_per_sec);
    let a8 = a7 + " pos/sec | total time "@;
    let v8 = v7 + " pos/sec | total time "@;
    lemma_shows_then_plain(a7, v7, " pos/sec | total time "@);
    let a9 = a8 + figure(settings, total_time);
    let v9 = v8 + figure(off, total_time);
    lemma_shows_then_figure(settings, a8, v8, total_time);
    let a10 = a9 + "s\n"@;
    let v10 = v9 + "s\n"@;
    lemma_shows_then_plain(a9, v9, "s\n"@);
    lemma_shows_all(a10, v10);
}

proof fn lemma_time_left_visible(settings: LogSettings, time_left: nat)
    ensures
        visible(time_left_text(settings, time_left)) == time_left_text(
            colourless(settings),
            time_left,
        ),
{
    reveal_strlit("Estimated time remaining in training: ");
    reveal_strlit("h ");
    reveal_strlit("m ");
    reveal_strlit("s\n");
    lemma_no_escape_in_decimal(time_left / 3600);
    lemma_no_escape_in_decimal(time_left / 60 % 60);
    lemma_no_escape_in_decimal(time_left % 60);
    let off = colourless(settings);
    let a0 = "Estimated time remaining in training: "@;
    let v0 = a0;
    lemma_shows_plain(a0);
    let a1 = a0 + figure(settings, decimal(time_left / 3600));
    let v1 = v0 + figure(off, decimal(time_left / 3600));
    lemma_shows_then_figure(settings, a0, v0, decimal(time_left / 3600));
    let a2 = a1 + "h "@;
    let v2 = v1 + "h "@;
    lemma_shows_then_plain(a1, v1, "h "@);
    let a3 = a2 + figure(settings, decimal(time_left / 60 % 60));
    let v3 = v2 + figure(off, decimal(time_left / 60 % 60));
    lemma_shows_then_figure(settings, a2, v2, decimal(time_left / 60 % 60));
    let a4 = a3 + "m "@;
    let v4 = v3 + "m "@;
    lemma_shows_then_plain(a3, v3, "m "@);
    let a5 = a4 + figure(settings, decimal(time_left % 60));
    let v5 = v4 + figure(off, decimal(time_left % 60));
    lemma_shows_then_figure(settings, a4, v4, decimal(time_left % 60));
    let a6 = a5 + "s\n"@;
    let v6 = v5 + "s\n"@;
    lemma_shows_then_plain(a5, v5, "s\n"@);
    lemma_shows_all(a6, v6);
}

/// Colours change nothing that is seen but the colour: a terminal shows of a coloured text the
/// text, and of each report the report without colours.
pub proof fn law_colours_are_all_that_changes(
    settings: LogSettings,
    x: Seq<char>,
    code: nat,
    superbatch: nat,
    batches: nat,
    finished_batches: nat,
    pct: Seq<char>,
    pos_per_sec: Seq<char>,
    seconds: Seq<char>,
    error: Seq<char>,
    superbatch_time: Seq<char>,
    total_time: Seq<char>,
    time_left: nat,
)
    requires
        has_no_escape(x),
        has_no_escape(pct),
        has_no_escape(pos_per_sec),
        has_no_escape(seconds),
        has_no_escape(error),
        has_no_escape(superbatch_time),
        has_no_escape(total_time),
    ensures
        visible(ansi_text(settings, x, decimal(code))) == x,
        visible(
            superbatch_progress_text(
                settings,
                superbatch,
                batches,
                finished_batches,
                pct,
                pos_per_sec,
                seconds,
            ),
        ) == superbatch_progress_text(
            colourless(settings),
            superbatch,
            batches,
            finished_batches,
            pct,
            pos_per_sec,
            seconds,
        ),
        visible(
            superbatch_finished_text(
                settings,
                superbatch,
                error,
                superbatch_time,
                total_time,
                pos_per_sec,
            ),
        ) == superbatch_finished_text(
            colourless(settings),
            superbatch,
            error,
            superbatch_time,
            total_time,
            pos_per_sec,
        ),
        visible(time_left_text(settings, time_left)) == time_left_text(
            colourless(settings),
            time_left,
        ),
{
    lemma_visible_ansi(settings, x, code, seq![]);
    assert(ansi_text(settings, x, decimal(code)) + Seq::<char>::empty() =~= ansi_text(
        settings,
        x,
        decimal(code),
    ));
    assert(x + visible(seq![]) =~= x);
    lemma_progress_visible(
        settings,
        superbatch,
        batches,
        finished_batches,
        pct,
        pos_per_sec,
        seconds,
    );
    lemma_finished_visible(
        settings,
        superbatch,
        error,
        superbatch_time,
        total_time,
        pos_per_sec,
    );
    lemma_time_left_visible(settings, time_left);
}

} // verus!

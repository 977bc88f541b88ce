//! Colouring of the status-bar text and the usage levels that pick a colour.

use colored::Colorize;
use vstd::prelude::*;

use crate::ansi::{
    escape_free, escape_len, escapes_closed, is_escape_param, is_open_escape,
    lemma_closed_concat, lemma_escape_free_closed, lemma_param_prefix, lemma_strip_concat,
    lemma_strip_escape_free, param_prefix_len, strip_ansi,
};

verus! {

/// How close a reading is to its limit, which picks the colour it is shown in.
#[derive(PartialEq, Eq, Structural, Clone, Copy, Debug)]
pub enum UsageLevel {
    /// Below the warning threshold: bright green.
    Normal,
    /// At or above the warning threshold, below the critical one: yellow.
    Warning,
    /// At or above the critical threshold: bright red.
    Critical,
}

/// Warning threshold of the CPU and GPU load, in percent.
pub const CPU_WARN_PCT: u32 = 50;

/// Critical threshold of the CPU and GPU load, in percent.
pub const CPU_CRIT_PCT: u32 = 80;

/// Warning threshold of the RAM and VRAM use, in percent.
pub const MEM_WARN_PCT: u32 = 60;

/// Critical threshold of the RAM and VRAM use, in percent.
pub const MEM_CRIT_PCT: u32 = 80;

/// The level of a reading: critical wins over warning, warning over normal.
pub open spec fn level_of(reaches_warn: bool, reaches_crit: bool) -> UsageLevel {
    if reaches_crit {
        UsageLevel::Critical
    } else if reaches_warn {
        UsageLevel::Warning
    } else {
        UsageLevel::Normal
    }
}

impl UsageLevel {
    /// The level of a reading, given whether it reaches the warning and the
    /// critical threshold.
    pub fn classify(reaches_warn: bool, reaches_crit: bool) -> (level: UsageLevel)
        ensures
            level == level_of(reaches_warn, reaches_crit),
    {
        if reaches_crit {
            UsageLevel::Critical
        } else if reaches_warn {
            UsageLevel::Warning
        } else {
            UsageLevel::Normal
        }
    }
}

/// The level of a whole-number percentage against the two thresholds.
pub fn level_for_percent(pct: u32, warn: u32, crit: u32) -> (level: UsageLevel)
    ensures
        level == level_of(pct >= warn, pct >= crit),
{
    UsageLevel::classify(pct >= warn, pct >= crit)
}

/// The order of the levels: normal, warning, critical.
pub open spec fn level_rank(level: UsageLevel) -> int {
    match level {
        UsageLevel::Normal => 0,
        UsageLevel::Warning => 1,
        UsageLevel::Critical => 2,
    }
}

/// A higher reading is never shown at a lower level: the level of a
/// percentage grows with the percentage, whatever the thresholds.
pub proof fn lemma_level_monotone(low: u32, high: u32, warn: u32, crit: u32)
    requires
        low <= high,
    ensures
        level_rank(level_of(low >= warn, low >= crit)) <= level_rank(
            level_of(high >= warn, high >= crit),
        ),
{
}

/// The reset sequence `ESC [ 0 m`.
pub open spec fn reset_seq() -> Seq<char> {
    seq!['\x1b', '[', '0', 'm']
}

/// The select-graphic-rendition sequence `ESC [ code m` that starts a style.
pub open spec fn style_seq(code: Seq<char>) -> Seq<char> {
    seq!['\x1b', '['] + code + seq!['m']
}

/// Reaching a threshold is all that raises the level: when the second
/// reading reaches every threshold the first reaches, its level is at least
/// as high. (For percentages compared as floats, `p <= q` gives this for
/// any thresholds, as long as neither is NaN.)
pub proof fn lemma_classify_monotone(warn1: bool, crit1: bool, warn2: bool, crit2: bool)
    requires
        warn1 ==> warn2,
        crit1 ==> crit2,
    ensures
        level_rank(level_of(warn1, crit1)) <= level_rank(level_of(warn2, crit2)),
{
}

/// `text` between the select-graphic-rendition sequence `ESC [ code m` and
/// the reset sequence `ESC [ 0 m`.
pub open spec fn sgr(code: Seq<char>, text: Seq<char>) -> Seq<char> {
    style_seq(code) + text + reset_seq()
}

/// `text` with `style` put after each reset sequence in it, the resets taken
/// from the left without overlap: how colored keeps a style on across a
/// coloured text nested in the text.
pub open spec fn reinsert_style(text: Seq<char>, style: Seq<char>) -> Seq<char>
    decreases text.len(),
{
    if text.len() == 0 {
        Seq::empty()
    } else if text.len() >= 4 && text.take(4) == reset_seq() {
        reset_seq() + style + reinsert_style(text.skip(4), style)
    } else {
        seq![text[0]] + reinsert_style(text.skip(1), style)
    }
}

/// `shown` is `text` as colored writes it with the style `code`. colored
/// reads whether to colour up to three times while it writes: before all,
/// text alone when colouring is off; then the style sequence (or nothing),
/// the text with the style put back after each inner reset (or the text as
/// it is), and the reset sequence.
pub open spec fn painted_as(shown: Seq<char>, code: Seq<char>, text: Seq<char>) -> bool {
    let styled_text = reinsert_style(text, style_seq(code));
    ||| shown == text
    ||| shown == style_seq(code) + styled_text + reset_seq()
    ||| shown == style_seq(code) + text + reset_seq()
    ||| shown == styled_text + reset_seq()
    ||| shown == text + reset_seq()
}

/// The SGR code of bright red.
pub open spec fn code_bright_red() -> Seq<char> {
    seq!['9', '1']
}

/// The SGR code of yellow.
pub open spec fn code_yellow() -> Seq<char> {
    seq!['3', '3']
}

/// The SGR code of bright green.
pub open spec fn code_bright_green() -> Seq<char> {
    seq!['9', '2']
}

/// The SGR code of bright black.
pub open spec fn code_bright_black() -> Seq<char> {
    seq!['9', '0']
}

/// The SGR code of bold bright black.
pub open spec fn code_bold_bright_black() -> Seq<char> {
    seq!['1', ';', '9', '0']
}

/// The styles the status bar uses.
#[derive(PartialEq, Eq, Structural, Clone, Copy, Debug)]
pub enum Paint {
    BrightRed,
    Yellow,
    BrightGreen,
    BrightBlack,
    BoldBrightBlack,
}

/// The SGR code of a style.
pub open spec fn paint_code(paint: Paint) -> Seq<char> {
    match paint {
        Paint::BrightRed => code_bright_red(),
        Paint::Yellow => code_yellow(),
        Paint::BrightGreen => code_bright_green(),
        Paint::BrightBlack => code_bright_black(),
        Paint::BoldBrightBlack => code_bold_bright_black(),
    }
}

/// The colour of a level: bright red when critical, yellow at the warning
/// level, bright green otherwise.
pub open spec fn level_paint(level: UsageLevel) -> Paint {
    match level {
        UsageLevel::Critical => Paint::BrightRed,
        UsageLevel::Warning => Paint::Yellow,
        UsageLevel::Normal => Paint::BrightGreen,
    }
}

/// A text with the style it is to be shown in.
pub struct Styled {
    pub text: String,
    pub paint: Paint,
}

/// Every character of `code` is a digit or `;`.
pub open spec fn all_params(code: Seq<char>) -> bool {
    forall|j: int| 0 <= j < code.len() ==> is_escape_param(#[trigger] code[j])
}

/// Trusted: `colored::Colorize::bright_red` on `text`, written out with `ToString`.
/// colored writes the text alone when colouring is off (by the environment, by
/// the terminal, or by `colored::control::set_override(false)`), and otherwise
/// `ESC[91m`, the text with `ESC[91m` put back after each `ESC[0m` in it, and
/// `ESC[0m`. It reads whether to colour up to three times while writing, so
/// when another thread turns colouring off meanwhile, the style sequence, or
/// the style put back, or both, are left out (see `painted_as`). Which form
/// comes out is global state, which the contract leaves open.
#[verifier::external_body]
fn bright_red(text: &str) -> (r: String)
    ensures
        painted_as(r@, code_bright_red(), text@),
{
    text.bright_red().to_string()
}

/// Trusted: `colored::Colorize::yellow` on `text`, written out with `ToString`:
/// the text alone when colouring is off, else `ESC[33m`, the text, `ESC[0m`
/// (with the style put back after each `ESC[0m` in the text); or, when
/// colouring is turned off while colored writes, one of the partial forms of
/// `painted_as`. Which form comes out is global state.
#[verifier::external_body]
fn yellow(text: &str) -> (r: String)
    ensures
        painted_as(r@, code_yellow(), text@),
{
    text.yellow().to_string()
}

/// Trusted: `colored::Colorize::bright_green` on `text`, written out with
/// `ToString`: the text alone when colouring is off, else `ESC[92m`, the text,
/// `ESC[0m` (with the style put back after each `ESC[0m` in the text); or,
/// when colouring is turned off while colored writes, one of the partial
/// forms of `painted_as`. Which form comes out is global state.
#[verifier::external_body]
fn bright_green(text: &str) -> (r: String)
    ensures
        painted_as(r@, code_bright_green(), text@),
{
    text.bright_green().to_string()
}

/// Trusted: `colored::Colorize::bright_black` on `text`, written out with
/// `ToString`: the text alone when colouring is off, else `ESC[90m`, the text,
/// `ESC[0m` (with the style put back after each `ESC[0m` in the text); or,
/// when colouring is turned off while colored writes, one of the partial
/// forms of `painted_as`. Which form comes out is global state.
#[verifier::external_body]
fn bright_black(text: &str) -> (r: String)
    ensures
        painted_as(r@, code_bright_black(), text@),
{
    text.bright_black().to_string()
}

/// Trusted: `colored::Colorize::bright_black` then `Colorize::bold` on the
/// result, written out with `ToString`: the text alone when colouring is off,
/// else `ESC[1;90m` (the bold style comes before the colour), the text,
/// `ESC[0m` (with the style put back after each `ESC[0m` in the text); or,
/// when colouring is turned off while colored writes, one of the partial
/// forms of `painted_as`. Which form comes out is global state.
#[verifier::external_body]
fn bold_bright_black(text: &str) -> (r: String)
    ensures
        painted_as(r@, code_bold_bright_black(), text@),
{
    text.bright_black().bold().to_string()
}

/// The parameter run of `code + rest` is `code` when `rest` starts with a
/// character that is not a parameter.
proof fn lemma_param_run(code: Seq<char>, rest: Seq<char>)
    requires
        all_params(code),
        rest.len() > 0,
        !is_escape_param(rest[0]),
    ensures
        param_prefix_len(code + rest) == code.len(),
{
    let a = code + rest;
    lemma_param_prefix(a);
    let p = param_prefix_len(a);
    if p < code.len() {
        assert(a[p as int] == code[p as int]);
    }
    if p > code.len() {
        assert(a[code.len() as int] == rest[0]);
    }
}

/// `ESC [ code m` is one whole escape sequence: nothing of it is shown and
/// it leaves no escape sequence open.
proof fn lemma_sgr_prefix(code: Seq<char>)
    requires
        all_params(code),
    ensures
        strip_ansi(seq!['\x1b', '['] + code + seq!['m']) == Seq::<char>::empty(),
        escapes_closed(seq!['\x1b', '['] + code + seq!['m']),
{
    let pre = seq!['\x1b', '['] + code + seq!['m'];
    assert(pre.skip(2) =~= code + seq!['m']);
    lemma_param_run(code, seq!['m']);
    assert(pre[2 + code.len() as int] == 'm');
    assert(escape_len(pre) == pre.len());
    assert(pre.skip(pre.len() as int) =~= Seq::<char>::empty());
    assert(strip_ansi(pre) == strip_ansi(pre.skip(pre.len() as int)));
    assert(strip_ansi(Seq::<char>::empty()) =~= Seq::<char>::empty());
    assert forall|i: int| 0 <= i < pre.len() implies !is_open_escape(#[trigger] pre.skip(i)) by {
        let u = pre.skip(i);
        if i == 0 {
            assert(u[u.len() - 1] == 'm');
            assert(!is_escape_param(u[u.len() - 1]));
        } else if i == 1 {
            assert(u[0] == '[');
        } else if i < pre.len() - 1 {
            assert(u[0] == code[i - 2]);
        } else {
            assert(u[0] == 'm');
        }
    }
}

/// The reset sequence is one whole escape sequence: nothing of it is shown
/// and it leaves no escape sequence open.
proof fn lemma_reset()
    ensures
        strip_ansi(reset_seq()) == Seq::<char>::empty(),
        escapes_closed(reset_seq()),
{
    let reset_code = seq!['0'];
    assert(all_params(reset_code)) by {
        assert forall|j: int| 0 <= j < reset_code.len() implies is_escape_param(
            #[trigger] reset_code[j],
        ) by {
            assert(reset_code[j] == '0');
        }
    }
    lemma_sgr_prefix(reset_code);
    assert(style_seq(reset_code) =~= reset_seq());
}

/// An escape-free text holds no reset sequence, so no style is put into it.
proof fn lemma_reinsert_escape_free(text: Seq<char>, style: Seq<char>)
    requires
        escape_free(text),
    ensures
        reinsert_style(text, style) == text,
    decreases text.len(),
{
    if text.len() > 0 {
        if text.len() >= 4 && text.take(4) == reset_seq() {
            assert(text.take(4)[0] == text[0]);
        }
        assert forall|i: int| 0 <= i < text.skip(1).len() implies text.skip(1)[i] != '\x1b' by {
            assert(text.skip(1)[i] == text[i + 1]);
        }
        lemma_reinsert_escape_free(text.skip(1), style);
        assert(seq![text[0]] + text.skip(1) =~= text);
    }
}

/// A coloured escape-free text is shown as the text, and leaves no escape
/// sequence open.
pub proof fn lemma_sgr(code: Seq<char>, text: Seq<char>)
    requires
        all_params(code),
        escape_free(text),
    ensures
        strip_ansi(sgr(code, text)) == text,
        escapes_closed(sgr(code, text)),
{
    let pre = style_seq(code);
    let reset = reset_seq();
    lemma_sgr_prefix(code);
    lemma_reset();
    lemma_strip_escape_free(text);
    lemma_escape_free_closed(text);
    assert(sgr(code, text) =~= pre + (text + reset));
    lemma_strip_concat(text, reset);
    lemma_strip_concat(pre, text + reset);
    assert(strip_ansi(text) + Seq::<char>::empty() =~= text);
    assert(Seq::<char>::empty() + text =~= text);
    lemma_closed_concat(text, reset);
    lemma_closed_concat(pre, text + reset);
}

/// Whatever colored chose, an escape-free text painted with a code of
/// parameters is shown as the text and leaves no escape sequence open.
pub proof fn lemma_painted(shown: Seq<char>, code: Seq<char>, text: Seq<char>)
    requires
        all_params(code),
        escape_free(text),
        painted_as(shown, code, text),
    ensures
        strip_ansi(shown) == text,
        escapes_closed(shown),
{
    lemma_reinsert_escape_free(text, style_seq(code));
    if shown == text {
        lemma_strip_escape_free(text);
        lemma_escape_free_closed(text);
    } else if shown == sgr(code, text) {
        lemma_sgr(code, text);
    } else {
        assert(shown == text + reset_seq());
        lemma_reset();
        lemma_strip_escape_free(text);
        lemma_escape_free_closed(text);
        lemma_strip_concat(text, reset_seq());
        lemma_closed_concat(text, reset_seq());
        assert(text + Seq::<char>::empty() =~= text);
    }
}

/// The colour codes in use are made of parameter characters.
pub proof fn lemma_codes_are_params()
    ensures
        forall|paint: Paint| all_params(#[trigger] paint_code(paint)),
        all_params(code_bright_black()),
{
    assert forall|paint: Paint, j: int| 0 <= j < paint_code(paint).len() implies is_escape_param(
        #[trigger] paint_code(paint)[j],
    ) by {}
    assert(paint_code(Paint::BrightBlack) == code_bright_black());
}

/// `text` in the colour of `level`: bright red when critical, yellow when
/// at the warning level, bright green otherwise.
pub fn usage_color(text: &str, level: UsageLevel) -> (r: Styled)
    ensures
        r.text@ == text@,
        r.paint == level_paint(level),
{
    let paint = match level {
        UsageLevel::Critical => Paint::BrightRed,
        UsageLevel::Warning => Paint::Yellow,
        UsageLevel::Normal => Paint::BrightGreen,
    };
    Styled { text: String::from_str(text), paint }
}

impl Styled {
    /// The text as a terminal string in its style, written by colored: the
    /// text coloured, or plain when colouring is off, or a partial form when
    /// colouring is turned off while colored writes (see `painted_as`).
    pub fn render(&self) -> (r: String)
        ensures
            painted_as(r@, paint_code(self.paint), self.text@),
    {
        let text = self.text.as_str();
        match self.paint {
            Paint::BrightRed => bright_red(text),
            Paint::Yellow => yellow(text),
            Paint::BrightGreen => bright_green(text),
            Paint::BrightBlack => bright_black(text),
            Paint::BoldBrightBlack => bold_bright_black(text),
        }
    }
}

} // verus!

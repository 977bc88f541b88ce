//! Layout of the plugin's status bar: coloured segments, fitted from the left
//! into the columns the pane has, joined by a separator and right-aligned.

use vstd::prelude::*;

use crate::ansi::{
    escape_free, escapes_closed, lemma_closed_concat, lemma_escape_free_closed,
    lemma_strip_concat, lemma_strip_escape_free, strip_ansi, visible_len, visible_width,
};
use crate::style::{
    code_bright_black, lemma_codes_are_params, lemma_painted, level_paint, paint_code, painted_as,
    usage_color, Paint, Styled, UsageLevel,
};

verus! {

/// The parts joined, with `sep` between each two.
pub open spec fn join_with(parts: Seq<Seq<char>>, sep: Seq<char>) -> Seq<char>
    decreases parts.len(),
{
    if parts.len() == 0 {
        Seq::empty()
    } else if parts.len() == 1 {
        parts[0]
    } else {
        join_with(parts.drop_last(), sep) + sep + parts.last()
    }
}

/// The columns that the parts take once joined with a three-column separator.
pub open spec fn layout_width(parts: Seq<Seq<char>>) -> int
    decreases parts.len(),
{
    if parts.len() == 0 {
        0
    } else if parts.len() == 1 {
        visible_width(parts[0]) as int
    } else {
        layout_width(parts.drop_last()) + 3 + visible_width(parts.last())
    }
}

/// The number of leading parts that fit in `cols` columns: the longest
/// prefix whose layout is no wider than `cols`.
pub open spec fn fit_count(parts: Seq<Seq<char>>, cols: int) -> nat
    decreases parts.len(),
{
    if parts.len() == 0 {
        0
    } else if layout_width(parts) <= cols {
        parts.len()
    } else {
        fit_count(parts.drop_last(), cols)
    }
}

/// `n` spaces.
pub open spec fn spaces(n: nat) -> Seq<char> {
    Seq::new(n, |_i: int| ' ')
}

/// The fitted parts joined with `sep`, preceded by as many spaces as the
/// line leaves free of `cols` columns (none when it is wider).
pub open spec fn render_line(fitted: Seq<Seq<char>>, sep: Seq<char>, cols: int) -> Seq<char> {
    let text = join_with(fitted, sep);
    let pad: int = if cols > visible_width(text) {
        cols - visible_width(text)
    } else {
        0
    };
    spaces(pad as nat) + text
}

/// The separator between segments: a space, the bar as colored writes it in
/// bright black, and a space.
pub open spec fn is_separator(sep: Seq<char>) -> bool {
    exists|bar: Seq<char>|
        painted_as(bar, code_bright_black(), seq!['|']) && sep == seq![' '] + bar + seq![' ']
}

/// A status-bar segment: a label and a value, each with its style.
pub struct Segment {
    pub label: Styled,
    pub value: Styled,
}

/// `seg` is the segment of `label` and `value` at `level`: the label in bold
/// bright black, the value in the colour of the level.
pub open spec fn is_segment_of(seg: Segment, label: Seq<char>, value: Seq<char>, level: UsageLevel) -> bool {
    &&& seg.label.text@ == label
    &&& seg.label.paint == Paint::BoldBrightBlack
    &&& seg.value.text@ == value
    &&& seg.value.paint == level_paint(level)
}

/// `shown` is `seg` as `Segment::render` writes it: the label in its style,
/// a space, and the value in its style.
pub open spec fn renders_segment(shown: Seq<char>, seg: Segment) -> bool {
    exists|head: Seq<char>, tail: Seq<char>|
        painted_as(head, paint_code(seg.label.paint), seg.label.text@) && painted_as(
            tail,
            paint_code(seg.value.paint),
            seg.value.text@,
        ) && shown == head + seq![' '] + tail
}

/// The texts of `seg` hold no escape character.
pub open spec fn plain_texts(seg: Segment) -> bool {
    escape_free(seg.label.text@) && escape_free(seg.value.text@)
}

/// A separator is shown as ` | ` and leaves no escape sequence open.
pub proof fn lemma_separator(sep: Seq<char>)
    requires
        is_separator(sep),
    ensures
        strip_ansi(sep) == seq![' ', '|', ' '],
        escapes_closed(sep),
{
    let bar = choose|bar: Seq<char>|
        painted_as(bar, code_bright_black(), seq!['|']) && sep == seq![' '] + bar + seq![' '];
    let text = seq!['|'];
    let space = seq![' '];
    assert(escape_free(space));
    assert(escape_free(text));
    lemma_strip_escape_free(space);
    lemma_escape_free_closed(space);
    lemma_codes_are_params();
    lemma_painted(bar, code_bright_black(), text);
    assert(sep =~= space + (bar + space));
    lemma_strip_concat(bar, space);
    lemma_strip_concat(space, bar + space);
    assert(space + (text + space) =~= seq![' ', '|', ' ']);
    lemma_closed_concat(bar, space);
    lemma_closed_concat(space, bar + space);
}

/// A segment with escape-free texts is shown as `label value` and leaves no
/// escape sequence open.
pub proof fn lemma_segment(shown: Seq<char>, seg: Segment)
    requires
        plain_texts(seg),
        renders_segment(shown, seg),
    ensures
        strip_ansi(shown) == seg.label.text@ + seq![' '] + seg.value.text@,
        escapes_closed(shown),
{
    let label = seg.label.text@;
    let value = seg.value.text@;
    let (head, tail) = choose|head: Seq<char>, tail: Seq<char>|
        painted_as(head, paint_code(seg.label.paint), label) && painted_as(
            tail,
            paint_code(seg.value.paint),
            value,
        ) && shown == head + seq![' '] + tail;
    lemma_codes_are_params();
    lemma_painted(head, paint_code(seg.label.paint), label);
    lemma_painted(tail, paint_code(seg.value.paint), value);
    let space = seq![' '];
    assert(escape_free(space));
    lemma_strip_escape_free(space);
    lemma_escape_free_closed(space);
    assert(shown =~= head + (space + tail));
    lemma_strip_concat(space, tail);
    lemma_strip_concat(head, space + tail);
    assert(label + (space + value) =~= label + seq![' '] + value);
    lemma_closed_concat(space, tail);
    lemma_closed_concat(head, space + tail);
}

/// A status-bar segment: `label` in bold bright black, and `value` in the
/// colour of `level`.
pub fn segment(label: &str, value: &str, level: UsageLevel) -> (seg: Segment)
    ensures
        is_segment_of(seg, label@, value@, level),
{
    let label = Styled { text: String::from_str(label), paint: Paint::BoldBrightBlack };
    let value = usage_color(value, level);
    Segment { label, value }
}

impl Segment {
    /// The segment as a terminal string: the label in its style, a space,
    /// and the value in its style, written by colored.
    pub fn render(&self) -> (shown: String)
        ensures
            renders_segment(shown@, *self),
            plain_texts(*self) ==> strip_ansi(shown@) == self.label.text@ + seq![' ']
                + self.value.text@,
            plain_texts(*self) ==> escapes_closed(shown@),
    {
        let head = self.label.render();
        let tail = self.value.render();
        let ghost h = head@;
        let mut shown = head;
        shown.append(" ");
        shown.append(tail.as_str());
        proof {
            reveal_strlit(" ");
            assert(shown@ == h + seq![' '] + tail@);
            assert(renders_segment(shown@, *self));
            if plain_texts(*self) {
                lemma_segment(shown@, *self);
            }
        }
        shown
    }
}

/// The segments of the status bar: CPU load, then memory, then, when there
/// is a GPU reading, GPU load and video memory; each value with its level.
pub fn status_segments(
    cpu: &str,
    cpu_level: UsageLevel,
    mem: &str,
    mem_level: UsageLevel,
    gpu: Option<(&str, UsageLevel, &str, UsageLevel)>,
) -> (segs: Vec<Segment>)
    ensures
        segs.len() == (if gpu is Some {
            4int
        } else {
            2int
        }),
        is_segment_of(segs[0], "CPU:"@, cpu@, cpu_level),
        is_segment_of(segs[1], "MEM:"@, mem@, mem_level),
        gpu matches Some((load, load_level, vram, vram_level)) ==> {
            &&& is_segment_of(segs[2], "GPU:"@, load@, load_level)
            &&& is_segment_of(segs[3], "VRAM:"@, vram@, vram_level)
        },
{
    let mut segs: Vec<Segment> = Vec::new();
    segs.push(segment("CPU:", cpu, cpu_level));
    segs.push(segment("MEM:", mem, mem_level));
    match gpu {
        Some((load, load_level, vram, vram_level)) => {
            segs.push(segment("GPU:", load, load_level));
            segs.push(segment("VRAM:", vram, vram_level));
        },
        None => {},
    }
    segs
}

/// Each segment as a terminal string, in order.
pub fn render_segments(segs: &Vec<Segment>) -> (shown: Vec<String>)
    ensures
        shown.len() == segs.len(),
        forall|i: int| 0 <= i < segs.len() ==> renders_segment(#[trigger] shown[i]@, segs[i]),
        forall|i: int|
            0 <= i < segs.len() && plain_texts(#[trigger] segs[i]) ==> {
                &&& strip_ansi(shown[i]@) == segs[i].label.text@ + seq![' '] + segs[i].value.text@
                &&& escapes_closed(shown[i]@)
            },
{
    let mut shown: Vec<String> = Vec::new();
    let n = segs.len();
    let mut i: usize = 0;
    while i < n
        invariant
            n == segs.len(),
            0 <= i <= n,
            shown.len() == i,
            forall|j: int| 0 <= j < i ==> renders_segment(#[trigger] shown[j]@, segs[j]),
            forall|j: int|
                0 <= j < i && plain_texts(#[trigger] segs[j]) ==> {
                    &&& strip_ansi(shown[j]@) == segs[j].label.text@ + seq![' ']
                        + segs[j].value.text@
                    &&& escapes_closed(shown[j]@)
                },
        decreases n - i,
    {
        shown.push(segs[i].render());
        i = i + 1;
    }
    shown
}

/// The bar between two segments, in bright black.
pub fn separator_bar() -> (bar: Styled)
    ensures
        bar.text@ == seq!['|'],
        bar.paint == Paint::BrightBlack,
{
    proof {
        reveal_strlit("|");
    }
    Styled { text: String::from_str("|"), paint: Paint::BrightBlack }
}

/// The separator between two segments as a terminal string: the bar of
/// `separator_bar`, written by colored, between two spaces.
pub fn separator() -> (sep: String)
    ensures
        is_separator(sep@),
        strip_ansi(sep@) == seq![' ', '|', ' '],
        escapes_closed(sep@),
{
    let bar = separator_bar().render();
    let mut sep = String::from_str(" ");
    sep.append(bar.as_str());
    sep.append(" ");
    proof {
        reveal_strlit(" ");
        assert(escape_free(seq!['|']));
        assert(sep@ =~= seq![' '] + bar@ + seq![' ']);
        lemma_separator(sep@);
    }
    sep
}


/// Adding the part at index `i` to the first `i` parts widens the layout by
/// that part, and by a separator when it is not the first.
pub proof fn lemma_layout_step(parts: Seq<Seq<char>>, i: int)
    requires
        0 <= i < parts.len(),
    ensures
        layout_width(parts.take(i + 1)) == layout_width(parts.take(i)) + (if i == 0 {
            0int
        } else {
            3int
        }) + visible_width(parts[i]),
{
    let next = parts.take(i + 1);
    assert(next.drop_last() =~= parts.take(i));
    assert(next.last() == parts[i]);
    if i == 0 {
        assert(parts.take(0).len() == 0);
    }
}

/// The layout of a prefix is never wider than that of a longer prefix.
pub proof fn lemma_layout_monotone(parts: Seq<Seq<char>>, a: int, b: int)
    requires
        0 <= a <= b <= parts.len(),
    ensures
        layout_width(parts.take(a)) <= layout_width(parts.take(b)),
    decreases b - a,
{
    if a < b {
        lemma_layout_step(parts, b - 1);
        lemma_layout_monotone(parts, a, b - 1);
    }
}

/// What `fit_count` counts: at most all parts, a prefix that fits (for a
/// width of at least 0), and one part more does not fit.
pub proof fn lemma_fit_count(parts: Seq<Seq<char>>, cols: int)
    requires
        cols >= 0,
    ensures
        fit_count(parts, cols) <= parts.len(),
        layout_width(parts.take(fit_count(parts, cols) as int)) <= cols,
        fit_count(parts, cols) < parts.len() ==> layout_width(
            parts.take(fit_count(parts, cols) + 1int),
        ) > cols,
    decreases parts.len(),
{
    if parts.len() == 0 {
        assert(parts.take(0).len() == 0);
    } else if layout_width(parts) <= cols {
        assert(parts.take(parts.len() as int) =~= parts);
    } else {
        let rest = parts.drop_last();
        lemma_fit_count(rest, cols);
        let k: int = fit_count(rest, cols) as int;
        assert(rest.take(k) =~= parts.take(k));
        if k < rest.len() {
            assert(rest.take(k + 1) =~= parts.take(k + 1));
        } else {
            assert(parts.take(k + 1) =~= parts);
        }
    }
}

/// The greedy scan stops at the right count: a prefix that fits, and that
/// cannot be extended by one part, is the prefix `fit_count` describes.
pub proof fn lemma_fit_count_exact(parts: Seq<Seq<char>>, cols: int, k: int)
    requires
        0 <= k <= parts.len(),
        layout_width(parts.take(k)) <= cols,
        k < parts.len() ==> layout_width(parts.take(k + 1)) > cols,
    ensures
        fit_count(parts, cols) == k,
    decreases parts.len(),
{
    if parts.len() == k {
        assert(parts.take(k) =~= parts);
    } else {
        lemma_layout_monotone(parts, k + 1, parts.len() as int);
        assert(parts.take(parts.len() as int) =~= parts);
        let rest = parts.drop_last();
        assert(rest.take(k) =~= parts.take(k));
        if k + 1 <= rest.len() {
            assert(rest.take(k + 1) =~= parts.take(k + 1));
        }
        lemma_fit_count_exact(rest, cols, k);
    }
}

/// Joining parts that leave no escape sequence open, with a separator,
/// shows as wide as their layout, and leaves no escape sequence open.
pub proof fn lemma_join_width(parts: Seq<Seq<char>>, sep: Seq<char>)
    requires
        forall|i: int| 0 <= i < parts.len() ==> escapes_closed(#[trigger] parts[i]),
        is_separator(sep),
    ensures
        visible_width(join_with(parts, sep)) == layout_width(parts),
        escapes_closed(join_with(parts, sep)),
    decreases parts.len(),
{
    if parts.len() == 0 {
        assert(escapes_closed(Seq::<char>::empty()));
        assert(strip_ansi(Seq::<char>::empty()) =~= Seq::<char>::empty());
    } else if parts.len() == 1 {
        assert(escapes_closed(parts[0]));
    } else {
        let rest = parts.drop_last();
        assert forall|i: int| 0 <= i < rest.len() implies escapes_closed(#[trigger] rest[i]) by {
            assert(rest[i] == parts[i]);
        }
        lemma_join_width(rest, sep);
        lemma_separator(sep);
        let front = join_with(rest, sep);
        let last = parts.last();
        assert(escapes_closed(last));
        assert(join_with(parts, sep) =~= front + (sep + last));
        lemma_strip_concat(sep, last);
        lemma_strip_concat(front, sep + last);
        lemma_closed_concat(sep, last);
        lemma_closed_concat(front, sep + last);
    }
}

/// The status bar fills the pane exactly: when at least one segment fits,
/// and no segment leaves an escape sequence open, the rendered line is shown
/// `cols` columns wide (segments and separators on the right, spaces on the
/// left).
pub proof fn lemma_status_line_fills_width(segments: Seq<Seq<char>>, sep: Seq<char>, cols: int)
    requires
        forall|i: int| 0 <= i < segments.len() ==> escapes_closed(#[trigger] segments[i]),
        is_separator(sep),
        cols >= 0,
        fit_count(segments, cols) > 0,
    ensures
        visible_width(render_line(segments.take(fit_count(segments, cols) as int), sep, cols))
            == cols,
{
    let k = fit_count(segments, cols);
    let fitted = segments.take(k as int);
    lemma_fit_count(segments, cols);
    assert forall|i: int| 0 <= i < fitted.len() implies escapes_closed(#[trigger] fitted[i]) by {
        assert(fitted[i] == segments[i]);
    }
    lemma_join_width(fitted, sep);
    let text = join_with(fitted, sep);
    let pad: nat = (cols - visible_width(text)) as nat;
    assert(escape_free(spaces(pad)));
    lemma_strip_escape_free(spaces(pad));
    lemma_escape_free_closed(spaces(pad));
    lemma_strip_concat(spaces(pad), text);
}

/// What a terminal shows of each part.
pub open spec fn shown_texts(parts: Seq<Seq<char>>) -> Seq<Seq<char>> {
    Seq::new(parts.len(), |i: int| strip_ansi(parts[i]))
}

/// What each segment reads as: its label, a space, its value.
pub open spec fn segment_texts(segs: Seq<Segment>) -> Seq<Seq<char>> {
    Seq::new(segs.len(), |i: int| segs[i].label.text@ + seq![' '] + segs[i].value.text@)
}

/// Joined parts that leave no escape sequence open show as what each part
/// shows, joined with ` | `.
pub proof fn lemma_join_shown(parts: Seq<Seq<char>>, sep: Seq<char>)
    requires
        forall|i: int| 0 <= i < parts.len() ==> escapes_closed(#[trigger] parts[i]),
        is_separator(sep),
    ensures
        strip_ansi(join_with(parts, sep)) == join_with(shown_texts(parts), seq![' ', '|', ' ']),
    decreases parts.len(),
{
    if parts.len() == 0 {
        assert(strip_ansi(Seq::<char>::empty()) =~= Seq::<char>::empty());
    } else if parts.len() == 1 {
    } else {
        let rest = parts.drop_last();
        assert forall|i: int| 0 <= i < rest.len() implies escapes_closed(#[trigger] rest[i]) by {
            assert(rest[i] == parts[i]);
        }
        lemma_join_shown(rest, sep);
        lemma_join_width(rest, sep);
        lemma_separator(sep);
        let front = join_with(rest, sep);
        let last = parts.last();
        assert(escapes_closed(last));
        assert(join_with(parts, sep) =~= front + (sep + last));
        lemma_strip_concat(sep, last);
        lemma_strip_concat(front, sep + last);
        assert(shown_texts(parts).drop_last() =~= shown_texts(rest));
        assert(shown_texts(parts).last() == strip_ansi(last));
    }
}

/// The status bar shows the fitted parts as they read, joined with ` | `,
/// right-aligned with spaces: whatever colouring colored chose, the text a
/// terminal shows is the same.
pub proof fn lemma_status_line_shows(parts: Seq<Seq<char>>, sep: Seq<char>, cols: int)
    requires
        forall|i: int| 0 <= i < parts.len() ==> escapes_closed(#[trigger] parts[i]),
        is_separator(sep),
        cols >= 0,
    ensures
        strip_ansi(render_line(parts.take(fit_count(parts, cols) as int), sep, cols)) == spaces(
            (cols - layout_width(parts.take(fit_count(parts, cols) as int))) as nat,
        ) + join_with(shown_texts(parts.take(fit_count(parts, cols) as int)), seq![' ', '|', ' ']),
{
    let k = fit_count(parts, cols);
    let fitted = parts.take(k as int);
    lemma_fit_count(parts, cols);
    assert forall|i: int| 0 <= i < fitted.len() implies escapes_closed(#[trigger] fitted[i]) by {
        assert(fitted[i] == parts[i]);
    }
    lemma_join_width(fitted, sep);
    lemma_join_shown(fitted, sep);
    let text = join_with(fitted, sep);
    let pad: nat = (cols - visible_width(text)) as nat;
    assert(escape_free(spaces(pad)));
    lemma_strip_escape_free(spaces(pad));
    lemma_escape_free_closed(spaces(pad));
    lemma_strip_concat(spaces(pad), text);
}

/// What the status bar shows of rendered segments with escape-free texts:
/// the fitted segments as `label value`, joined with ` | `, right-aligned.
/// It depends on the labels and values alone, not on how colored coloured
/// them; a segment list without a GPU reading shows no GPU figures, and no
/// segment shows an adapter name.
pub proof fn lemma_status_bar_text(segs: Seq<Segment>, shown: Seq<Seq<char>>, sep: Seq<char>, cols: int)
    requires
        shown.len() == segs.len(),
        forall|i: int| 0 <= i < segs.len() ==> renders_segment(#[trigger] shown[i], segs[i]),
        forall|i: int| 0 <= i < segs.len() ==> plain_texts(#[trigger] segs[i]),
        is_separator(sep),
        cols >= 0,
    ensures
        strip_ansi(render_line(shown.take(fit_count(shown, cols) as int), sep, cols)) == spaces(
            (cols - layout_width(shown.take(fit_count(shown, cols) as int))) as nat,
        ) + join_with(segment_texts(segs).take(fit_count(shown, cols) as int), seq![' ', '|', ' ']),
{
    assert forall|i: int| 0 <= i < shown.len() implies escapes_closed(#[trigger] shown[i]) && strip_ansi(shown[i])
        == segment_texts(segs)[i] by {
        assert(plain_texts(segs[i]));
        lemma_segment(shown[i], segs[i]);
    }
    lemma_status_line_shows(shown, sep, cols);
    let k = fit_count(shown, cols) as int;
    lemma_fit_count(shown, cols);
    assert(shown_texts(shown.take(k)) =~= segment_texts(segs).take(k));
}

/// The longest prefix of `segments` whose layout fits in `cols` columns,
/// found from the left: a segment takes its visible width, and each segment
/// after the first three more for ` | `.
pub fn fit_segments(segments: &Vec<String>, cols: usize) -> (fitted: Vec<String>)
    ensures
        fitted.deep_view() == segments.deep_view().take(
            fit_count(segments.deep_view(), cols as int) as int,
        ),
{
    let ghost parts = segments.deep_view();
    let mut fitted: Vec<String> = Vec::new();
    let mut used: usize = 0;
    let mut i: usize = 0;
    let n = segments.len();
    while i < n
        invariant
            n == segments.len(),
            parts == segments.deep_view(),
            0 <= i <= n,
            fitted.deep_view() =~= parts.take(i as int),
            used == layout_width(parts.take(i as int)),
            used <= cols,
        ensures
            fitted.deep_view() =~= parts.take(i as int),
            used == layout_width(parts.take(i as int)),
            used <= cols,
            i <= n,
            i < n ==> layout_width(parts.take(i + 1)) > cols,
        decreases n - i,
    {
        let w = visible_len(segments[i].as_str());
        let room = cols - used;
        proof {
            lemma_layout_step(parts, i as int);
        }
        let fits = if i == 0 {
            w <= room
        } else {
            room >= 3 && w <= room - 3
        };
        if !fits {
            break;
        }
        used = if i == 0 {
            used + w
        } else {
            used + 3 + w
        };
        fitted.push(segments[i].clone());
        i = i + 1;
    }
    proof {
        assert(parts.take(0).len() == 0);
        lemma_fit_count_exact(parts, cols as int, i as int);
    }
    fitted
}

/// The parts joined, with `sep` between each two.
pub fn join(parts: &Vec<String>, sep: &str) -> (r: String)
    ensures
        r@ == join_with(parts.deep_view(), sep@),
{
    let ghost dv = parts.deep_view();
    let mut r = String::new();
    let n = parts.len();
    let mut i: usize = 0;
    while i < n
        invariant
            n == parts.len(),
            dv == parts.deep_view(),
            0 <= i <= n,
            r@ == join_with(dv.take(i as int), sep@),
        decreases n - i,
    {
        proof {
            assert(dv.take(i + 1).drop_last() =~= dv.take(i as int));
            assert(dv.take(i + 1).last() == parts[i as int]@);
        }
        if i != 0 {
            r.append(sep);
        } else {
            assert(r@ =~= Seq::<char>::empty());
        }
        r.append(parts[i].as_str());
        i = i + 1;
    }
    proof {
        assert(dv.take(n as int) =~= dv);
    }
    r
}

/// The status bar of a pane `cols` columns wide: the segments that fit,
/// joined by the separator, right-aligned with spaces; `None` when the pane
/// has no columns or not even the first segment fits, and nothing is drawn.
pub fn status_line(segments: &Vec<String>, cols: usize) -> (line: Option<String>)
    ensures
        line is None <==> (cols == 0 || fit_count(segments.deep_view(), cols as int) == 0),
        line matches Some(l) ==> exists|sep: Seq<char>|
            is_separator(sep) && l@ == render_line(
                segments.deep_view().take(fit_count(segments.deep_view(), cols as int) as int),
                sep,
                cols as int,
            ),
{
    if cols == 0 {
        return None;
    }
    let fitted = fit_segments(segments, cols);
    proof {
        lemma_fit_count(segments.deep_view(), cols as int);
        assert(fitted.deep_view().len() == fitted@.len());
    }
    if fitted.len() == 0 {
        return None;
    }
    let sep = separator();
    let text = join(&fitted, sep.as_str());
    let visible = visible_len(text.as_str());
    let padding: usize = if cols > visible {
        cols - visible
    } else {
        0
    };
    let mut line = String::new();
    let mut k: usize = 0;
    while k < padding
        invariant
            0 <= k <= padding,
            line@ =~= spaces(k as nat),
        decreases padding - k,
    {
        line.append(" ");
        proof {
            reveal_strlit(" ");
        }
        k = k + 1;
    }
    line.append(text.as_str());
    proof {
        assert(is_separator(sep@));
    }
    Some(line)
}

} // verus!

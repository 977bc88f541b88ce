//! ANSI escape sequences of the form `ESC [ params (m|K)` and what a terminal
//! shows of a string once they are removed.

use vstd::prelude::*;

verus! {

/// A parameter character of an escape sequence: a digit or `;`.
pub open spec fn is_escape_param(c: char) -> bool {
    ('0' <= c && c <= '9') || c == ';'
}

/// A final character of the escape sequences that are removed: `m` or `K`.
pub open spec fn is_escape_final(c: char) -> bool {
    c == 'm' || c == 'K'
}

/// Number of parameter characters at the start of `u`.
pub open spec fn param_prefix_len(u: Seq<char>) -> nat
    decreases u.len(),
{
    if u.len() > 0 && is_escape_param(u[0]) {
        1 + param_prefix_len(u.drop_first())
    } else {
        0
    }
}

/// Length of the escape sequence `ESC [ [0-9;]* [mK]` at the start of `s`,
/// or 0 when `s` does not start with one.
pub open spec fn escape_len(s: Seq<char>) -> nat {
    if s.len() >= 2 && s[0] == '\x1b' && s[1] == '[' {
        let k: int = 2 + param_prefix_len(s.skip(2)) as int;
        if k < s.len() && is_escape_final(s[k]) {
            (k + 1) as nat
        } else {
            0
        }
    } else {
        0
    }
}

/// `s` with every escape sequence removed, scanning from the left: the
/// leftmost, non-overlapping matches of the pattern `\x1b\[[0-9;]*[mK]`.
pub open spec fn strip_ansi(s: Seq<char>) -> Seq<char>
    decreases s.len(),
{
    if s.len() == 0 {
        Seq::empty()
    } else if escape_len(s) > 0 {
        strip_ansi(s.skip(escape_len(s) as int))
    } else {
        seq![s[0]] + strip_ansi(s.skip(1))
    }
}

/// The number of columns a terminal uses to show `s`, one per character
/// outside escape sequences.
pub open spec fn visible_width(s: Seq<char>) -> nat {
    strip_ansi(s).len()
}

/// `s` holds no escape character.
pub open spec fn escape_free(s: Seq<char>) -> bool {
    forall|i: int| 0 <= i < s.len() ==> s[i] != '\x1b'
}

/// `u` is the start of an escape sequence that is not closed in `u`:
/// `ESC`, or `ESC [` followed by parameter characters only.
pub open spec fn is_open_escape(u: Seq<char>) -> bool {
    &&& u.len() >= 1
    &&& u[0] == '\x1b'
    &&& (u.len() == 1 || (u[1] == '[' && forall|j: int|
        2 <= j < u.len() ==> is_escape_param(#[trigger] u[j])))
}

/// No suffix of `s` is an unclosed escape sequence, so nothing that follows
/// `s` can complete an escape sequence begun inside it.
pub open spec fn escapes_closed(s: Seq<char>) -> bool {
    forall|i: int| 0 <= i < s.len() ==> !is_open_escape(#[trigger] s.skip(i))
}

/// What `param_prefix_len` counts: the leading run of parameters, ended by
/// the end of `u` or by a character that is not a parameter.
pub proof fn lemma_param_prefix(u: Seq<char>)
    ensures
        param_prefix_len(u) <= u.len(),
        forall|j: int| 0 <= j < param_prefix_len(u) ==> is_escape_param(#[trigger] u[j]),
        param_prefix_len(u) < u.len() ==> !is_escape_param(u[param_prefix_len(u) as int]),
    decreases u.len(),
{
    if u.len() > 0 && is_escape_param(u[0]) {
        lemma_param_prefix(u.drop_first());
        assert forall|j: int| 0 <= j < param_prefix_len(u) implies is_escape_param(#[trigger] u[j]) by {
            if j > 0 {
                assert(u[j] == u.drop_first()[j - 1]);
            }
        }
    }
}

/// The run of parameters is the same in `a + b` as in `a` when it ends inside `a`.
pub proof fn lemma_param_prefix_concat(a: Seq<char>, b: Seq<char>)
    requires
        param_prefix_len(a) < a.len(),
    ensures
        param_prefix_len(a + b) == param_prefix_len(a),
    decreases a.len(),
{
    if is_escape_param(a[0]) {
        assert((a + b).drop_first() =~= a.drop_first() + b);
        lemma_param_prefix_concat(a.drop_first(), b);
    }
}

/// An escape-free string is shown as it is.
pub proof fn lemma_strip_escape_free(s: Seq<char>)
    requires
        escape_free(s),
    ensures
        strip_ansi(s) == s,
    decreases s.len(),
{
    if s.len() > 0 {
        assert(escape_len(s) == 0);
        assert forall|i: int| 0 <= i < s.skip(1).len() implies s.skip(1)[i] != '\x1b' by {
            assert(s.skip(1)[i] == s[i + 1]);
        }
        lemma_strip_escape_free(s.skip(1));
        assert(seq![s[0]] + s.skip(1) =~= s);
    }
}

/// An escape-free string leaves no escape sequence open.
pub proof fn lemma_escape_free_closed(s: Seq<char>)
    requires
        escape_free(s),
    ensures
        escapes_closed(s),
{
    assert forall|i: int| 0 <= i < s.len() implies !is_open_escape(#[trigger] s.skip(i)) by {
        assert(s.skip(i)[0] == s[i]);
    }
}

/// Suffixes of a string whose escapes are closed have closed escapes too.
pub proof fn lemma_closed_skip(s: Seq<char>, n: int)
    requires
        escapes_closed(s),
        0 <= n <= s.len(),
    ensures
        escapes_closed(s.skip(n)),
{
    assert forall|i: int| 0 <= i < s.skip(n).len() implies !is_open_escape(
        #[trigger] s.skip(n).skip(i),
    ) by {
        assert(s.skip(n).skip(i) =~= s.skip(n + i));
    }
}

/// The escape sequence at the start of `s + t` is the one at the start of
/// `s`, when `s` leaves no escape sequence open.
pub proof fn lemma_escape_len_concat(s: Seq<char>, t: Seq<char>)
    requires
        s.len() > 0,
        escapes_closed(s),
    ensures
        escape_len(s + t) == escape_len(s),
        escape_len(s) <= s.len(),
{
    let u = s + t;
    assert(s.skip(0) =~= s);
    assert(!is_open_escape(s.skip(0)));
    if s.len() >= 2 && s[0] == '\x1b' && s[1] == '[' {
        let v = s.skip(2);
        lemma_param_prefix(v);
        if param_prefix_len(v) == v.len() {
            assert forall|j: int| 2 <= j < s.len() implies is_escape_param(#[trigger] s[j]) by {
                assert(s[j] == v[j - 2]);
            }
            assert(false);
        }
        assert(u.skip(2) =~= v + t);
        lemma_param_prefix_concat(v, t);
        let k: int = 2 + param_prefix_len(v) as int;
        assert(u[k] == s[k]);
    } else if s.len() == 1 {
        assert(s[0] != '\x1b');
        assert(u[0] == s[0]);
    } else {
        assert(u[0] == s[0]);
        assert(u[1] == s[1]);
    }
}

/// Removing escape sequences distributes over `s + t` when `s` leaves no
/// escape sequence open.
pub proof fn lemma_strip_concat(s: Seq<char>, t: Seq<char>)
    requires
        escapes_closed(s),
    ensures
        strip_ansi(s + t) == strip_ansi(s) + strip_ansi(t),
    decreases s.len(),
{
    if s.len() == 0 {
        assert(s + t =~= t);
        assert(strip_ansi(s) =~= Seq::<char>::empty());
        assert(strip_ansi(s) + strip_ansi(t) =~= strip_ansi(t));
    } else {
        lemma_escape_len_concat(s, t);
        let n = escape_len(s);
        if n > 0 {
            assert((s + t).skip(n as int) =~= s.skip(n as int) + t);
            lemma_closed_skip(s, n as int);
            lemma_strip_concat(s.skip(n as int), t);
        } else {
            assert((s + t).skip(1) =~= s.skip(1) + t);
            assert((s + t)[0] == s[0]);
            lemma_closed_skip(s, 1);
            lemma_strip_concat(s.skip(1), t);
            assert(seq![s[0]] + (strip_ansi(s.skip(1)) + strip_ansi(t)) =~= (seq![s[0]]
                + strip_ansi(s.skip(1))) + strip_ansi(t));
        }
    }
}

/// Two strings that leave no escape sequence open leave none open together.
pub proof fn lemma_closed_concat(a: Seq<char>, b: Seq<char>)
    requires
        escapes_closed(a),
        escapes_closed(b),
    ensures
        escapes_closed(a + b),
{
    assert forall|i: int| 0 <= i < (a + b).len() implies !is_open_escape(
        #[trigger] (a + b).skip(i),
    ) by {
        if i < a.len() {
            let u = (a + b).skip(i);
            let w = a.skip(i);
            assert(!is_open_escape(w));
            if is_open_escape(u) {
                assert(w[0] == u[0]);
                if w.len() >= 2 {
                    assert(w[1] == u[1]);
                    assert forall|j: int| 2 <= j < w.len() implies is_escape_param(#[trigger] w[j]) by {
                        assert(w[j] == u[j]);
                    }
                }
                assert(false);
            }
        } else {
            assert((a + b).skip(i) =~= b.skip(i - a.len()));
        }
    }
}

/// Trusted: `regex::Regex::new(pattern)`, then `Regex::replace_all(text, "")`
/// on the compiled expression, converted to a `String`.
/// The library compiles a single pattern, `\x1b\[[0-9;]*[mK]`, which is valid,
/// so `Regex::new` returns `Ok`. `replace_all` replaces the leftmost-first,
/// non-overlapping matches, scanning from the left; with an empty replacement
/// the matches are removed. For this pattern a match starting at a position is
/// `ESC [`, the longest run of digits and `;`, then `m` or `K` (the run must be
/// the longest, as `m` and `K` are not in it), which is what `strip_ansi` states.
#[verifier::external_body]
fn regex_remove_matches(pattern: &str, text: &str) -> (r: String)
    requires
        pattern@ == r"\x1b\[[0-9;]*[mK]"@,
    ensures
        r@ == strip_ansi(text@),
{
    regex::Regex::new(pattern).unwrap().replace_all(text, "").into_owned()
}

/// `s` with its ANSI colour and erase-line escape sequences removed.
pub fn strip_ansi_codes(s: &str) -> (r: String)
    ensures
        r@ == strip_ansi(s@),
{
    regex_remove_matches(r"\x1b\[[0-9;]*[mK]", s)
}

/// The number of columns that `s` takes on a terminal: the number of
/// characters left once the escape sequences are removed.
pub fn visible_len(s: &str) -> (n: usize)
    ensures
        n == visible_width(s@),
{
    let stripped = strip_ansi_codes(s);
    stripped.as_str().unicode_len()
}

} // verus!

//! Decisions of the monitor daemon: where to look for the plugin's lock file.

use vstd::prelude::*;

verus! {

/// The places where the plugin's lock file may be, as glob patterns, given
/// the `TMPDIR` and `XDG_RUNTIME_DIR` variables (`None` when unset). The
/// temporary directory defaults to `/tmp` and the runtime directory to none:
/// first the temporary directory (in a `zellij-*` directory, then directly),
/// then the runtime directory likewise when there is one, then `/tmp` itself
/// when the temporary directory is elsewhere.
pub open spec fn lock_patterns_for(tmpdir: Option<Seq<char>>, xdg_runtime: Option<Seq<char>>) -> Seq<
    Seq<char>,
> {
    let base = match tmpdir {
        Some(t) => t,
        None => "/tmp"@,
    };
    let runtime = match xdg_runtime {
        Some(x) => x,
        None => Seq::empty(),
    };
    let in_base = seq![base + "/zellij-*/system-monitor-lock"@, base + "/system-monitor-lock"@];
    let in_runtime = if runtime.len() > 0 {
        seq![runtime + "/zellij*/system-monitor-lock"@, runtime + "/system-monitor-lock"@]
    } else {
        Seq::empty()
    };
    let in_tmp = if base != "/tmp"@ {
        seq!["/tmp/zellij-*/system-monitor-lock"@, "/tmp/system-monitor-lock"@]
    } else {
        Seq::empty()
    };
    in_base + in_runtime + in_tmp
}

/// `p` names the lock file: it ends with `/system-monitor-lock`.
pub open spec fn names_lock_file(p: Seq<char>) -> bool {
    let name = "/system-monitor-lock"@;
    p.len() >= name.len() && p.skip(p.len() - name.len()) == name
}

/// `dir + tail` names the lock file when `tail` does.
proof fn lemma_names_lock_file_append(dir: Seq<char>, tail: Seq<char>)
    requires
        names_lock_file(tail),
    ensures
        names_lock_file(dir + tail),
{
    let name = "/system-monitor-lock"@;
    assert((dir + tail).skip((dir + tail).len() - name.len()) =~= tail.skip(tail.len() - name.len()));
}

/// Where the daemon looks for the lock file, whatever the environment:
/// - always in `/tmp`, in a `zellij-*` directory and directly, so that a
///   lock in `/tmp` is found whatever `TMPDIR` and `XDG_RUNTIME_DIR` are;
/// - in the directory `TMPDIR` names, when it is set, likewise;
/// - in the directory `XDG_RUNTIME_DIR` names, when it is set and not empty,
///   in a `zellij*` directory and directly;
/// - nowhere else: two places per directory, and every pattern names the
///   file `system-monitor-lock`.
pub proof fn lemma_lock_patterns_cover(tmpdir: Option<Seq<char>>, xdg_runtime: Option<Seq<char>>)
    ensures
        lock_patterns_for(tmpdir, xdg_runtime).contains("/tmp/zellij-*/system-monitor-lock"@),
        lock_patterns_for(tmpdir, xdg_runtime).contains("/tmp/system-monitor-lock"@),
        tmpdir matches Some(t) ==> lock_patterns_for(tmpdir, xdg_runtime).contains(
            t + "/zellij-*/system-monitor-lock"@,
        ),
        tmpdir matches Some(t) ==> lock_patterns_for(tmpdir, xdg_runtime).contains(
            t + "/system-monitor-lock"@,
        ),
        xdg_runtime is Some && xdg_runtime->0.len() > 0 ==> lock_patterns_for(
            tmpdir,
            xdg_runtime,
        ).contains(xdg_runtime->0 + "/zellij*/system-monitor-lock"@),
        xdg_runtime is Some && xdg_runtime->0.len() > 0 ==> lock_patterns_for(
            tmpdir,
            xdg_runtime,
        ).contains(xdg_runtime->0 + "/system-monitor-lock"@),
        lock_patterns_for(tmpdir, xdg_runtime).len() == 2 + (if xdg_runtime is Some
            && xdg_runtime->0.len() > 0 {
            2int
        } else {
            0int
        }) + (if tmpdir is Some && tmpdir->0 != "/tmp"@ {
            2int
        } else {
            0int
        }),
        forall|i: int|
            0 <= i < lock_patterns_for(tmpdir, xdg_runtime).len() ==> names_lock_file(
                #[trigger] lock_patterns_for(tmpdir, xdg_runtime)[i],
            ),
{
    reveal_strlit("/tmp");
    reveal_strlit("/zellij-*/system-monitor-lock");
    reveal_strlit("/zellij*/system-monitor-lock");
    reveal_strlit("/system-monitor-lock");
    reveal_strlit("/tmp/zellij-*/system-monitor-lock");
    reveal_strlit("/tmp/system-monitor-lock");
    let pats = lock_patterns_for(tmpdir, xdg_runtime);
    let base = match tmpdir {
        Some(t) => t,
        None => "/tmp"@,
    };
    let runtime = match xdg_runtime {
        Some(x) => x,
        None => Seq::<char>::empty(),
    };
    let a = "/zellij-*/system-monitor-lock"@;
    let b = "/system-monitor-lock"@;
    let c = "/zellij*/system-monitor-lock"@;
    assert(names_lock_file(b)) by {
        assert(b.skip(0) =~= b);
    }
    assert(names_lock_file(a)) by {
        assert(a.skip(a.len() - b.len()) =~= b);
    }
    assert(names_lock_file(c)) by {
        assert(c.skip(c.len() - b.len()) =~= b);
    }
    lemma_names_lock_file_append(base, a);
    lemma_names_lock_file_append(base, b);
    lemma_names_lock_file_append(runtime, c);
    lemma_names_lock_file_append(runtime, b);
    lemma_names_lock_file_append("/tmp"@, a);
    lemma_names_lock_file_append("/tmp"@, b);
    assert("/tmp"@ + a =~= "/tmp/zellij-*/system-monitor-lock"@);
    assert("/tmp"@ + b =~= "/tmp/system-monitor-lock"@);
    assert(pats[0] == base + a);
    assert(pats[1] == base + b);
    if base == "/tmp"@ {
        assert(pats[0] == "/tmp/zellij-*/system-monitor-lock"@);
        assert(pats[1] == "/tmp/system-monitor-lock"@);
    } else {
        let n = pats.len();
        assert(pats[n - 2] == "/tmp/zellij-*/system-monitor-lock"@);
        assert(pats[n - 1] == "/tmp/system-monitor-lock"@);
    }
    if runtime.len() > 0 {
        assert(pats[2] == runtime + c);
        assert(pats[3] == runtime + b);
    }
    if tmpdir is None {
        assert(base == "/tmp"@);
    }
    assert forall|i: int| 0 <= i < pats.len() implies names_lock_file(#[trigger] pats[i]) by {
        if i >= 2 && runtime.len() > 0 && i < 4 {
        }
    }
}

/// The text of an optional string.
pub open spec fn text_of(s: Option<String>) -> Option<Seq<char>> {
    match s {
        Some(t) => Some(t@),
        None => None,
    }
}

/// `dir` followed by `tail`.
fn joined(dir: &String, tail: &str) -> (r: String)
    ensures
        r@ == dir@ + tail@,
{
    let mut r = dir.clone();
    r.append(tail);
    r
}

/// The glob patterns of the plugin's lock file, given the `TMPDIR` and
/// `XDG_RUNTIME_DIR` variables (`None` when unset or not Unicode).
pub fn lock_patterns(tmpdir: Option<String>, xdg_runtime: Option<String>) -> (patterns: Vec<String>)
    ensures
        patterns.deep_view() == lock_patterns_for(text_of(tmpdir), text_of(xdg_runtime)),
{
    let ghost tmp_view = text_of(tmpdir);
    let ghost xdg_view = text_of(xdg_runtime);
    let base = match tmpdir {
        Some(t) => t,
        None => String::from_str("/tmp"),
    };
    let runtime = match xdg_runtime {
        Some(x) => x,
        None => String::new(),
    };
    let mut patterns: Vec<String> = Vec::new();
    patterns.push(joined(&base, "/zellij-*/system-monitor-lock"));
    patterns.push(joined(&base, "/system-monitor-lock"));
    let ghost first = patterns.deep_view();
    if !runtime.as_str().is_empty() {
        patterns.push(joined(&runtime, "/zellij*/system-monitor-lock"));
        patterns.push(joined(&runtime, "/system-monitor-lock"));
    }
    let tmp = String::from_str("/tmp");
    if !(base == tmp) {
        patterns.push(String::from_str("/tmp/zellij-*/system-monitor-lock"));
        patterns.push(String::from_str("/tmp/system-monitor-lock"));
    }
    proof {
        let spec_base = match tmp_view {
            Some(t) => t,
            None => "/tmp"@,
        };
        let spec_runtime = match xdg_view {
            Some(x) => x,
            None => Seq::<char>::empty(),
        };
        assert(base@ == spec_base);
        assert(runtime@ == spec_runtime);
        assert(first =~= seq![
            spec_base + "/zellij-*/system-monitor-lock"@,
            spec_base + "/system-monitor-lock"@,
        ]);
        assert(patterns.deep_view() =~= lock_patterns_for(tmp_view, xdg_view));
    }
    patterns
}

} // verus!

//! Decisions of the Zellij plugin: its lock file, what it does on each
//! event, and which piped messages it reads.

use vstd::prelude::*;

verus! {

/// The decimal digits.
pub open spec fn digits() -> Seq<char> {
    seq!['0', '1', '2', '3', '4', '5', '6', '7', '8', '9']
}

/// `n` written in decimal, without leading zeros.
pub open spec fn decimal(n: nat) -> Seq<char>
    decreases n,
{
    if n < 10 {
        seq![digits()[n as int]]
    } else {
        decimal(n / 10).push(digits()[(n % 10) as int])
    }
}

/// The name of the plugin's lock file for the moment `nanos` nanoseconds
/// after the Unix epoch (0 when the clock is before the epoch).
pub open spec fn lock_path_for(nanos: Option<u128>) -> Seq<char> {
    "/tmp/system-monitor-lock-"@ + decimal(
        match nanos {
            Some(n) => n as nat,
            None => 0,
        },
    )
}

/// The digit for `d`, as a string.
fn digit_str(d: u8) -> (s: &'static str)
    requires
        d < 10,
    ensures
        s@ == seq![digits()[d as int]],
{
    match d {
        0 => {
            proof {
                reveal_strlit("0");
            }
            "0"
        },
        1 => {
            proof {
                reveal_strlit("1");
            }
            "1"
        },
        2 => {
            proof {
                reveal_strlit("2");
            }
            "2"
        },
        3 => {
            proof {
                reveal_strlit("3");
            }
            "3"
        },
        4 => {
            proof {
                reveal_strlit("4");
            }
            "4"
        },
        5 => {
            proof {
                reveal_strlit("5");
            }
            "5"
        },
        6 => {
            proof {
                reveal_strlit("6");
            }
            "6"
        },
        7 => {
            proof {
                reveal_strlit("7");
            }
            "7"
        },
        8 => {
            proof {
                reveal_strlit("8");
            }
            "8"
        },
        _ => {
            proof {
                reveal_strlit("9");
            }
            "9"
        },
    }
}

/// Appends `n` in decimal to `s`.
pub fn push_decimal(s: &mut String, n: u128)
    ensures
        final(s)@ == old(s)@ + decimal(n as nat),
    decreases n,
{
    let ghost start = s@;
    if n >= 10 {
        push_decimal(s, n / 10);
    }
    let d = (n % 10) as u8;
    s.append(digit_str(d));
    assert(s@ =~= start + decimal(n as nat));
}

/// The lock file the plugin creates while it runs, named after the moment
/// it was loaded: nanoseconds since the Unix epoch, or 0 when the clock is
/// before the epoch.
pub fn lock_path(nanos: Option<u128>) -> (path: String)
    ensures
        path@ == lock_path_for(nanos),
{
    let n: u128 = match nanos {
        Some(n) => n,
        None => 0,
    };
    let mut path = String::from_str("/tmp/system-monitor-lock-");
    push_decimal(&mut path, n);
    path
}

/// The events of Zellij that the plugin tells apart.
#[derive(PartialEq, Eq, Structural, Clone, Copy, Debug)]
pub enum PluginEvent {
    /// The user granted the permissions the plugin asked for.
    PermissionGranted,
    /// The user denied them.
    PermissionDenied,
    /// A command the plugin ran has finished.
    CommandFinished,
    /// The plugin is about to close.
    BeforeClose,
    /// Any other event.
    Other,
}

/// What the plugin does on an event.
#[derive(PartialEq, Eq, Structural, Clone, Copy, Debug)]
pub enum PluginAction {
    /// Create the lock file and start the monitor daemon.
    StartMonitor,
    /// Log that the permissions were denied.
    ReportDenied,
    /// Log the output of the finished command.
    ReportCommandOutput,
    /// Remove the lock file, so that the daemon stops.
    RemoveLock,
    /// Nothing.
    Nothing,
}

/// The action the plugin takes on an event.
pub open spec fn action_for(event: PluginEvent) -> PluginAction {
    match event {
        PluginEvent::PermissionGranted => PluginAction::StartMonitor,
        PluginEvent::PermissionDenied => PluginAction::ReportDenied,
        PluginEvent::CommandFinished => PluginAction::ReportCommandOutput,
        PluginEvent::BeforeClose => PluginAction::RemoveLock,
        PluginEvent::Other => PluginAction::Nothing,
    }
}

/// The plugin's answer to an event: the action to take, and whether to
/// redraw, which no event asks for.
pub fn on_event(event: PluginEvent) -> (answer: (PluginAction, bool))
    ensures
        answer.0 == action_for(event),
        !answer.1,
{
    let should_render = false;
    let action = match event {
        PluginEvent::PermissionGranted => PluginAction::StartMonitor,
        PluginEvent::PermissionDenied => PluginAction::ReportDenied,
        PluginEvent::CommandFinished => PluginAction::ReportCommandOutput,
        PluginEvent::BeforeClose => PluginAction::RemoveLock,
        PluginEvent::Other => PluginAction::Nothing,
    };
    (action, should_render)
}

/// Whether the lock file exists after the plugin takes `action`, given
/// whether it existed before, when the file operations succeed: starting the
/// monitor creates it, removing it removes it, and nothing else touches it.
pub open spec fn lock_after(held: bool, action: PluginAction) -> bool {
    match action {
        PluginAction::StartMonitor => true,
        PluginAction::RemoveLock => false,
        _ => held,
    }
}

/// Whether the lock file exists once the plugin, loaded without one, has
/// answered `events` in order.
pub open spec fn lock_held(events: Seq<PluginEvent>) -> bool
    decreases events.len(),
{
    if events.len() == 0 {
        false
    } else {
        lock_after(lock_held(events.drop_last()), action_for(events.last()))
    }
}

/// Some event is a grant of the permissions that no later event closes.
pub open spec fn granted_and_open(events: Seq<PluginEvent>) -> bool {
    exists|i: int|
        0 <= i < events.len() && events[i] == PluginEvent::PermissionGranted && forall|j: int|
            i < j < events.len() ==> #[trigger] events[j] != PluginEvent::BeforeClose
}

/// A grant as the last event leaves the permissions granted and open.
proof fn lemma_last_grant(events: Seq<PluginEvent>)
    requires
        events.len() > 0,
        events.last() == PluginEvent::PermissionGranted,
    ensures
        granted_and_open(events),
{
    let n = events.len() - 1;
    assert(events[n] == PluginEvent::PermissionGranted);
    assert(forall|j: int| n < j < events.len() ==> #[trigger] events[j] != PluginEvent::BeforeClose);
}

/// The close as the last event closes every grant.
proof fn lemma_last_close(events: Seq<PluginEvent>)
    requires
        events.len() > 0,
        events.last() == PluginEvent::BeforeClose,
    ensures
        !granted_and_open(events),
{
    let n = events.len() - 1;
    if granted_and_open(events) {
        let i = choose|i: int|
            0 <= i < events.len() && events[i] == PluginEvent::PermissionGranted && forall|j: int|
                i < j < events.len() ==> #[trigger] events[j] != PluginEvent::BeforeClose;
        assert(i != n);
        assert(events[n] != PluginEvent::BeforeClose);
    }
}

/// Any other last event neither grants nor closes.
proof fn lemma_last_other(events: Seq<PluginEvent>)
    requires
        events.len() > 0,
        events.last() != PluginEvent::PermissionGranted,
        events.last() != PluginEvent::BeforeClose,
    ensures
        granted_and_open(events) == granted_and_open(events.drop_last()),
{
    let rest = events.drop_last();
    let n = events.len() - 1;
    if granted_and_open(rest) {
        let i = choose|i: int|
            0 <= i < rest.len() && rest[i] == PluginEvent::PermissionGranted && forall|j: int|
                i < j < rest.len() ==> #[trigger] rest[j] != PluginEvent::BeforeClose;
        assert(events[i] == rest[i]);
        assert forall|j: int| i < j < events.len() implies #[trigger] events[j]
            != PluginEvent::BeforeClose by {
            if j < n {
                assert(events[j] == rest[j]);
            }
        }
    }
    if granted_and_open(events) {
        let i = choose|i: int|
            0 <= i < events.len() && events[i] == PluginEvent::PermissionGranted && forall|j: int|
                i < j < events.len() ==> #[trigger] events[j] != PluginEvent::BeforeClose;
        assert(i != n);
        assert(rest[i] == events[i]);
        assert forall|j: int| i < j < rest.len() implies #[trigger] rest[j]
            != PluginEvent::BeforeClose by {
            assert(rest[j] == events[j]);
        }
    }
}

/// The lock file exists exactly from a grant of the permissions until the
/// plugin closes: after any sequence of events, it exists if and only if
/// some event granted the permissions and no later event was the close.
pub proof fn lemma_lock_from_grant_until_close(events: Seq<PluginEvent>)
    ensures
        lock_held(events) <==> granted_and_open(events),
    decreases events.len(),
{
    if events.len() == 0 {
        assert(!granted_and_open(events));
    } else {
        lemma_lock_from_grant_until_close(events.drop_last());
        let last = events.last();
        if last == PluginEvent::PermissionGranted {
            lemma_last_grant(events);
        } else if last == PluginEvent::BeforeClose {
            lemma_last_close(events);
        } else {
            lemma_last_other(events);
        }
    }
}

/// Whether a failure to remove the lock file is logged: not when the file
/// was already gone.
pub fn report_removal_failure(not_found: bool) -> (report: bool)
    ensures
        report == !not_found,
{
    !not_found
}

/// Whether the plugin reads a piped message: one sent from the command line
/// with a payload.
pub fn reads_pipe_message(from_cli: bool, has_payload: bool) -> (read: bool)
    ensures
        read == (from_cli && has_payload),
{
    from_cli && has_payload
}

} // verus!

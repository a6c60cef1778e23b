use vstd::prelude::*;
use crate::text::{decimal, padded_decimal, push_decimal, push_padded_decimal, push_str, str_eq};

verus! {

/// The size past which the debug log is emptied before the next line.
pub const MAX_LOG_BYTES: u64 = 200000;

/// The sequence number given to the next debug-log line.
pub struct LogSequence {
    pub next: u64,
}

impl LogSequence {
    /// Numbering starts at 0.
    pub fn new() -> (r: LogSequence)
        ensures
            r.next == 0,
    {
        LogSequence { next: 0 }
    }

    /// Hands out the next sequence number (wrapping past `u64::MAX`, as an
    /// atomic `fetch_add` does).
    pub fn take(&mut self) -> (r: u64)
        ensures
            r == old(self).next,
            final(self).next == if old(self).next == u64::MAX {
                0
            } else {
                (old(self).next + 1) as u64
            },
    {
        let r = self.next;
        self.next = self.next.wrapping_add(1);
        r
    }
}

/// Whether a log file of `current_len` bytes is emptied before writing.
pub fn log_needs_reset(current_len: u64) -> (r: bool)
    ensures
        r == (current_len > MAX_LOG_BYTES),
{
    current_len > MAX_LOG_BYTES
}

/// A local wall-clock reading, as the operating system reports it.
pub struct LocalTime {
    pub year: u32,
    pub month: u32,
    pub day: u32,
    pub hour: u32,
    pub minute: u32,
    pub second: u32,
    pub millisecond: u32,
}

/// The timestamp of a log line: `YYYY-MM-DD HH:MM:SS.mmm` in local time.
pub open spec fn spec_local_timestamp(t: LocalTime) -> Seq<char> {
    padded_decimal(t.year as nat, 4) + "-"@ + padded_decimal(t.month as nat, 2) + "-"@
        + padded_decimal(t.day as nat, 2) + " "@ + padded_decimal(t.hour as nat, 2) + ":"@
        + padded_decimal(t.minute as nat, 2) + ":"@ + padded_decimal(t.second as nat, 2) + "."@
        + padded_decimal(t.millisecond as nat, 3)
}

/// The identifier of one run of the program: its process id and the
/// moment it started, in milliseconds since the Unix epoch.
pub open spec fn spec_session_id(process_id: u32, started_unix_ms: u64) -> Seq<char> {
    decimal(process_id as nat) + "-"@ + decimal(started_unix_ms as nat)
}

/// The line written for message `message` numbered `seq`, stamped with the
/// local time `timestamp` and the run's `session_id`.
pub open spec fn spec_log_line(
    timestamp: Seq<char>,
    session_id: Seq<char>,
    seq: u64,
    message: Seq<char>,
) -> Seq<char> {
    "["@ + timestamp + "] [session "@ + session_id + "] ["@ + decimal(seq as nat) + "] "@ + message
        + "\n"@
}

/// Writes a local time as a log-line timestamp.
pub fn local_timestamp(t: &LocalTime) -> (r: String)
    ensures
        r@ == spec_local_timestamp(*t),
{
    let mut s = String::new();
    push_padded_decimal(&mut s, t.year, 4);
    push_str(&mut s, "-");
    push_padded_decimal(&mut s, t.month, 2);
    push_str(&mut s, "-");
    push_padded_decimal(&mut s, t.day, 2);
    push_str(&mut s, " ");
    push_padded_decimal(&mut s, t.hour, 2);
    push_str(&mut s, ":");
    push_padded_decimal(&mut s, t.minute, 2);
    push_str(&mut s, ":");
    push_padded_decimal(&mut s, t.second, 2);
    push_str(&mut s, ".");
    push_padded_decimal(&mut s, t.millisecond, 3);
    assert(s@ =~= spec_local_timestamp(*t));
    s
}

/// Writes the identifier of this run of the program.
pub fn session_id(process_id: u32, started_unix_ms: u64) -> (r: String)
    ensures
        r@ == spec_session_id(process_id, started_unix_ms),
{
    let mut s = String::new();
    push_decimal(&mut s, process_id as u128);
    push_str(&mut s, "-");
    push_decimal(&mut s, started_unix_ms as u128);
    s
}

/// Formats one debug-log line:
/// `[<timestamp>] [session <session_id>] [<seq>] <message>` and a line break.
pub fn log_line(timestamp: &str, session_id: &str, seq: u64, message: &str) -> (r: String)
    ensures
        r@ == spec_log_line(timestamp@, session_id@, seq, message@),
{
    let mut s = String::new();
    push_str(&mut s, "[");
    s.append(timestamp);
    push_str(&mut s, "] [session ");
    s.append(session_id);
    push_str(&mut s, "] [");
    push_decimal(&mut s, seq as u128);
    push_str(&mut s, "] ");
    s.append(message);
    push_str(&mut s, "\n");
    assert(s@ =~= spec_log_line(timestamp@, session_id@, seq, message@));
    s
}

/// The message logged for a line sent by the frontend.
pub fn frontend_log_message(message: &str) -> (r: String)
    ensures
        r@ == "JS: "@ + message@,
{
    let mut s = String::new();
    push_str(&mut s, "JS: ");
    s.append(message);
    s
}

/// What a click on the tray menu asks for.
#[derive(PartialEq, Eq, Structural, Clone, Copy, Debug)]
pub enum TrayMenuAction {
    ShowWindow,
    Quit,
    Ignore,
}

/// The action of the tray menu item with id `id`: `show` brings the
/// window back, `quit` exits, anything else does nothing.
pub fn tray_menu_action(id: &str) -> (r: TrayMenuAction)
    ensures
        id@ == "show"@ ==> r == TrayMenuAction::ShowWindow,
        id@ == "quit"@ ==> r == TrayMenuAction::Quit,
        id@ != "show"@ && id@ != "quit"@ ==> r == TrayMenuAction::Ignore,
{
    proof {
        reveal_strlit("show");
        reveal_strlit("quit");
        assert("show"@[0] != "quit"@[0]);
    }
    if str_eq(id, "show") {
        TrayMenuAction::ShowWindow
    } else if str_eq(id, "quit") {
        TrayMenuAction::Quit
    } else {
        TrayMenuAction::Ignore
    }
}

} // verus!

//! The background server's bookkeeping: where its pid and log files live,
//! how the pid file is written and read back, and the decisions of the
//! start, stop, tail and follow commands.
use vstd::prelude::*;

use crate::text::{chars_of, digit_char, decimal_digits, is_white_space, push_char, push_decimal, trim_seq};

verus! {

pub const LOG_DIR: &'static str = "logs";

pub const PID_FILE: &'static str = "server.pid";

pub const LOG_FILE: &'static str = "server.log";

/// The directory that holds the pid and log files.
pub fn logs_dir() -> (r: String)
    ensures
        r@ == LOG_DIR@,
{
    String::from_str(LOG_DIR)
}

/// A file inside the logs directory.
pub open spec fn in_logs_dir(name: Seq<char>) -> Seq<char> {
    LOG_DIR@ + seq!['/'] + name
}

fn logs_file(name: &str) -> (r: String)
    ensures
        r@ == in_logs_dir(name@),
{
    let mut r = logs_dir();
    push_char(&mut r, '/');
    r.append(name);
    r
}

/// The file that holds the background server's pid.
pub fn pid_path() -> (r: String)
    ensures
        r@ == in_logs_dir(PID_FILE@),
{
    logs_file(PID_FILE)
}

/// The file the background server writes its output to.
pub fn log_path() -> (r: String)
    ensures
        r@ == in_logs_dir(LOG_FILE@),
{
    logs_file(LOG_FILE)
}

/// The content of the pid file: the pid in decimal and a newline.
pub open spec fn pid_file_content(pid: u32) -> Seq<char> {
    decimal_digits(pid as nat).push('\n')
}

/// What is written to the pid file.
pub fn pid_file_text(pid: u32) -> (r: String)
    ensures
        r@ == pid_file_content(pid),
{
    let mut r = String::new();
    push_decimal(&mut r, pid as u64);
    push_char(&mut r, '\n');
    assert(r@ =~= pid_file_content(pid));
    r
}

/// Whether a character is an ASCII digit.
pub open spec fn is_digit(c: char) -> bool {
    '0' <= c && c <= '9'
}

/// The value of a run of decimal digits.
pub open spec fn digits_value(s: Seq<char>) -> nat
    decreases s.len(),
{
    if s.len() == 0 {
        0
    } else {
        digits_value(s.drop_last()) * 10 + ((s.last() as nat) - 48) as nat
    }
}

/// The digits of an unsigned number: the text without one leading `+`.
pub open spec fn unsigned_digits(s: Seq<char>) -> Seq<char> {
    if s.len() > 0 && s[0] == '+' {
        s.drop_first()
    } else {
        s
    }
}

/// What `u32::from_str` accepts: an optional `+`, then one or more decimal
/// digits whose value fits in 32 bits.
pub open spec fn parse_u32_text(s: Seq<char>) -> Option<u32> {
    let d = unsigned_digits(s);
    if d.len() > 0 && (forall|i: int| 0 <= i < d.len() ==> is_digit(#[trigger] d[i])) && digits_value(d)
        <= u32::MAX {
        Some(digits_value(d) as u32)
    } else {
        None
    }
}

/// The pid a pid file holds: its trimmed content as a number.
pub open spec fn pid_of_content(content: Seq<char>) -> Option<u32> {
    parse_u32_text(trim_seq(content))
}

proof fn lemma_digits_value_monotone(s: Seq<char>, j: int)
    requires
        0 <= j <= s.len(),
        forall|i: int| 0 <= i < s.len() ==> is_digit(#[trigger] s[i]),
    ensures
        digits_value(s.take(j)) <= digits_value(s),
    decreases s.len(),
{
    if j < s.len() {
        assert forall|i: int| 0 <= i < s.drop_last().len() implies is_digit(
            #[trigger] s.drop_last()[i],
        ) by {
            assert(s.drop_last()[i] == s[i]);
        }
        lemma_digits_value_monotone(s.drop_last(), j);
        assert(s.drop_last().take(j) =~= s.take(j));
        assert(is_digit(s[s.len() - 1]));
    } else {
        assert(s.take(j) =~= s);
    }
}

/// The number a text holds, as `str::parse::<u32>` reads it.
pub fn parse_u32(s: &str) -> (r: Option<u32>)
    ensures
        r == parse_u32_text(s@),
{
    let v = chars_of(s);
    let n = v.len();
    let mut i: usize = 0;
    if n > 0 && v[0] == '+' {
        i = 1;
    }
    let ghost d = unsigned_digits(v@);
    assert(d =~= v@.skip(i as int));
    if i == n {
        return None;
    }
    let start = i;
    let mut acc: u64 = 0;
    while i < n
        invariant
            n == v@.len(),
            v@ == s@,
            d == unsigned_digits(s@),
            start <= i <= n,
            d == v@.skip(start as int),
            d.len() > 0,
            acc <= u32::MAX,
            acc == digits_value(d.take(i - start)),
            forall|k: int| 0 <= k < i - start ==> is_digit(#[trigger] d[k]),
        decreases n - i,
    {
        let c = v[i];
        assert(d[i - start] == c);
        if !('0' <= c && c <= '9') {
            assert(!is_digit(d[i - start]));
            return None;
        }
        let digit = (c as u32 - 48) as u64;
        assert(d.take(i - start + 1).drop_last() =~= d.take(i - start));
        assert(d.take(i - start + 1).last() == c);
        let next = acc * 10 + digit;
        if next > 4294967295 {
            proof {
                if forall|k: int| 0 <= k < d.len() ==> is_digit(#[trigger] d[k]) {
                    lemma_digits_value_monotone(d, i - start + 1);
                }
            }
            return None;
        }
        acc = next;
        i = i + 1;
    }
    assert(d.take(i - start) =~= d);
    Some(acc as u32)
}

/// The pid held by the content of a pid file.
pub fn parse_pid(content: &str) -> (r: Option<u32>)
    ensures
        r == pid_of_content(content@),
{
    let t = crate::text::trim_text(content);
    parse_u32(t.as_str())
}

proof fn lemma_digit_char_value(d: nat)
    requires
        d < 10,
    ensures
        digit_char(d) as nat == d + 48,
        is_digit(digit_char(d)),
{
    assert(((d + 48) as u8) as char as nat == d + 48);
}

pub proof fn lemma_decimal_is_digits(n: nat)
    ensures
        decimal_digits(n).len() > 0,
        forall|i: int| 0 <= i < decimal_digits(n).len() ==> is_digit(#[trigger] decimal_digits(n)[i]),
        digits_value(decimal_digits(n)) == n,
    decreases n,
{
    lemma_digit_char_value(n % 10);
    if n < 10 {
        let s = decimal_digits(n);
        assert(s.drop_last() =~= Seq::<char>::empty());
        assert(s.last() == digit_char(n));
        assert(n % 10 == n);
        assert(digits_value(s) == digits_value(s.drop_last()) * 10 + ((s.last() as nat) - 48) as nat);
    }
    if n >= 10 {
        lemma_decimal_is_digits(n / 10);
        let s = decimal_digits(n);
        assert(s.drop_last() =~= decimal_digits(n / 10));
        assert(s.last() == digit_char(n % 10));
        assert(digits_value(s) == digits_value(s.drop_last()) * 10 + ((s.last() as nat) - 48) as nat);
        assert(digits_value(s) == (n / 10) * 10 + n % 10);
        assert forall|i: int| 0 <= i < s.len() implies is_digit(#[trigger] s[i]) by {
            if i < s.len() - 1 {
                assert(s[i] == decimal_digits(n / 10)[i]);
            }
        }
    }
}

/// What is written to the pid file reads back as the same pid.
pub proof fn lemma_pid_file_round_trip(pid: u32)
    ensures
        pid_of_content(pid_file_content(pid)) == Some(pid),
{
    let d = decimal_digits(pid as nat);
    lemma_decimal_is_digits(pid as nat);
    let c = pid_file_content(pid);
    assert(!is_white_space(d[0]));
    assert(crate::text::trim_start_seq(c) == c);
    assert(c.drop_last() =~= d);
    assert(crate::text::trim_end_seq(d) == d) by {
        assert(!is_white_space(d.last()));
    }
    assert(trim_seq(c) == d);
    assert(unsigned_digits(d) == d);
}

/// The `/proc` entry of a process, which exists while it is alive.
pub open spec fn proc_entry_text(pid: u32) -> Seq<char> {
    "/proc/"@ + decimal_digits(pid as nat)
}

/// The `/proc` entry of a process.
pub fn proc_entry_path(pid: u32) -> (r: String)
    ensures
        r@ == proc_entry_text(pid),
{
    let mut r = String::from_str("/proc/");
    push_decimal(&mut r, pid as u64);
    r
}

/// `label (pid=N)`.
pub open spec fn with_pid_text(label: Seq<char>, pid: u32) -> Seq<char> {
    label + " (pid="@ + decimal_digits(pid as nat) + seq![')']
}

fn with_pid(label: &str, pid: u32) -> (r: String)
    ensures
        r@ == with_pid_text(label@, pid),
{
    let mut r = String::from_str(label);
    r.append(" (pid=");
    push_decimal(&mut r, pid as u64);
    push_char(&mut r, ')');
    assert(r@ =~= with_pid_text(label@, pid));
    r
}

/// What the start command does, given the pid in the pid file (if any) and
/// whether that process is alive.
#[derive(Debug)]
pub enum StartDecision {
    /// The server already runs: report this and do nothing.
    AlreadyRunning(String),
    /// Spawn a new server.
    Spawn,
}

/// The start command's decision: a live recorded process means the server
/// already runs.
pub fn start_decision(recorded: Option<u32>, alive: bool) -> (r: StartDecision)
    ensures
        (recorded is Some && alive) ==> (r matches StartDecision::AlreadyRunning(m) && m@
            == with_pid_text("already running"@, recorded->0)),
        !(recorded is Some && alive) ==> r is Spawn,
{
    match recorded {
        Some(pid) => if alive {
            StartDecision::AlreadyRunning(with_pid("already running", pid))
        } else {
            StartDecision::Spawn
        },
        None => StartDecision::Spawn,
    }
}

/// The report after spawning the server.
pub fn started_message(pid: u32) -> (r: String)
    ensures
        r@ == with_pid_text("started"@, pid),
{
    with_pid("started", pid)
}

/// The stop command's progress.
#[derive(Debug, Clone, Copy, PartialEq, Eq)]
pub enum StopState {
    /// Looking at the pid file.
    Checking,
    /// SIGTERM was sent; waiting for the process to exit.
    Terminating(u32),
    /// SIGKILL was sent; waiting for the process to exit.
    Killing(u32),
    /// The wait after SIGKILL is over; one last look decides.
    Confirming(u32),
    /// The command is over.
    Finished,
}

/// What the stop command observed.
#[derive(Debug, Clone, Copy, PartialEq, Eq)]
pub enum StopEvent {
    /// The pid file: whether it exists, the pid it holds, and whether that
    /// process is alive.
    PidFile { exists: bool, pid: Option<u32>, alive: bool },
    /// A look at the process while waiting: whether the wait's deadline is
    /// still ahead, and whether the process is alive.
    Poll { in_time: bool, alive: bool },
}

/// The outcome the stop command reports.
#[derive(Debug, Clone, Copy, PartialEq, Eq)]
pub enum StopReport {
    NotRunning,
    Stopped,
    /// The process survived SIGKILL.
    StillAlive(u32),
}

/// What the stop command does next.
#[derive(Debug, Clone, Copy, PartialEq, Eq)]
pub enum StopAction {
    SendTerm(u32),
    SendKill(u32),
    /// Wait this many milliseconds, then look again.
    Sleep(u64),
    /// Look again at once.
    Recheck,
    /// End the command, after removing the pid file when asked.
    Finish { remove_pid_file: bool, report: StopReport },
    /// The event does not belong to this state: nothing to do.
    Ignore,
}

/// The grace period after SIGTERM is polled every 100 ms; the wait after
/// SIGKILL every 50 ms.
pub const TERM_POLL_MS: u64 = 100;

pub const KILL_POLL_MS: u64 = 50;

/// One step of the stop command.
pub open spec fn stop_transition(s: StopState, e: StopEvent) -> (StopState, StopAction) {
    match (s, e) {
        (StopState::Checking, StopEvent::PidFile { exists, pid, alive }) => if !exists {
            (StopState::Finished, StopAction::Finish { remove_pid_file: false, report: StopReport::NotRunning })
        } else {
            match pid {
                None => (
                    StopState::Finished,
                    StopAction::Finish { remove_pid_file: true, report: StopReport::NotRunning },
                ),
                Some(p) => if !alive {
                    (
                        StopState::Finished,
                        StopAction::Finish { remove_pid_file: true, report: StopReport::NotRunning },
                    )
                } else {
                    (StopState::Terminating(p), StopAction::SendTerm(p))
                },
            }
        },
        (StopState::Terminating(p), StopEvent::Poll { in_time, alive }) => if !alive {
            (StopState::Finished, StopAction::Finish { remove_pid_file: true, report: StopReport::Stopped })
        } else if in_time {
            (StopState::Terminating(p), StopAction::Sleep(TERM_POLL_MS))
        } else {
            (StopState::Killing(p), StopAction::SendKill(p))
        },
        (StopState::Killing(p), StopEvent::Poll { in_time, alive }) => if in_time && alive {
            (StopState::Killing(p), StopAction::Sleep(KILL_POLL_MS))
        } else {
            (StopState::Confirming(p), StopAction::Recheck)
        },
        (StopState::Confirming(p), StopEvent::Poll { in_time, alive }) => if alive {
            (
                StopState::Finished,
                StopAction::Finish { remove_pid_file: true, report: StopReport::StillAlive(p) },
            )
        } else {
            (StopState::Finished, StopAction::Finish { remove_pid_file: true, report: StopReport::Stopped })
        },
        _ => (s, StopAction::Ignore),
    }
}

/// One step of the stop command: the next state and what to do.
pub fn stop_step(s: StopState, e: StopEvent) -> (r: (StopState, StopAction))
    ensures
        r == stop_transition(s, e),
{
    match (s, e) {
        (StopState::Checking, StopEvent::PidFile { exists, pid, alive }) => if !exists {
            (StopState::Finished, StopAction::Finish { remove_pid_file: false, report: StopReport::NotRunning })
        } else {
            match pid {
                None => (
                    StopState::Finished,
                    StopAction::Finish { remove_pid_file: true, report: StopReport::NotRunning },
                ),
                Some(p) => if !alive {
                    (
                        StopState::Finished,
                        StopAction::Finish { remove_pid_file: true, report: StopReport::NotRunning },
                    )
                } else {
                    (StopState::Terminating(p), StopAction::SendTerm(p))
                },
            }
        },
        (StopState::Terminating(p), StopEvent::Poll { in_time, alive }) => if !alive {
            (StopState::Finished, StopAction::Finish { remove_pid_file: true, report: StopReport::Stopped })
        } else if in_time {
            (StopState::Terminating(p), StopAction::Sleep(TERM_POLL_MS))
        } else {
            (StopState::Killing(p), StopAction::SendKill(p))
        },
        (StopState::Killing(p), StopEvent::Poll { in_time, alive }) => if in_time && alive {
            (StopState::Killing(p), StopAction::Sleep(KILL_POLL_MS))
        } else {
            (StopState::Confirming(p), StopAction::Recheck)
        },
        (StopState::Confirming(p), StopEvent::Poll { in_time, alive }) => if alive {
            (
                StopState::Finished,
                StopAction::Finish { remove_pid_file: true, report: StopReport::StillAlive(p) },
            )
        } else {
            (StopState::Finished, StopAction::Finish { remove_pid_file: true, report: StopReport::Stopped })
        },
        _ => (s, StopAction::Ignore),
    }
}

/// SIGKILL is sent only to a process that already got SIGTERM, once its
/// grace period is over and it is still alive; SIGTERM only to the live
/// process the pid file names.
pub proof fn lemma_kill_only_after_term(s: StopState, e: StopEvent)
    ensures
        stop_transition(s, e).1 matches StopAction::SendKill(p) ==> (s == StopState::Terminating(p)
            && e == StopEvent::Poll { in_time: false, alive: true }),
        stop_transition(s, e).1 matches StopAction::SendTerm(p) ==> (s == StopState::Checking
            && e == StopEvent::PidFile { exists: true, pid: Some(p), alive: true }),
{
}

/// Once a pid was read, the command never ends without removing the pid
/// file; and it reports failure only for a process that survived SIGKILL.
pub proof fn lemma_finish_cleans_up(s: StopState, e: StopEvent)
    ensures
        stop_transition(s, e).1 matches StopAction::Finish { remove_pid_file, report } ==> (
        remove_pid_file || (s == StopState::Checking && e matches StopEvent::PidFile {
            exists: false,
            ..
        })),
        stop_transition(s, e).1 matches StopAction::Finish { report: StopReport::StillAlive(p), .. }
            ==> (s == StopState::Confirming(p) && e matches StopEvent::Poll { alive: true, .. }),
{
}

/// The message of each report.
pub open spec fn stop_report_text(r: StopReport) -> Seq<char> {
    match r {
        StopReport::NotRunning => "not running"@,
        StopReport::Stopped => "stopped"@,
        StopReport::StillAlive(p) => "failed to stop process pid="@ + decimal_digits(p as nat),
    }
}

/// The message of a report.
pub fn stop_report_message(r: StopReport) -> (m: String)
    ensures
        m@ == stop_report_text(r),
{
    match r {
        StopReport::NotRunning => String::from_str("not running"),
        StopReport::Stopped => String::from_str("stopped"),
        StopReport::StillAlive(p) => {
            let mut m = String::from_str("failed to stop process pid=");
            push_decimal(&mut m, p as u64);
            m
        },
    }
}

/// The index of the first of the last `lines` lines of `len` lines.
pub open spec fn tail_start(len: nat, lines: nat) -> nat {
    if len > lines {
        (len - lines) as nat
    } else {
        0
    }
}

/// The last `lines` lines of a log (all of them when there are fewer).
pub fn last_lines(all: &Vec<String>, lines: usize) -> (r: Vec<String>)
    ensures
        r@.map_values(|l: String| l@) == all@.map_values(|l: String| l@).skip(
            tail_start(all@.len(), lines as nat) as int,
        ),
{
    let start = all.len().saturating_sub(lines);
    let mut r: Vec<String> = Vec::new();
    let mut i = start;
    while i < all.len()
        invariant
            start == tail_start(all@.len(), lines as nat),
            start <= i <= all@.len(),
            r@.map_values(|l: String| l@) == all@.map_values(|l: String| l@).subrange(
                start as int,
                i as int,
            ),
        decreases all@.len() - i,
    {
        let ghost before = r@.map_values(|l: String| l@);
        r.push(all[i].clone());
        assert(r@.map_values(|l: String| l@) =~= before.push(all@[i as int]@));
        assert(all@.map_values(|l: String| l@).subrange(start as int, i + 1) =~= before.push(
            all@[i as int]@,
        ));
        i = i + 1;
    }
    assert(all@.map_values(|l: String| l@).subrange(start as int, i as int) =~= all@.map_values(
        |l: String| l@,
    ).skip(start as int));
    r
}

/// The message when there is no log file yet.
pub fn missing_log_message(path: &str) -> (r: String)
    ensures
        r@ == "log file not found: "@ + path@,
{
    let mut r = String::from_str("log file not found: ");
    r.append(path);
    r
}

/// Where following the log reads from next, given where the last read
/// ended and the file's current length: from the start again when the file
/// shrank (it was truncated or replaced).
pub fn follow_read_from(offset: u64, len: u64) -> (r: u64)
    ensures
        r == if len < offset {
            0
        } else {
            offset
        },
{
    if len < offset {
        0
    } else {
        offset
    }
}

/// Where the next read starts after a read from `from`: the file's length
/// when something was read, unchanged otherwise.
pub fn follow_next_offset(from: u64, len: u64, read_something: bool) -> (r: u64)
    ensures
        r == if read_something {
            len
        } else {
            from
        },
{
    if read_something {
        len
    } else {
        from
    }
}

} // verus!

//! Scripting aids: waiting for a device state, choosing the server, ending an
//! interactive shell.
use vstd::prelude::*;
use crate::error::AdbError;
use crate::wire::{decimal_chars, decimal_text, decimal_value, parse_u64};

verus! {

/// The state named by a `wait-for[-TRANSPORT]-STATE` command: the text after
/// its last `-`.
pub open spec fn after_last_dash(s: Seq<char>) -> Seq<char>
    decreases s.len(),
{
    if s.len() == 0 {
        s
    } else if s.last() == '-' {
        Seq::empty()
    } else {
        after_last_dash(s.drop_last()).push(s.last())
    }
}

/// The options of `wait-for`, scanned from index `i`: `-t <seconds>`, the
/// last one given counting. Anything else is an error (`None`).
pub open spec fn timeout_scan(args: Seq<Seq<char>>, i: int, acc: Option<nat>) -> Option<Option<nat>>
    decreases args.len() - i,
{
    if i < 0 || i >= args.len() {
        Some(acc)
    } else if args[i] == "-t"@ && i + 1 < args.len() && decimal_value(args[i + 1]) is Some
        && decimal_value(args[i + 1])->0 <= u64::MAX {
        timeout_scan(args, i + 2, decimal_value(args[i + 1]))
    } else {
        None
    }
}

/// What a `wait-for` command asks for.
#[derive(Debug)]
pub struct WaitRequest {
    pub state: String,
    pub timeout_secs: Option<u64>,
}

/// Reads a `wait-for[-TRANSPORT]-STATE` command and its `-t` option.
pub fn parse_wait_for(command: &str, args: &Vec<String>) -> (r: Result<WaitRequest, AdbError>)
    requires
        command@.len() >= 8,
    ensures
        match r {
            Ok(w) => w.state@ == after_last_dash(command@.subrange(8, command@.len() as int))
                && timeout_scan(args@.map_values(|a: String| a@), 0, None) == Some(
                match w.timeout_secs {
                    Some(t) => Some(t as nat),
                    None => None::<nat>,
                },
            ),
            Err(e) => e is Argument && timeout_scan(args@.map_values(|a: String| a@), 0, None) is None,
        },
{
    let n = command.unicode_len();
    let rem = command.substring_char(8, n);
    let ghost rv = rem@;
    let m = rem.unicode_len();
    let mut i: usize = m;
    assert(rv.take(m as int) =~= rv);
    assert(rv.subrange(m as int, m as int) =~= Seq::<char>::empty());
    while i > 0 && rem.get_char(i - 1) != '-'
        invariant
            i <= m,
            m == rv.len(),
            rv == rem@,
            after_last_dash(rv) == after_last_dash(rv.take(i as int)) + rv.subrange(i as int, m as int),
        decreases i,
    {
        assert(rv.take(i as int).drop_last() =~= rv.take(i - 1));
        assert(rv.subrange(i - 1, m as int) =~= seq![rv[i - 1]] + rv.subrange(i as int, m as int));
        assert(rv.take(i as int).last() == rv[i - 1]);
        i = i - 1;
    }
    if i > 0 {
        assert(rv.take(i as int).last() == rv[i - 1]);
    } else {
        assert(rv.take(0) =~= Seq::<char>::empty());
    }
    let state = rem.substring_char(i, m).to_owned();
    assert(state@ == after_last_dash(rv));
    let ghost views = args@.map_values(|a: String| a@);
    let mut timeout: Option<u64> = None;
    let mut k: usize = 0;
    while k < args.len()
        invariant
            k <= args@.len(),
            views == args@.map_values(|a: String| a@),
            timeout_scan(views, 0, None) == timeout_scan(
                views,
                k as int,
                match timeout {
                    Some(t) => Some(t as nat),
                    None => None::<nat>,
                },
            ),
        decreases args@.len() - k,
    {
        assert(views[k as int] == args@[k as int]@);
        if args[k] != String::from_str("-t") {
            return Err(AdbError::Argument(String::from_str("Unknown option: ").concat(args[k].as_str())));
        }
        if k + 1 >= args.len() {
            return Err(AdbError::Argument(String::from_str("No timeout value provided after -t")));
        }
        assert(views[k + 1] == args@[k + 1]@);
        match parse_u64(args[k + 1].as_str()) {
            Some(t) => {
                timeout = Some(t);
            },
            None => {
                return Err(AdbError::Argument(String::from_str("Invalid timeout value: ").concat(args[k + 1].as_str())));
            },
        }
        k = k + 2;
    }
    Ok(WaitRequest { state, timeout_secs: timeout })
}

pub open spec fn wait_timeout_text(state: Seq<char>) -> Seq<char> {
    "Timeout while waiting for device to reach '"@ + state + "' state"@
}

/// Checked before each poll: fails once the elapsed time reaches the
/// timeout.
pub fn wait_deadline(desired_state: &str, elapsed_ms: u64, timeout_secs: Option<u64>) -> (r: Result<(), AdbError>)
    ensures
        match timeout_secs {
            Some(t) => if elapsed_ms >= t * 1000 {
                r matches Err(AdbError::Transport(m)) && m@ == wait_timeout_text(desired_state@)
            } else {
                r is Ok
            },
            None => r is Ok,
        },
{
    match timeout_secs {
        Some(t) => {
            if elapsed_ms as u128 >= t as u128 * 1000 {
                Err(AdbError::Transport(
                    String::from_str("Timeout while waiting for device to reach '").concat(desired_state).concat("' state"),
                ))
            } else {
                Ok(())
            }
        },
        None => Ok(()),
    }
}

/// Whether a poll found the wanted state. A failed poll (the device may not
/// be there yet) is no error: the wait goes on.
pub fn wait_reached(desired_state: &str, polled: &Result<String, AdbError>) -> (r: bool)
    ensures
        r == (polled matches Ok(s) && s@ == desired_state@),
{
    match polled {
        Ok(s) => *s == String::from_str(desired_state),
        Err(_) => false,
    }
}

/// How a wait ends, by the index of the step that ends it.
pub enum WaitEnd {
    Reached(nat),
    TimedOut(nat),
    Pending,
}

/// The wait loop from step `i` on. At each step the deadline is checked at
/// elapsed time `times[i]` (milliseconds), as `wait_deadline` does; then the
/// poll gives `polls[i]` (`None` for a failed poll), which ends the wait when
/// it is the wanted state, as `wait_reached` says.
pub open spec fn wait_run(
    desired: Seq<char>,
    timeout_secs: Option<nat>,
    times: Seq<nat>,
    polls: Seq<Option<Seq<char>>>,
    i: int,
) -> WaitEnd
    decreases times.len() - i,
{
    if i < 0 || i >= times.len() || i >= polls.len() {
        WaitEnd::Pending
    } else if timeout_secs is Some && times[i] >= timeout_secs->0 * 1000 {
        WaitEnd::TimedOut(i as nat)
    } else if polls[i] == Some(desired) {
        WaitEnd::Reached(i as nat)
    } else {
        wait_run(desired, timeout_secs, times, polls, i + 1)
    }
}

/// A wait with a timeout of `t` seconds whose polls never find the wanted
/// state ends in a timeout, at the first step whose deadline check comes at
/// or after `t` seconds, and not before; that step's error names the state.
pub proof fn lemma_wait_times_out(
    desired: Seq<char>,
    t: nat,
    times: Seq<nat>,
    polls: Seq<Option<Seq<char>>>,
    k: int,
)
    requires
        polls.len() == times.len(),
        forall|i: int| 0 <= i < polls.len() ==> #[trigger] polls[i] != Some(desired),
        0 <= k < times.len(),
        times[k] >= t * 1000,
        forall|i: int| 0 <= i < k ==> #[trigger] times[i] < t * 1000,
    ensures
        wait_run(desired, Some(t), times, polls, 0) == WaitEnd::TimedOut(k as nat),
        wait_timeout_text(desired).subrange(43, 43 + desired.len() as int) == desired,
{
    lemma_wait_run_from(desired, t, times, polls, k, 0);
    reveal_strlit("Timeout while waiting for device to reach '");
    assert("Timeout while waiting for device to reach '"@.len() == 43);
    assert(wait_timeout_text(desired).subrange(43, 43 + desired.len() as int) =~= desired);
}

proof fn lemma_wait_run_from(
    desired: Seq<char>,
    t: nat,
    times: Seq<nat>,
    polls: Seq<Option<Seq<char>>>,
    k: int,
    i: int,
)
    requires
        polls.len() == times.len(),
        forall|j: int| 0 <= j < polls.len() ==> #[trigger] polls[j] != Some(desired),
        0 <= i <= k < times.len(),
        times[k] >= t * 1000,
        forall|j: int| 0 <= j < k ==> #[trigger] times[j] < t * 1000,
    ensures
        wait_run(desired, Some(t), times, polls, i) == WaitEnd::TimedOut(k as nat),
    decreases k - i,
{
    if i < k {
        assert(times[i] < t * 1000);
        assert(polls[i] != Some(desired));
        lemma_wait_run_from(desired, t, times, polls, k, i + 1);
    }
}

/// The server address without any configuration.
pub const DEFAULT_SERVER_IP: &'static str = "127.0.0.1";

/// The server port without any configuration.
pub const DEFAULT_SERVER_PORT: u16 = 5037;

/// `host:port` of the server: the given address and port, each defaulting
/// separately; with neither given, `ADB_ADDRESS` if it is set, else the
/// default.
pub fn server_address(address: Option<&str>, port: Option<u16>, env_address: Option<&str>) -> (r: String)
    ensures
        r@ == match (address, port) {
            (Some(a), Some(p)) => a@ + ":"@ + decimal_chars(p as nat),
            (Some(a), None) => a@ + ":"@ + decimal_chars(5037),
            (None, Some(p)) => "127.0.0.1:"@ + decimal_chars(p as nat),
            (None, None) => match env_address {
                Some(e) => e@,
                None => "127.0.0.1:"@ + decimal_chars(5037),
            },
        },
{
    match (address, port) {
        (Some(a), Some(p)) => String::from_str(a).concat(":").concat(decimal_text(p as u64).as_str()),
        (Some(a), None) => String::from_str(a).concat(":").concat(decimal_text(5037).as_str()),
        (None, Some(p)) => String::from_str("127.0.0.1:").concat(decimal_text(p as u64).as_str()),
        (None, None) => match env_address {
            Some(e) => String::from_str(e),
            None => String::from_str("127.0.0.1:").concat(decimal_text(5037).as_str()),
        },
    }
}

pub open spec fn address_hint() -> Seq<char> {
    "You can change the ADB server address by setting the ADB_ADDRESS environment variable (e.g., export ADB_ADDRESS=127.0.0.1:5037)"@
}

/// The failure to connect to the server, with the reason and a hint.
pub fn connect_error(address: &str, cause: &str) -> (r: AdbError)
    ensures
        r matches AdbError::Transport(m) && m@ == "Failed to connect to ADB server at address "@ + address@
            + ": "@ + cause@ + ". "@ + address_hint(),
{
    AdbError::Transport(
        String::from_str("Failed to connect to ADB server at address ").concat(address).concat(": ").concat(
            cause,
        ).concat(". ").concat(
            "You can change the ADB server address by setting the ADB_ADDRESS environment variable (e.g., export ADB_ADDRESS=127.0.0.1:5037)",
        ),
    )
}

/// The connection attempt that took too long.
pub fn connect_timeout_error(address: &str) -> (r: AdbError)
    ensures
        r matches AdbError::Transport(m) && m@ == "Connection attempt to ADB server at address "@ + address@
            + " timed out. "@ + address_hint(),
{
    AdbError::Transport(
        String::from_str("Connection attempt to ADB server at address ").concat(address).concat(
            " timed out. ",
        ).concat(
            "You can change the ADB server address by setting the ADB_ADDRESS environment variable (e.g., export ADB_ADDRESS=127.0.0.1:5037)",
        ),
    )
}

/// `exit` and a newline in ASCII.
pub open spec fn exit_line() -> Seq<u8> {
    seq![101u8, 120u8, 105u8, 116u8, 10u8]
}

/// Whether what was typed into an interactive shell so far ends with
/// `exit` and a newline, which ends the session.
pub fn ends_session(input: &Vec<u8>) -> (r: bool)
    ensures
        r == (input@.len() >= 5 && input@.subrange(input@.len() - 5, input@.len() as int) == exit_line()),
{
    let n = input.len();
    if n < 5 {
        return false;
    }
    let ghost t = input@.subrange(n - 5, n as int);
    let r = input[n - 5] == 101 && input[n - 4] == 120 && input[n - 3] == 105 && input[n - 2] == 116
        && input[n - 1] == 10;
    if r {
        assert(t =~= exit_line());
    } else {
        assert(t[0] == input@[n - 5] && t[1] == input@[n - 4] && t[2] == input@[n - 3] && t[3]
            == input@[n - 2] && t[4] == input@[n - 1]);
    }
    r
}

} // verus!

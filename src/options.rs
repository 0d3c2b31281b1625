//! The arguments of each subcommand.
use vstd::prelude::*;
use crate::error::AdbError;

verus! {

/// Whether `s` starts with `p`.
pub open spec fn has_prefix(s: Seq<char>, p: Seq<char>) -> bool {
    s.len() >= p.len() && s.take(p.len() as int) == p
}

/// Whether `s` starts with `p`.
pub fn starts_with(s: &str, p: &str) -> (r: bool)
    ensures
        r == has_prefix(s@, p@),
{
    let n = s.unicode_len();
    let m = p.unicode_len();
    if n < m {
        return false;
    }
    let head = s.substring_char(0, m).to_owned();
    assert(head@ =~= s@.take(m as int));
    head == String::from_str(p)
}

/// The subcommands.
#[derive(Debug, Clone, Copy, PartialEq, Eq, Structural)]
pub enum CommandKind {
    Devices,
    Connect,
    Shell,
    Forward,
    Reverse,
    Push,
    Pull,
    DisableVerity,
    EnableVerity,
    Keygen,
    Bugreport,
    Logcat,
    Install,
    Uninstall,
    Reboot,
    GetDevpath,
    GetSerialno,
    Remount,
    Root,
    Unroot,
    Usb,
    Tcpip,
    WaitFor,
    GetState,
    Unknown,
}

/// Which subcommand a name selects. Some are matched by prefix, the others
/// exactly, tried in this order.
pub open spec fn command_kind_of(c: Seq<char>) -> CommandKind {
    if has_prefix(c, "devices"@) {
        CommandKind::Devices
    } else if has_prefix(c, "connect"@) {
        CommandKind::Connect
    } else if has_prefix(c, "shell"@) {
        CommandKind::Shell
    } else if has_prefix(c, "forward"@) {
        CommandKind::Forward
    } else if c == "reverse"@ {
        CommandKind::Reverse
    } else if has_prefix(c, "push"@) {
        CommandKind::Push
    } else if has_prefix(c, "pull"@) {
        CommandKind::Pull
    } else if c == "disable-verity"@ {
        CommandKind::DisableVerity
    } else if c == "enable-verity"@ {
        CommandKind::EnableVerity
    } else if c == "keygen"@ {
        CommandKind::Keygen
    } else if c == "bugreport"@ {
        CommandKind::Bugreport
    } else if c == "logcat"@ {
        CommandKind::Logcat
    } else if has_prefix(c, "install"@) {
        CommandKind::Install
    } else if has_prefix(c, "uninstall"@) {
        CommandKind::Uninstall
    } else if has_prefix(c, "reboot"@) {
        CommandKind::Reboot
    } else if has_prefix(c, "get-devpath"@) {
        CommandKind::GetDevpath
    } else if c == "get-serialno"@ {
        CommandKind::GetSerialno
    } else if c == "remount"@ {
        CommandKind::Remount
    } else if c == "root"@ {
        CommandKind::Root
    } else if c == "unroot"@ {
        CommandKind::Unroot
    } else if c == "usb"@ {
        CommandKind::Usb
    } else if c == "tcpip"@ {
        CommandKind::Tcpip
    } else if has_prefix(c, "wait-for"@) {
        CommandKind::WaitFor
    } else if c == "get-state"@ {
        CommandKind::GetState
    } else {
        CommandKind::Unknown
    }
}

fn is(c: &str, name: &str) -> (r: bool)
    ensures
        r == (c@ == name@),
{
    String::from_str(c) == String::from_str(name)
}

/// Which subcommand a name selects.
pub fn command_kind(c: &str) -> (r: CommandKind)
    ensures
        r == command_kind_of(c@),
{
    if starts_with(c, "devices") {
        CommandKind::Devices
    } else if starts_with(c, "connect") {
        CommandKind::Connect
    } else if starts_with(c, "shell") {
        CommandKind::Shell
    } else if starts_with(c, "forward") {
        CommandKind::Forward
    } else if is(c, "reverse") {
        CommandKind::Reverse
    } else if starts_with(c, "push") {
        CommandKind::Push
    } else if starts_with(c, "pull") {
        CommandKind::Pull
    } else if is(c, "disable-verity") {
        CommandKind::DisableVerity
    } else if is(c, "enable-verity") {
        CommandKind::EnableVerity
    } else if is(c, "keygen") {
        CommandKind::Keygen
    } else if is(c, "bugreport") {
        CommandKind::Bugreport
    } else if is(c, "logcat") {
        CommandKind::Logcat
    } else if starts_with(c, "install") {
        CommandKind::Install
    } else if starts_with(c, "uninstall") {
        CommandKind::Uninstall
    } else if starts_with(c, "reboot") {
        CommandKind::Reboot
    } else if starts_with(c, "get-devpath") {
        CommandKind::GetDevpath
    } else if is(c, "get-serialno") {
        CommandKind::GetSerialno
    } else if is(c, "remount") {
        CommandKind::Remount
    } else if is(c, "root") {
        CommandKind::Root
    } else if is(c, "unroot") {
        CommandKind::Unroot
    } else if is(c, "usb") {
        CommandKind::Usb
    } else if is(c, "tcpip") {
        CommandKind::Tcpip
    } else if starts_with(c, "wait-for") {
        CommandKind::WaitFor
    } else if is(c, "get-state") {
        CommandKind::GetState
    } else {
        CommandKind::Unknown
    }
}

/// What `forward` or `reverse` is asked to do.
#[derive(Debug, PartialEq, Eq)]
pub enum PortRequest {
    List,
    RemoveAll,
    /// The endpoint whose forwarding goes.
    Remove(String),
    /// From, to, and whether an existing binding is kept (`--no-rebind`).
    Bind(String, String, bool),
}

/// Which option a `--` argument is: `--no-rebind` 0, `--remove` 1,
/// `--remove-all` 2, `--list` 3.
pub open spec fn option_code(s: Seq<char>) -> Option<int> {
    if s == "--no-rebind"@ {
        Some(0)
    } else if s == "--remove"@ {
        Some(1)
    } else if s == "--remove-all"@ {
        Some(2)
    } else if s == "--list"@ {
        Some(3)
    } else {
        None
    }
}

/// Scans the leading `--` options from `i`. At most one kind of option may be
/// given; an unknown one is an error (`None`). With `list_stops`, `--list`
/// ends the scan. Gives where the operands start and the option chosen.
pub open spec fn scan_port_options(args: Seq<Seq<char>>, i: int, chosen: Option<int>, list_stops: bool) -> Option<(int, Option<int>)>
    decreases args.len() - i,
{
    if i < 0 || i >= args.len() || !has_prefix(args[i], "--"@) {
        Some((i, chosen))
    } else {
        match option_code(args[i]) {
            None => None,
            Some(k) => if chosen is Some && chosen != Some(k) {
                None
            } else if list_stops && k == 3 {
                Some((i + 1, Some(k)))
            } else {
                scan_port_options(args, i + 1, Some(k), list_stops)
            },
        }
    }
}

pub open spec fn port_request_view(r: PortRequest) -> (int, Seq<Seq<char>>, bool) {
    match r {
        PortRequest::List => (3, Seq::empty(), false),
        PortRequest::RemoveAll => (2, Seq::empty(), false),
        PortRequest::Remove(a) => (1, seq![a@], false),
        PortRequest::Bind(a, b, n) => (0, seq![a@, b@], n),
    }
}

/// The request that scanned options and operands make, if they make one.
/// For `reverse` (`list_stops`), `--list` ignores what follows.
pub open spec fn port_request_of(args: Seq<Seq<char>>, list_stops: bool) -> Option<(int, Seq<Seq<char>>, bool)> {
    match scan_port_options(args, 0, None, list_stops) {
        None => None,
        Some((j, c)) => {
            let rest = args.subrange(j, args.len() as int);
            if c == Some(3int) {
                if list_stops || rest.len() == 0 { Some((3, Seq::empty(), false)) } else { None }
            } else if c == Some(2int) {
                if rest.len() == 0 { Some((2, Seq::empty(), false)) } else { None }
            } else if c == Some(1int) {
                if rest.len() == 1 { Some((1, rest, false)) } else { None }
            } else if rest.len() == 2 {
                Some((0, rest, c == Some(0int)))
            } else {
                None
            }
        },
    }
}

pub open spec fn views_of(args: Seq<String>) -> Seq<Seq<char>> {
    args.map_values(|a: String| a@)
}

/// Reads the arguments of `forward` (`list_stops` false) or `reverse`
/// (`list_stops` true).
pub fn parse_port_request(args: &Vec<String>, list_stops: bool) -> (r: Result<PortRequest, AdbError>)
    ensures
        match r {
            Ok(p) => port_request_of(views_of(args@), list_stops) == Some(port_request_view(p)),
            Err(e) => port_request_of(views_of(args@), list_stops) is None && e is Argument,
        },
{
    let ghost v = views_of(args@);
    let mut chosen: Option<u8> = None;
    let mut i: usize = 0;
    let mut stopped = false;
    proof {
        reveal_strlit("--no-rebind");
        reveal_strlit("--remove");
        reveal_strlit("--remove-all");
        reveal_strlit("--list");
        reveal_strlit("--");
    }
    while i < args.len() && !stopped && starts_with(args[i].as_str(), "--")
        invariant
            i <= args@.len(),
            v == views_of(args@),
            chosen matches Some(k) ==> k <= 3,
            stopped ==> chosen == Some(3u8) && list_stops,
            scan_port_options(v, 0, None, list_stops) == if stopped {
                Some((i as int, Some(3int)))
            } else {
                scan_port_options(v, i as int, match chosen { Some(k) => Some(k as int), None => None }, list_stops)
            },
        decreases args@.len() - i,
    {
        assert(v[i as int] == args@[i as int]@);
        let a = args[i].as_str();
        let k: u8 = if is(a, "--no-rebind") {
            0
        } else if is(a, "--remove") {
            1
        } else if is(a, "--remove-all") {
            2
        } else if is(a, "--list") {
            3
        } else {
            return Err(AdbError::Argument(String::from_str("Unknown option: ").concat(a)));
        };
        match chosen {
            Some(c) => {
                if c != k {
                    return Err(AdbError::Argument(String::from_str("Error: these options cannot be used together")));
                }
            },
            None => {},
        }
        chosen = Some(k);
        if list_stops && k == 3 {
            stopped = true;
        }
        i = i + 1;
    }
    let n = args.len();
    let ghost rest = v.subrange(i as int, n as int);
    assert(scan_port_options(v, 0, None, list_stops) == Some((i as int, match chosen { Some(k) => Some(k as int), None => None::<int> })));
    match chosen {
        Some(3) => {
            if list_stops || i == n {
                return Ok(PortRequest::List);
            }
            Err(AdbError::Argument(String::from_str("Invalid list command: it takes no arguments")))
        },
        Some(2) => {
            if i == n {
                return Ok(PortRequest::RemoveAll);
            }
            Err(AdbError::Argument(String::from_str("Invalid remove-all command: it takes no arguments")))
        },
        Some(1) => {
            if n - i == 1 {
                assert(rest =~= seq![args@[i as int]@]);
                return Ok(PortRequest::Remove(args[i].clone()));
            }
            Err(AdbError::Argument(String::from_str("Invalid remove command: it takes one argument")))
        },
        _ => {
            if n - i == 2 {
                assert(rest =~= seq![args@[i as int]@, args@[i + 1]@]);
                return Ok(PortRequest::Bind(args[i].clone(), args[i + 1].clone(), chosen == Some(0u8)));
            }
            Err(AdbError::Argument(String::from_str("Invalid command: it takes two endpoints")))
        },
    }
}

/// The operands of `push` or `pull`: the sources, the target, and whether
/// the leading flag (`--sync`, `-a`) was given.
#[derive(Debug)]
pub struct TransferArgs {
    pub sources: Vec<String>,
    pub target: String,
    pub flag: bool,
}

/// Reads `[flag] SOURCE... TARGET`: at least one source and the target.
pub fn parse_transfer_args(args: &Vec<String>, flag: &str) -> (r: Result<TransferArgs, AdbError>)
    ensures
        ({
            let has = args@.len() > 0 && args@[0]@ == flag@;
            let rest = if has { args@.drop_first() } else { args@ };
            match r {
                Ok(t) => rest.len() >= 2 && t.flag == has && views_of(t.sources@) == views_of(rest.drop_last())
                    && t.target@ == rest.last()@,
                Err(e) => rest.len() < 2 && e is Argument,
            }
        }),
{
    let has = args.len() > 0 && args[0] == String::from_str(flag);
    let start: usize = if has { 1 } else { 0 };
    let ghost rest = if has { args@.drop_first() } else { args@ };
    assert(rest =~= args@.subrange(start as int, args@.len() as int));
    if args.len() - start < 2 {
        return Err(AdbError::Argument(String::from_str("Error: the command requires at least two arguments")));
    }
    let last = args.len() - 1;
    let mut sources: Vec<String> = Vec::new();
    let mut i: usize = start;
    while i < last
        invariant
            start <= i <= last,
            last == args@.len() - 1,
            rest =~= args@.subrange(start as int, args@.len() as int),
            views_of(sources@) =~= views_of(args@.subrange(start as int, i as int)),
        decreases last - i,
    {
        let ghost before = sources@;
        sources.push(args[i].clone());
        assert(views_of(sources@) =~= views_of(before).push(args@[i as int]@));
        assert(views_of(args@.subrange(start as int, i + 1)) =~= views_of(args@.subrange(start as int, i as int)).push(args@[i as int]@));
        i = i + 1;
    }
    assert(rest.drop_last() =~= args@.subrange(start as int, last as int));
    Ok(TransferArgs { sources, target: args[last].clone(), flag: has })
}

/// Whether `s` is one of the flags of `install`.
pub open spec fn is_install_flag(s: Seq<char>) -> bool {
    s == "-r"@ || s == "-d"@ || s == "-g"@ || s == "-t"@ || s == "-l"@ || s == "-s"@ || s == "-f"@
}

pub open spec fn install_flags_of(v: Seq<Seq<char>>) -> Seq<Seq<char>> {
    v.filter(|s: Seq<char>| is_install_flag(s))
}

pub open spec fn install_operands_of(v: Seq<Seq<char>>) -> Seq<Seq<char>> {
    v.filter(|s: Seq<char>| !is_install_flag(s))
}

/// Reads the arguments of `install`: its flags, in order, and exactly one
/// APK path among them.
pub fn parse_install_args(args: &Vec<String>) -> (r: Result<(Vec<String>, String), AdbError>)
    ensures
        match r {
            Ok((flags, apk)) => views_of(flags@) == install_flags_of(views_of(args@))
                && install_operands_of(views_of(args@)) == seq![apk@],
            Err(e) => e is Argument && install_operands_of(views_of(args@)).len() != 1,
        },
{
    let ghost v = views_of(args@);
    let mut flags: Vec<String> = Vec::new();
    let mut apks: Vec<String> = Vec::new();
    let mut i: usize = 0;
    while i < args.len()
        invariant
            i <= args@.len(),
            v == views_of(args@),
            views_of(flags@) == install_flags_of(v.take(i as int)),
            views_of(apks@) == install_operands_of(v.take(i as int)),
        decreases args@.len() - i,
    {
        let a = args[i].as_str();
        assert(v.take(i + 1).drop_last() =~= v.take(i as int));
        assert(v.take(i + 1).last() == a@);
        proof {
            reveal(Seq::filter);
            reveal_strlit("-r");
            reveal_strlit("-d");
            reveal_strlit("-g");
            reveal_strlit("-t");
            reveal_strlit("-l");
            reveal_strlit("-s");
            reveal_strlit("-f");
        }
        let f = is(a, "-r") || is(a, "-d") || is(a, "-g") || is(a, "-t") || is(a, "-l") || is(a, "-s")
            || is(a, "-f");
        let ghost fb = flags@;
        let ghost ab = apks@;
        assert(f == is_install_flag(a@));
        if f {
            flags.push(args[i].clone());
            assert(views_of(flags@) =~= views_of(fb).push(a@));
        } else {
            apks.push(args[i].clone());
            assert(views_of(apks@) =~= views_of(ab).push(a@));
        }
        i = i + 1;
    }
    assert(v.take(args@.len() as int) =~= v);
    if apks.len() == 0 {
        return Err(AdbError::Argument(String::from_str("Error: No APK file specified")));
    }
    if apks.len() > 1 {
        return Err(AdbError::Argument(String::from_str("Error: Multiple APK files specified")));
    }
    assert(views_of(apks@) =~= seq![apks@[0]@]);
    let apk = apks[0].clone();
    Ok((flags, apk))
}

/// The words joined by single spaces.
pub open spec fn joined(words: Seq<Seq<char>>) -> Seq<char>
    decreases words.len(),
{
    if words.len() == 0 {
        Seq::empty()
    } else if words.len() == 1 {
        words[0]
    } else {
        joined(words.drop_last()) + " "@ + words.last()
    }
}

/// Joins the words of `args` from index `from` by single spaces.
pub fn join_words(args: &Vec<String>, from: usize) -> (r: String)
    ensures
        r@ == joined(views_of(args@).subrange(if from <= args@.len() { from as int } else { args@.len() as int }, args@.len() as int)),
{
    let ghost v = views_of(args@);
    let n = args.len();
    let start = if from <= n { from } else { n };
    let mut out = String::new();
    let mut i: usize = start;
    assert(v.subrange(start as int, start as int) =~= Seq::<Seq<char>>::empty());
    while i < n
        invariant
            start <= i <= n,
            n == args@.len(),
            v == views_of(args@),
            out@ == joined(v.subrange(start as int, i as int)),
        decreases n - i,
    {
        let ghost w = v.subrange(start as int, i + 1);
        assert(w.drop_last() =~= v.subrange(start as int, i as int));
        assert(w.last() == args@[i as int]@);
        if i == start {
            assert(w.len() == 1);
            out = args[i].clone();
        } else {
            out = out.concat(" ").concat(args[i].as_str());
        }
        i = i + 1;
    }
    out
}

/// How many `-k` flags lead `args`.
pub open spec fn leading_keep_flags(v: Seq<Seq<char>>, i: int) -> int
    decreases v.len() - i,
{
    if 0 <= i < v.len() && v[i] == "-k"@ {
        leading_keep_flags(v, i + 1)
    } else {
        i
    }
}

/// Reads the arguments of `uninstall`: its leading `-k` flags, and the
/// package name, which is every later argument joined by spaces.
pub fn parse_uninstall_args(args: &Vec<String>) -> (r: (Vec<String>, String))
    ensures
        ({
            let k = leading_keep_flags(views_of(args@), 0);
            &&& 0 <= k <= args@.len()
            &&& views_of(r.0@) == views_of(args@).take(k)
            &&& r.1@ == joined(views_of(args@).subrange(k, args@.len() as int))
        }),
{
    let ghost v = views_of(args@);
    let mut flags: Vec<String> = Vec::new();
    let mut i: usize = 0;
    while i < args.len() && args[i] == String::from_str("-k")
        invariant
            i <= args@.len(),
            v == views_of(args@),
            leading_keep_flags(v, 0) == leading_keep_flags(v, i as int),
            views_of(flags@) =~= v.take(i as int),
        decreases args@.len() - i,
    {
        let ghost before = flags@;
        assert(v[i as int] == args@[i as int]@);
        flags.push(args[i].clone());
        assert(views_of(flags@) =~= views_of(before).push(args@[i as int]@));
        assert(v.take(i + 1) =~= v.take(i as int).push(v[i as int]));
        i = i + 1;
    }
    if i < args.len() {
        assert(v[i as int] == args@[i as int]@);
    }
    let package = join_words(args, i);
    (flags, package)
}

} // verus!

//! The global options of the command line: server address and port, and the
//! transport flags.
use vstd::prelude::*;
use crate::error::AdbError;
use crate::transport::{
    transport_any_command, transport_local_command, transport_serial_command, transport_usb_command,
    DeviceTransport,
};
use crate::wire::{decimal_value, parse_u16};

verus! {

/// The state of the scan of the global options.
pub struct Scan {
    pub transport: Seq<char>,
    pub address: Option<Seq<char>>,
    pub port: Option<nat>,
    pub rest: Seq<Seq<char>>,
}

pub open spec fn initial_scan() -> Scan {
    Scan { transport: transport_any_command(), address: None, port: None, rest: Seq::empty() }
}

/// Scans `args` from index `i`, left to right: `-H <addr>`, `-P <port>` and
/// `-s <serial>` take the next argument, `-d` and `-e` stand alone, and every
/// other argument is kept, in order. A missing value or a bad port is an
/// error (`None`).
pub open spec fn scan_from(args: Seq<Seq<char>>, i: int, acc: Scan) -> Option<Scan>
    decreases args.len() - i,
{
    if i < 0 || i >= args.len() {
        Some(acc)
    } else {
        let a = args[i];
        if a == "-H"@ {
            if i + 1 >= args.len() {
                None
            } else {
                scan_from(args, i + 2, Scan { transport: acc.transport, address: Some(args[i + 1]), port: acc.port, rest: acc.rest })
            }
        } else if a == "-P"@ {
            if i + 1 >= args.len() {
                None
            } else {
                match decimal_value(args[i + 1]) {
                    Some(v) => if v <= 65535 {
                        scan_from(args, i + 2, Scan { transport: acc.transport, address: acc.address, port: Some(v), rest: acc.rest })
                    } else {
                        None
                    },
                    None => None,
                }
            }
        } else if a == "-s"@ {
            if i + 1 >= args.len() {
                None
            } else {
                scan_from(args, i + 2, Scan { transport: transport_serial_command(args[i + 1]), address: acc.address, port: acc.port, rest: acc.rest })
            }
        } else if a == "-d"@ {
            scan_from(args, i + 1, Scan { transport: transport_usb_command(), address: acc.address, port: acc.port, rest: acc.rest })
        } else if a == "-e"@ {
            scan_from(args, i + 1, Scan { transport: transport_local_command(), address: acc.address, port: acc.port, rest: acc.rest })
        } else {
            scan_from(args, i + 1, Scan { transport: acc.transport, address: acc.address, port: acc.port, rest: acc.rest.push(a) })
        }
    }
}

pub open spec fn arg_views(args: Seq<String>) -> Seq<Seq<char>> {
    args.map_values(|a: String| a@)
}

pub open spec fn opt_view(o: Option<String>) -> Option<Seq<char>> {
    match o {
        Some(s) => Some(s@),
        None => None,
    }
}

pub open spec fn opt_port(o: Option<u16>) -> Option<nat> {
    match o {
        Some(p) => Some(p as nat),
        None => None,
    }
}

/// What the global options select, and the arguments that remain.
#[derive(Debug)]
pub struct GlobalOptions {
    pub transport: DeviceTransport,
    pub server_address: Option<String>,
    pub server_port: Option<u16>,
    pub args: Vec<String>,
}

impl GlobalOptions {
    pub open spec fn scan_view(&self) -> Scan {
        Scan {
            transport: self.transport.command(),
            address: opt_view(self.server_address),
            port: opt_port(self.server_port),
            rest: arg_views(self.args@),
        }
    }
}

fn is_flag(a: &String, f: &str) -> (r: bool)
    ensures
        r == (a@ == f@),
{
    *a == String::from_str(f)
}

/// Takes the global options out of the arguments (the program name
/// excluded). Of `-s`, `-d` and `-e`, the last one given selects the
/// transport; without any, any device does.
pub fn parse_global_options(args: &Vec<String>) -> (r: Result<GlobalOptions, AdbError>)
    ensures
        match r {
            Ok(g) => scan_from(arg_views(args@), 0, initial_scan()) == Some(g.scan_view()),
            Err(e) => scan_from(arg_views(args@), 0, initial_scan()) is None && e is Argument,
        },
{
    let ghost views = arg_views(args@);
    let mut transport = DeviceTransport::default();
    let mut address: Option<String> = None;
    let mut port: Option<u16> = None;
    let mut rest: Vec<String> = Vec::new();
    let mut i: usize = 0;
    proof {
        assert(arg_views(rest@) =~= Seq::<Seq<char>>::empty());
    }
    while i < args.len()
        invariant
            i <= args@.len(),
            views == arg_views(args@),
            scan_from(views, 0, initial_scan()) == scan_from(
                views,
                i as int,
                Scan { transport: transport.command(), address: opt_view(address), port: opt_port(port), rest: arg_views(rest@) },
            ),
        decreases args@.len() - i,
    {
        let a = &args[i];
        assert(views[i as int] == a@);
        if is_flag(a, "-H") {
            if i + 1 >= args.len() {
                return Err(AdbError::Argument(String::from_str("Invalid command: missing IP address after -H")));
            }
            assert(views[i + 1] == args@[i + 1]@);
            address = Some(args[i + 1].clone());
            i = i + 2;
        } else if is_flag(a, "-P") {
            if i + 1 >= args.len() {
                return Err(AdbError::Argument(String::from_str("Invalid command: missing port after -P")));
            }
            assert(views[i + 1] == args@[i + 1]@);
            match parse_u16(args[i + 1].as_str()) {
                Some(p) => {
                    port = Some(p);
                },
                None => {
                    return Err(AdbError::Argument(String::from_str("Invalid port number: ").concat(args[i + 1].as_str())));
                },
            }
            i = i + 2;
        } else if is_flag(a, "-s") {
            if i + 1 >= args.len() {
                return Err(AdbError::Argument(String::from_str("Invalid command: missing serial number after -s")));
            }
            assert(views[i + 1] == args@[i + 1]@);
            transport = DeviceTransport::usb(args[i + 1].clone());
            i = i + 2;
        } else if is_flag(a, "-d") {
            transport = DeviceTransport::default_usb();
            i = i + 1;
        } else if is_flag(a, "-e") {
            transport = DeviceTransport::default_emulator();
            i = i + 1;
        } else {
            let ghost before = rest@;
            rest.push(a.clone());
            assert(arg_views(rest@) =~= arg_views(before).push(a@));
            i = i + 1;
        }
    }
    let g = GlobalOptions { transport, server_address: address, server_port: port, args: rest };
    Ok(g)
}

proof fn lemma_scan_concat(args: Seq<Seq<char>>, tail: Seq<Seq<char>>, i: int, acc: Scan)
    requires
        0 <= i <= args.len(),
        scan_from(args, i, acc) is Some,
    ensures
        scan_from(args + tail, i, acc) == scan_from(args + tail, args.len() as int, scan_from(args, i, acc)->0),
    decreases args.len() - i,
{
    let all = args + tail;
    if i < args.len() {
        assert(all[i] == args[i]);
        if i + 1 < args.len() {
            assert(all[i + 1] == args[i + 1]);
        }
        let a = args[i];
        if a == "-H"@ || a == "-P"@ || a == "-s"@ {
            let next = if a == "-H"@ {
                Scan { transport: acc.transport, address: Some(args[i + 1]), port: acc.port, rest: acc.rest }
            } else if a == "-P"@ {
                Scan { transport: acc.transport, address: acc.address, port: decimal_value(args[i + 1]), rest: acc.rest }
            } else {
                Scan { transport: transport_serial_command(args[i + 1]), address: acc.address, port: acc.port, rest: acc.rest }
            };
            lemma_scan_concat(args, tail, i + 2, next);
        } else if a == "-d"@ {
            lemma_scan_concat(args, tail, i + 1, Scan { transport: transport_usb_command(), address: acc.address, port: acc.port, rest: acc.rest });
        } else if a == "-e"@ {
            lemma_scan_concat(args, tail, i + 1, Scan { transport: transport_local_command(), address: acc.address, port: acc.port, rest: acc.rest });
        } else {
            lemma_scan_concat(args, tail, i + 1, Scan { transport: acc.transport, address: acc.address, port: acc.port, rest: acc.rest.push(a) });
        }
    }
}

/// Whether an argument is one of the transport flags `-s`, `-d`, `-e`.
pub open spec fn is_transport_flag(a: Seq<char>) -> bool {
    a == "-s"@ || a == "-d"@ || a == "-e"@
}

/// The transport that a transport flag (with its serial, for `-s`) selects.
pub open spec fn flag_transport(flag: Seq<Seq<char>>) -> Seq<char> {
    if flag[0] == "-d"@ {
        transport_usb_command()
    } else if flag[0] == "-e"@ {
        transport_local_command()
    } else {
        transport_serial_command(flag[1])
    }
}

proof fn lemma_scan_keeps_transport(args: Seq<Seq<char>>, i: int, acc: Scan)
    requires
        0 <= i,
        forall|j: int| i <= j < args.len() ==> !is_transport_flag(#[trigger] args[j]),
        scan_from(args, i, acc) is Some,
    ensures
        scan_from(args, i, acc)->0.transport == acc.transport,
    decreases args.len() - i,
{
    if i < args.len() {
        let a = args[i];
        assert(!is_transport_flag(a));
        if a == "-H"@ {
            lemma_scan_keeps_transport(args, i + 2, Scan { transport: acc.transport, address: Some(args[i + 1]), port: acc.port, rest: acc.rest });
        } else if a == "-P"@ {
            lemma_scan_keeps_transport(args, i + 2, Scan { transport: acc.transport, address: acc.address, port: decimal_value(args[i + 1]), rest: acc.rest });
        } else {
            lemma_scan_keeps_transport(args, i + 1, Scan { transport: acc.transport, address: acc.address, port: acc.port, rest: acc.rest.push(a) });
        }
    }
}

/// The last transport flag decides: when valid options `pre` are followed
/// by `-d`, `-e` or `-s <serial>` and then by arguments that hold no
/// transport flag, the scan selects the transport of that last flag. With
/// no transport flag at all, any device is selected.
pub proof fn lemma_transport_of_last_flag(pre: Seq<Seq<char>>, flag: Seq<Seq<char>>, post: Seq<Seq<char>>)
    requires
        scan_from(pre, 0, initial_scan()) is Some,
        flag == seq!["-d"@] || flag == seq!["-e"@] || (flag.len() == 2 && flag[0] == "-s"@),
        forall|j: int| 0 <= j < post.len() ==> !is_transport_flag(#[trigger] post[j]),
        scan_from(pre + flag + post, 0, initial_scan()) is Some,
    ensures
        scan_from(pre + flag + post, 0, initial_scan())->0.transport == flag_transport(flag),
        (forall|j: int| 0 <= j < pre.len() ==> !is_transport_flag(#[trigger] pre[j]))
            ==> scan_from(pre, 0, initial_scan())->0.transport == transport_any_command(),
{
    reveal_strlit("-H");
    reveal_strlit("-P");
    reveal_strlit("-s");
    reveal_strlit("-d");
    reveal_strlit("-e");
    assert("-d"@[1] == 'd' && "-e"@[1] == 'e' && "-s"@[1] == 's' && "-H"@[1] == 'H' && "-P"@[1] == 'P');
    assert("-d"@ != "-H"@ && "-d"@ != "-P"@ && "-d"@ != "-s"@);
    assert("-e"@ != "-H"@ && "-e"@ != "-P"@ && "-e"@ != "-s"@ && "-e"@ != "-d"@);
    assert("-s"@ != "-H"@ && "-s"@ != "-P"@);
    let all = pre + flag + post;
    assert(all =~= pre + (flag + post));
    lemma_scan_concat(pre, flag + post, 0, initial_scan());
    let s = scan_from(pre, 0, initial_scan())->0;
    let n = pre.len() as int;
    let m = flag.len() as int;
    assert(all[n] == flag[0]);
    if m == 2 {
        assert(all[n + 1] == flag[1]);
    }
    let t = Scan { transport: flag_transport(flag), address: s.address, port: s.port, rest: s.rest };
    assert(scan_from(all, n, s) == scan_from(all, n + m, t));
    assert forall|j: int| n + m <= j < all.len() implies !is_transport_flag(#[trigger] all[j]) by {
        assert(all[j] == post[j - n - m]);
    }
    lemma_scan_keeps_transport(all, n + m, t);
    if forall|j: int| 0 <= j < pre.len() ==> !is_transport_flag(#[trigger] pre[j]) {
        lemma_scan_keeps_transport(pre, 0, initial_scan());
    }
}

} // verus!

//! The text of each host and device request of the command facade.
use vstd::prelude::*;
use crate::error::AdbError;
use crate::wire::{decimal_chars, decimal_text};

verus! {

pub const DEVICES_COMMAND: &'static str = "host:devices";
pub const GET_STATE_COMMAND: &'static str = "host:get-state";
pub const GET_SERIALNO_COMMAND: &'static str = "host:get-serialno";
pub const GET_DEVPATH_COMMAND: &'static str = "host:get-devpath";
pub const FORWARD_LIST_COMMAND: &'static str = "host:list-forward";
pub const FORWARD_REMOVE_ALL_COMMAND: &'static str = "host:killforward-all";
pub const REVERSE_LIST_COMMAND: &'static str = "reverse:list-forward";
pub const REVERSE_REMOVE_ALL_COMMAND: &'static str = "reverse:killforward-all";
pub const REMOUNT_COMMAND: &'static str = "remount:";
pub const ROOT_COMMAND: &'static str = "root:";
pub const UNROOT_COMMAND: &'static str = "unroot:";
pub const USB_COMMAND: &'static str = "usb:";
pub const ENABLE_VERITY_COMMAND: &'static str = "enable-verity:";
pub const DISABLE_VERITY_COMMAND: &'static str = "disable-verity:";
pub const BUGREPORT_COMMAND: &'static str = "shell:bugreportz -p";

/// The `devices` listing as shown to the user.
pub fn devices_listing(list: &str) -> (r: String)
    ensures
        r@ == "List of devices attached\n"@ + list@,
{
    String::from_str("List of devices attached\n").concat(list)
}

/// `host:forward:[norebind:]<local>;<remote>`.
pub fn forward_set_command(local: &str, remote: &str, no_rebind: bool) -> (r: String)
    ensures
        r@ == "host:forward:"@ + (if no_rebind { "norebind:"@ } else { Seq::empty() }) + local@ + ";"@ + remote@,
{
    let head = if no_rebind {
        String::from_str("host:forward:norebind:")
    } else {
        String::from_str("host:forward:")
    };
    proof {
        reveal_strlit("host:forward:norebind:");
        reveal_strlit("host:forward:");
        reveal_strlit("norebind:");
        assert("host:forward:norebind:"@ =~= "host:forward:"@ + "norebind:"@);
        assert("host:forward:"@ =~= "host:forward:"@ + Seq::<char>::empty());
    }
    head.concat(local).concat(";").concat(remote)
}

/// `host:killforward:<local>`.
pub fn forward_remove_command(local: &str) -> (r: String)
    ensures
        r@ == "host:killforward:"@ + local@,
{
    String::from_str("host:killforward:").concat(local)
}

/// `reverse:forward:[norebind:]<remote>;<local>`.
pub fn reverse_set_command(remote: &str, local: &str, no_rebind: bool) -> (r: String)
    ensures
        r@ == "reverse:forward:"@ + (if no_rebind { "norebind:"@ } else { Seq::empty() }) + remote@ + ";"@ + local@,
{
    let head = if no_rebind {
        String::from_str("reverse:forward:norebind:")
    } else {
        String::from_str("reverse:forward:")
    };
    proof {
        reveal_strlit("reverse:forward:norebind:");
        reveal_strlit("reverse:forward:");
        reveal_strlit("norebind:");
        assert("reverse:forward:norebind:"@ =~= "reverse:forward:"@ + "norebind:"@);
        assert("reverse:forward:"@ =~= "reverse:forward:"@ + Seq::<char>::empty());
    }
    head.concat(remote).concat(";").concat(local)
}

/// `reverse:killforward:<remote>`.
pub fn reverse_remove_command(remote: &str) -> (r: String)
    ensures
        r@ == "reverse:killforward:"@ + remote@,
{
    String::from_str("reverse:killforward:").concat(remote)
}

/// `shell:<command>`; an empty command opens an interactive shell.
pub fn shell_command(command: &str) -> (r: String)
    ensures
        r@ == "shell:"@ + command@,
{
    String::from_str("shell:").concat(command)
}

/// The shell command that runs `logcat` with the given arguments.
pub fn logcat_shell_command(args: &str) -> (r: String)
    ensures
        r@ == "export ANDROID_LOG_TAGS=\"\"; exec logcat "@ + args@,
{
    String::from_str("export ANDROID_LOG_TAGS=\"\"; exec logcat ").concat(args)
}

/// `tcpip:<port>`.
pub fn tcpip_command(port: u16) -> (r: String)
    ensures
        r@ == "tcpip:"@ + decimal_chars(port as nat),
{
    String::from_str("tcpip:").concat(decimal_text(port as u64).as_str())
}

/// The reboot targets that the device accepts.
pub open spec fn is_reboot_target(t: Seq<char>) -> bool {
    t == "bootloader"@ || t == "recovery"@ || t == "sideload"@ || t == "sideload-auto-reboot"@
}

/// `reboot:` or `reboot:<target>`; an unknown target is refused.
pub fn reboot_command(target: Option<&str>) -> (r: Result<String, AdbError>)
    ensures
        match target {
            None => r matches Ok(c) && c@ == "reboot:"@,
            Some(t) => if is_reboot_target(t@) {
                r matches Ok(c) && c@ == "reboot:"@ + t@
            } else {
                r matches Err(AdbError::Argument(m)) && m@ == "Invalid reboot target: "@ + t@
            },
        },
{
    match target {
        None => Ok(String::from_str("reboot:")),
        Some(t) => {
            let s = String::from_str(t);
            if s == String::from_str("bootloader") || s == String::from_str("recovery") || s
                == String::from_str("sideload") || s == String::from_str("sideload-auto-reboot") {
                Ok(String::from_str("reboot:").concat(t))
            } else {
                Err(AdbError::Argument(String::from_str("Invalid reboot target: ").concat(t)))
            }
        },
    }
}

} // verus!

//! Package installation and removal.
use vstd::prelude::*;
use crate::error::AdbError;
use crate::paths::{file_name, file_name_of};

verus! {

/// Where an APK is staged on the device before installation.
pub const DEVICE_TEMP_DIRECTORY: &'static str = "/data/local/tmp/";

/// Whether `flags` holds `f`.
pub open spec fn has_flag(flags: Seq<String>, f: Seq<char>) -> bool {
    exists|i: int| 0 <= i < flags.len() && (#[trigger] flags[i])@ == f
}

/// Each flag, preceded by a space, in order.
pub open spec fn flag_words(flags: Seq<String>) -> Seq<char>
    decreases flags.len(),
{
    if flags.len() == 0 {
        Seq::empty()
    } else {
        flag_words(flags.drop_last()) + " "@ + flags.last()@
    }
}

/// Whether `flags` holds `f`.
pub fn contains_flag(flags: &Vec<String>, f: &str) -> (r: bool)
    ensures
        r == has_flag(flags@, f@),
{
    let target = String::from_str(f);
    let mut i: usize = 0;
    while i < flags.len()
        invariant
            i <= flags@.len(),
            target@ == f@,
            forall|j: int| 0 <= j < i ==> (#[trigger] flags@[j])@ != f@,
        decreases flags@.len() - i,
    {
        if flags[i] == target {
            return true;
        }
        i = i + 1;
    }
    false
}

fn append_flags(base: String, flags: &Vec<String>) -> (r: String)
    ensures
        r@ == base@ + flag_words(flags@),
{
    let mut out = base;
    let mut i: usize = 0;
    while i < flags.len()
        invariant
            i <= flags@.len(),
            out@ == base@ + flag_words(flags@.take(i as int)),
        decreases flags@.len() - i,
    {
        assert(flags@.take(i + 1).drop_last() =~= flags@.take(i as int));
        out = out.concat(" ").concat(flags[i].as_str());
        i = i + 1;
    }
    assert(flags@.take(flags@.len() as int) =~= flags@);
    out
}

/// The steps of an installation, fixed before anything is sent.
#[derive(Debug)]
pub struct InstallPlan {
    /// Where the APK is pushed.
    pub remote_path: String,
    /// The shell command that installs it.
    pub pm_command: String,
    /// `-d` and `-r` together, which some Android versions do not accept.
    pub warn_downgrade_replace: bool,
}

pub open spec fn conflicting_install_flags(flags: Seq<String>) -> bool {
    has_flag(flags, "-s"@) && has_flag(flags, "-f"@)
}

/// Checks the install flags and fixes the remote path and the `pm install`
/// command. `-s` with `-f` is refused.
pub fn plan_install(local_apk_path: &str, flags: &Vec<String>) -> (r: Result<InstallPlan, AdbError>)
    ensures
        conflicting_install_flags(flags@) ==> (r matches Err(AdbError::Argument(m))
            && m@ == "-s and -f flags are mutually exclusive"@),
        !conflicting_install_flags(flags@) && file_name_of(local_apk_path@) is None ==> r matches Err(AdbError::Argument(_)),
        !conflicting_install_flags(flags@) && file_name_of(local_apk_path@) is Some ==> (r matches Ok(p)
            && p.remote_path@ == DEVICE_TEMP_DIRECTORY@ + file_name_of(local_apk_path@)->0
            && p.pm_command@ == "pm install"@ + flag_words(flags@) + " "@ + p.remote_path@
            && p.warn_downgrade_replace == (has_flag(flags@, "-d"@) && has_flag(flags@, "-r"@))),
{
    if contains_flag(flags, "-s") && contains_flag(flags, "-f") {
        return Err(AdbError::Argument(String::from_str("-s and -f flags are mutually exclusive")));
    }
    let warn = contains_flag(flags, "-d") && contains_flag(flags, "-r");
    let name = match file_name(local_apk_path) {
        Some(n) => n,
        None => {
            return Err(AdbError::Argument(String::from_str("Invalid APK path")));
        },
    };
    let remote_path = String::from_str(DEVICE_TEMP_DIRECTORY).concat(name.as_str());
    let pm_command = append_flags(String::from_str("pm install"), flags).concat(" ").concat(
        remote_path.as_str(),
    );
    Ok(InstallPlan { remote_path, pm_command, warn_downgrade_replace: warn })
}

/// The `pm uninstall` command for a package; an empty name is refused.
pub fn uninstall_command(package_name: &str, flags: &Vec<String>) -> (r: Result<String, AdbError>)
    ensures
        package_name@.len() == 0 ==> (r matches Err(AdbError::Argument(m)) && m@ == "Package name is required"@),
        package_name@.len() > 0 ==> (r matches Ok(c) && c@ == "pm uninstall"@ + flag_words(flags@) + " "@
            + package_name@),
{
    if package_name.is_empty() {
        return Err(AdbError::Argument(String::from_str("Package name is required")));
    }
    Ok(append_flags(String::from_str("pm uninstall"), flags).concat(" ").concat(package_name))
}

} // verus!

//! The decisions around the system commands that manage the companion
//! process: start-up registration in the registry and the Windows service.
//! Running the commands is the caller's; these functions judge their output.

use vstd::prelude::*;
use vstd::string::*;

use crate::text::{contains, contains_chars, decode_lossy, str_chars, string_from_chars, utf8_lossy};

verus! {

/// The error text of a failed command: a prefix, then its error output read
/// as lossy UTF-8.
pub open spec fn failure_message(prefix: Seq<char>, stderr: Seq<u8>) -> Seq<char> {
    prefix + utf8_lossy(stderr)
}

fn failure(prefix: &str, stderr: &[u8]) -> (e: String)
    ensures
        e@ == failure_message(prefix@, stderr@),
{
    let chars = decode_lossy(stderr);
    let tail = string_from_chars(chars.as_slice());
    let mut e = String::from_str(prefix);
    e.append(tail.as_str());
    e
}

/// Whether the error output of a command mentions `needle`.
fn output_mentions(output: &[u8], needle: &str) -> (r: bool)
    ensures
        r == contains_chars(utf8_lossy(output@), needle@),
{
    let chars = decode_lossy(output);
    let pattern = str_chars(needle);
    contains(chars.as_slice(), pattern.as_slice())
}

/// The value under which the app registers itself in the Run key.
pub open spec fn autostart_value(exe_path: Seq<char>) -> Seq<char> {
    "\""@ + exe_path + "\" --autostart"@
}

/// Whatever characters the executable's path holds (spaces among them), the
/// Run value is a double quote, the path, a double quote, then
/// ` --autostart`: Windows reads the quoted path as one program name.
pub proof fn lemma_autostart_value_quotes_path(exe_path: Seq<char>)
    ensures
        ({
            let v = autostart_value(exe_path);
            let n = exe_path.len() as int;
            &&& v.len() == n + 14
            &&& v[0] == '"'
            &&& v.subrange(1, n + 1) == exe_path
            &&& v[n + 1] == '"'
            &&& v.subrange(n + 2, n + 14) == " --autostart"@
        }),
{
    reveal_strlit("\"");
    reveal_strlit("\" --autostart");
    reveal_strlit(" --autostart");
    let v = autostart_value(exe_path);
    let n = exe_path.len() as int;
    assert(v.subrange(1, n + 1) =~= exe_path);
    assert(v.subrange(n + 2, n + 14) =~= " --autostart"@);
}

/// The name of the app's Run value.
pub open spec fn reg_app_name() -> Seq<char> {
    "cleanmeter"@
}

/// What `reg delete` says of a value that is not there.
pub open spec fn registry_not_found() -> Seq<char> {
    "The system was unable to find the specified registry key or value"@
}

/// What `sc delete` says of a service that is not installed.
pub open spec fn service_not_found() -> Seq<char> {
    "The specified service does not exist"@
}

/// The service binary shipped for the MSVC or the GNU toolchain.
pub open spec fn service_binary(msvc: bool) -> Seq<char> {
    if msvc {
        "HardwareMonitor-x86_64-pc-windows-msvc.exe"@
    } else {
        "HardwareMonitor-x86_64-pc-windows-gnu.exe"@
    }
}

/// What a command that only fails on an error returns: nothing on success,
/// else the prefix and the error output.
pub open spec fn command_result(success: bool, prefix: Seq<char>, stderr: Seq<u8>) -> Result<
    (),
    Seq<char>,
> {
    if success {
        Ok(())
    } else {
        Err(failure_message(prefix, stderr))
    }
}

/// What a removal returns: as `command_result`, but a failure whose output
/// says the thing was already absent counts as success.
pub open spec fn removal_result(
    success: bool,
    absent: Seq<char>,
    prefix: Seq<char>,
    stderr: Seq<u8>,
) -> Result<(), Seq<char>> {
    if success || contains_chars(utf8_lossy(stderr), absent) {
        Ok(())
    } else {
        Err(failure_message(prefix, stderr))
    }
}

/// A `Result` whose error is taken as text.
pub open spec fn result_view(r: Result<(), String>) -> Result<(), Seq<char>> {
    match r {
        Ok(()) => Ok(()),
        Err(e) => Err(e@),
    }
}

/// The companion process and the system settings that concern it.
pub struct ProcessManager;

impl ProcessManager {
    /// The Run value that starts the app at log-in: the quoted path of its
    /// executable, then `--autostart`.
    pub fn autostart_command(exe_path: &str) -> (value: String)
        ensures
            value@ == autostart_value(exe_path@),
    {
        let mut value = String::from_str("\"");
        value.append(exe_path);
        value.append("\" --autostart");
        value
    }

    /// Whether the output of the registry query lists the app's Run value.
    pub fn autostart_listed(query_stdout: &[u8]) -> (r: bool)
        ensures
            r == contains_chars(utf8_lossy(query_stdout@), reg_app_name()),
    {
        output_mentions(query_stdout, "cleanmeter")
    }

    /// The outcome of writing the Run value, from the command's exit status
    /// and error output.
    pub fn registry_write_result(success: bool, stderr: &[u8]) -> (r: Result<(), String>)
        ensures
            result_view(r) == command_result(success, "Registry write failed: "@, stderr@),
    {
        if success {
            Ok(())
        } else {
            Err(failure("Registry write failed: ", stderr))
        }
    }

    /// The outcome of deleting the Run value: a value that was not there
    /// counts as deleted.
    pub fn registry_delete_result(success: bool, stderr: &[u8]) -> (r: Result<(), String>)
        ensures
            result_view(r) == removal_result(
                success,
                registry_not_found(),
                "Registry delete failed: "@,
                stderr@,
            ),
    {
        if success || output_mentions(
            stderr,
            "The system was unable to find the specified registry key or value",
        ) {
            Ok(())
        } else {
            Err(failure("Registry delete failed: ", stderr))
        }
    }

    /// Installing the service needs administrator rights.
    pub fn install_service_permission(elevated: bool) -> (r: Result<(), String>)
        ensures
            result_view(r) == if elevated {
                Ok(())
            } else {
                Err("Administrator privileges are required to install Windows Service."@)
            },
    {
        if elevated {
            Ok(())
        } else {
            Err(String::from_str("Administrator privileges are required to install Windows Service."))
        }
    }

    /// Removing the service needs administrator rights.
    pub fn uninstall_service_permission(elevated: bool) -> (r: Result<(), String>)
        ensures
            result_view(r) == if elevated {
                Ok(())
            } else {
                Err("Administrator privileges are required to uninstall Windows Service."@)
            },
    {
        if elevated {
            Ok(())
        } else {
            Err(
                String::from_str(
                    "Administrator privileges are required to uninstall Windows Service.",
                ),
            )
        }
    }

    /// The file name of the service binary for the toolchain the app was
    /// built with.
    pub fn service_binary_name(msvc: bool) -> (name: String)
        ensures
            name@ == service_binary(msvc),
    {
        if msvc {
            String::from_str("HardwareMonitor-x86_64-pc-windows-msvc.exe")
        } else {
            String::from_str("HardwareMonitor-x86_64-pc-windows-gnu.exe")
        }
    }

    /// The outcome of creating the service.
    pub fn service_create_result(success: bool, stderr: &[u8]) -> (r: Result<(), String>)
        ensures
            result_view(r) == command_result(success, "Service creation failed: "@, stderr@),
    {
        if success {
            Ok(())
        } else {
            Err(failure("Service creation failed: ", stderr))
        }
    }

    /// The outcome of deleting the service: a service that did not exist
    /// counts as deleted.
    pub fn service_delete_result(success: bool, stderr: &[u8]) -> (r: Result<(), String>)
        ensures
            result_view(r) == removal_result(
                success,
                service_not_found(),
                "Service delete failed: "@,
                stderr@,
            ),
    {
        if success || output_mentions(stderr, "The specified service does not exist") {
            Ok(())
        } else {
            Err(failure("Service delete failed: ", stderr))
        }
    }
}

} // verus!

//! The per-user startup entry for the settings dialog.
use vstd::prelude::*;

use crate::text::{chars_of, string_from_chars};

verus! {

broadcast use vstd::string::group_string_axioms;

/// Why the startup entry could not be updated; system failures carry their
/// messages or codes.
#[derive(Debug, Clone, PartialEq, Eq)]
pub enum SystemError {
    CurrentExecutable(String),
    Registry { operation: String, code: u32 },
}

/// The per-user key under which Windows keeps the programs it starts at
/// sign-in.
pub const RUN_KEY: &'static str = "Software\\Microsoft\\Windows\\CurrentVersion\\Run";

/// The name of the application's value under the `Run` key.
pub const RUN_VALUE_NAME: &'static str = "EveryFile";

/// The Windows error that a key or value does not exist.
pub const ERROR_FILE_NOT_FOUND: u32 = 2;

/// What synchronizing the startup entry changes under `RUN_KEY`: the value
/// set to the quoted executable, or the value removed.
#[derive(Debug, Clone, PartialEq, Eq)]
pub enum StartupChange {
    SetRunValue { name: String, command: String },
    RemoveRunValue { name: String },
}

/// Synchronizes the startup entry with the saved setting: enabled, the
/// `Run` value names the current executable (`executable`, as the system
/// gave it or its error); disabled, the value is removed.
pub fn apply_startup(enabled: bool, executable: Result<String, String>) -> (r: Result<
    StartupChange,
    SystemError,
>)
    ensures
        enabled ==> match executable {
            Err(m) => r == Err::<StartupChange, SystemError>(SystemError::CurrentExecutable(m)),
            Ok(e) => r matches Ok(StartupChange::SetRunValue { name, command }) && name@
                == RUN_VALUE_NAME@ && command@ == seq!['"'] + e@ + seq!['"'],
        },
        !enabled ==> (r matches Ok(StartupChange::RemoveRunValue { name }) && name@ == RUN_VALUE_NAME@),
{
    if enabled {
        match executable {
            Err(m) => Err(SystemError::CurrentExecutable(m)),
            Ok(e) => Ok(
                StartupChange::SetRunValue {
                    name: String::from_str(RUN_VALUE_NAME),
                    command: startup_command(e.as_str()),
                },
            ),
        }
    } else {
        Ok(StartupChange::RemoveRunValue { name: String::from_str(RUN_VALUE_NAME) })
    }
}

/// One registry call made while applying a startup change.
#[derive(Debug, Clone, Copy, PartialEq, Eq, Structural)]
pub enum RegistryStep {
    CreateKey,
    WriteValue,
    OpenKey,
    DeleteValue,
}

/// What the call is doing, as an error reports it.
pub open spec fn spec_registry_operation(step: RegistryStep) -> Seq<char> {
    match step {
        RegistryStep::CreateKey => "creating the startup key"@,
        RegistryStep::WriteValue => "writing the startup command"@,
        RegistryStep::OpenKey => "opening the startup key"@,
        RegistryStep::DeleteValue => "removing the startup command"@,
    }
}

/// Whether applying the change goes on after a registry call returned
/// `code`: `Ok(true)` to make the next call, `Ok(false)` when the change is
/// complete. A missing key or value completes a removal; any other failure
/// is the error.
pub open spec fn spec_registry_outcome(step: RegistryStep, code: u32) -> Result<bool, (Seq<char>, u32)> {
    match step {
        RegistryStep::CreateKey => if code == 0 {
            Ok(true)
        } else {
            Err((spec_registry_operation(step), code))
        },
        RegistryStep::WriteValue => if code == 0 {
            Ok(false)
        } else {
            Err((spec_registry_operation(step), code))
        },
        RegistryStep::OpenKey => if code == 0 {
            Ok(true)
        } else if code == ERROR_FILE_NOT_FOUND {
            Ok(false)
        } else {
            Err((spec_registry_operation(step), code))
        },
        RegistryStep::DeleteValue => if code == 0 || code == ERROR_FILE_NOT_FOUND {
            Ok(false)
        } else {
            Err((spec_registry_operation(step), code))
        },
    }
}

fn registry_operation(step: RegistryStep) -> (r: &'static str)
    ensures
        r@ == spec_registry_operation(step),
{
    match step {
        RegistryStep::CreateKey => "creating the startup key",
        RegistryStep::WriteValue => "writing the startup command",
        RegistryStep::OpenKey => "opening the startup key",
        RegistryStep::DeleteValue => "removing the startup command",
    }
}

/// Decides what follows a registry call of a startup change.
pub fn registry_outcome(step: RegistryStep, code: u32) -> (r: Result<bool, SystemError>)
    ensures
        match spec_registry_outcome(step, code) {
            Ok(more) => r == Ok::<bool, SystemError>(more),
            Err((operation, c)) => r matches Err(SystemError::Registry { operation: o, code: k })
                && o@ == operation && k == c,
        },
{
    let fails = match step {
        RegistryStep::CreateKey | RegistryStep::WriteValue => code != 0,
        RegistryStep::OpenKey | RegistryStep::DeleteValue => code != 0 && code != ERROR_FILE_NOT_FOUND,
    };
    if fails {
        return Err(
            SystemError::Registry { operation: String::from_str(registry_operation(step)), code },
        );
    }
    match step {
        RegistryStep::CreateKey => Ok(true),
        RegistryStep::WriteValue => Ok(false),
        RegistryStep::OpenKey => Ok(code == 0),
        RegistryStep::DeleteValue => Ok(false),
    }
}

/// The command registered to start the application: its executable path in
/// double quotes.
pub fn startup_command(executable: &str) -> (r: String)
    ensures
        r@ == seq!['"'] + executable@ + seq!['"'],
{
    let e = chars_of(executable);
    let mut out: Vec<char> = Vec::new();
    out.push('"');
    let mut i: usize = 0;
    while i < e.len()
        invariant
            i <= e@.len(),
            out@ == seq!['"'] + e@.take(i as int),
        decreases e@.len() - i,
    {
        out.push(e[i]);
        i += 1;
        assert(out@ =~= seq!['"'] + e@.take(i as int));
    }
    out.push('"');
    assert(e@.take(e@.len() as int) =~= e@);
    assert(out@ =~= seq!['"'] + executable@ + seq!['"']);
    string_from_chars(out.as_slice())
}

} // verus!

//! Changing the hosts file: a snapshot first, then the change, each as a
//! command with raised privileges.
//!
//! The caller puts the new text into a staging file of its own and walks
//! through the steps that this module names. A snapshot that cannot be
//! made is given up; the change is attempted all the same.

use crate::backup::{backup_dir_text, backup_name_text, backup_path, Timestamp};
use crate::broker::{
    elevate, elevated_args, elevated_program, elevated_stdin, ps_quote, ps_quoted, translate,
    CommandSpec, Invocation, Platform, ProcessReport,
};
use crate::error::{EngineError, ErrorKind};
use vstd::prelude::*;

verus! {

/// What the caller does next.
#[derive(Debug, Clone, Copy, PartialEq, Eq, Structural)]
pub enum Step {
    /// Create the directory of the snapshots, without raised privileges.
    CreateBackupDirectory,
    /// Copy the hosts file to the snapshot.
    CopyToBackup,
    /// Write the change to the hosts file.
    WriteHosts,
    /// Nothing is left to do.
    Done,
}

/// The hosts file of the platform.
pub open spec fn hosts_path_text(platform: Platform) -> Seq<char> {
    match platform {
        Platform::Unix => "/etc/hosts"@,
        Platform::Windows => "C:\\Windows\\System32\\drivers\\etc\\hosts"@,
    }
}

/// The step that follows `step`. A snapshot comes before the change, and
/// whether it succeeds or not, the change comes: only the directory that
/// cannot be made spares the copy. After the change nothing is left.
pub open spec fn step_after(step: Step, succeeded: bool) -> Step {
    match step {
        Step::CreateBackupDirectory => if succeeded {
            Step::CopyToBackup
        } else {
            Step::WriteHosts
        },
        Step::CopyToBackup => Step::WriteHosts,
        Step::WriteHosts => Step::Done,
        Step::Done => Step::Done,
    }
}

/// How many steps can still follow `step`.
pub open spec fn steps_left(step: Step) -> nat {
    match step {
        Step::CreateBackupDirectory => 3,
        Step::CopyToBackup => 2,
        Step::WriteHosts => 1,
        Step::Done => 0,
    }
}

/// The PowerShell script that copies the file `from` over the file `to`.
pub open spec fn ps_copy_script(from: Seq<char>, to: Seq<char>) -> Seq<char> {
    "Copy-Item -Path "@ + ps_quoted(from) + " -Destination "@ + ps_quoted(to) + " -Force"@
}

/// The PowerShell script that writes what the file `from` holds behind
/// what the file `to` holds.
pub open spec fn ps_append_script(from: Seq<char>, to: Seq<char>) -> Seq<char> {
    "Add-Content -Path "@ + ps_quoted(to) + " -Value (Get-Content -Raw -Path "@ + ps_quoted(from)
        + ") -NoNewline -Force"@
}

/// The program and the arguments of the command that copies the file
/// `from` over the file `to`.
pub open spec fn copy_command(platform: Platform, from: Seq<char>, to: Seq<char>) -> (
    Seq<char>,
    Seq<Seq<char>>,
) {
    match platform {
        Platform::Unix => ("cp"@, seq![from, to]),
        Platform::Windows => (
            "powershell"@,
            seq!["-NoProfile"@, "-Command"@, ps_copy_script(from, to)],
        ),
    }
}

/// The program and the arguments of the command that writes what the file
/// `from` holds behind what the file `to` holds. On Unix a shell does it,
/// with a script that is always the same and gets the file as its first
/// parameter.
pub open spec fn append_command(platform: Platform, from: Seq<char>, to: Seq<char>) -> (
    Seq<char>,
    Seq<Seq<char>>,
) {
    match platform {
        Platform::Unix => ("sh"@, seq!["-c"@, "cat \"$1\" >> \"$2\""@, "sh"@, from, to]),
        Platform::Windows => (
            "powershell"@,
            seq!["-NoProfile"@, "-Command"@, ps_append_script(from, to)],
        ),
    }
}

/// The hosts file of the platform.
pub fn hosts_path(platform: Platform) -> (path: String)
    ensures
        path@ == hosts_path_text(platform),
{
    match platform {
        Platform::Unix => String::from_str("/etc/hosts"),
        Platform::Windows => String::from_str("C:\\Windows\\System32\\drivers\\etc\\hosts"),
    }
}

/// The first step of a change: the snapshot where one can be made, else
/// the change itself.
pub fn first_step(snapshot_possible: bool) -> (step: Step)
    ensures
        step == if snapshot_possible {
            Step::CreateBackupDirectory
        } else {
            Step::WriteHosts
        },
{
    if snapshot_possible {
        Step::CreateBackupDirectory
    } else {
        Step::WriteHosts
    }
}

/// The step that follows `step`, given whether `step` succeeded. The
/// change is never skipped: nothing but the change leads to the end.
pub fn next_step(step: Step, succeeded: bool) -> (next: Step)
    ensures
        next == step_after(step, succeeded),
        next == Step::Done ==> step == Step::WriteHosts || step == Step::Done,
        step != Step::Done ==> steps_left(next) < steps_left(step),
{
    match step {
        Step::CreateBackupDirectory => if succeeded {
            Step::CopyToBackup
        } else {
            Step::WriteHosts
        },
        Step::CopyToBackup => Step::WriteHosts,
        Step::WriteHosts => Step::Done,
        Step::Done => Step::Done,
    }
}

/// The command that copies the file `from` over the file `to`.
pub fn copy_file(platform: Platform, from: &str, to: &str) -> (command: CommandSpec)
    ensures
        command.program@ == copy_command(platform, from@, to@).0,
        command.arguments() == copy_command(platform, from@, to@).1,
{
    match platform {
        Platform::Unix => {
            let command = CommandSpec::new("cp").arg(from).arg(to);
            assert(command.arguments() == copy_command(platform, from@, to@).1);
            command
        },
        Platform::Windows => {
            let script = String::from_str("Copy-Item -Path ").concat(
                ps_quote(from).as_str(),
            ).concat(" -Destination ").concat(ps_quote(to).as_str()).concat(" -Force");
            let command = CommandSpec::new("powershell").arg("-NoProfile").arg("-Command").arg(
                script.as_str(),
            );
            assert(command.arguments() == copy_command(platform, from@, to@).1);
            command
        },
    }
}

/// The command that writes what the file `from` holds behind what the
/// file `to` holds.
pub fn append_file(platform: Platform, from: &str, to: &str) -> (command: CommandSpec)
    ensures
        command.program@ == append_command(platform, from@, to@).0,
        command.arguments() == append_command(platform, from@, to@).1,
{
    match platform {
        Platform::Unix => {
            let command = CommandSpec::new("sh").arg("-c").arg("cat \"$1\" >> \"$2\"").arg(
                "sh",
            ).arg(from).arg(to);
            assert(command.arguments() == append_command(platform, from@, to@).1);
            command
        },
        Platform::Windows => {
            let script = String::from_str("Add-Content -Path ").concat(
                ps_quote(to).as_str(),
            ).concat(" -Value (Get-Content -Raw -Path ").concat(ps_quote(from).as_str()).concat(
                ") -NoNewline -Force",
            );
            let command = CommandSpec::new("powershell").arg("-NoProfile").arg("-Command").arg(
                script.as_str(),
            );
            assert(command.arguments() == append_command(platform, from@, to@).1);
            command
        },
    }
}

/// The command of the step `CopyToBackup`: it copies the hosts file to
/// the snapshot made at `moment` under the home directory `home`, with
/// the privileges that the change needs. There is none where the moment
/// does not exist.
pub fn backup_hosts_file(platform: Platform, home: &str, moment: &Timestamp, password: &str) -> (
    step: Option<Invocation>)
    ensures
        step is Some <==> moment.is_valid(),
        step matches Some(invocation) ==> {
            let copy = copy_command(
                platform,
                hosts_path_text(platform),
                backup_dir_text(platform, home@) + backup_name_text(*moment),
            );
            &&& invocation.program@ == elevated_program(platform)
            &&& invocation.arguments() == elevated_args(platform, copy.0, copy.1)
            &&& invocation.input() == elevated_stdin(platform, password@)
        },
{
    match backup_path(platform, home, moment) {
        None => None,
        Some(path) => {
            let command = copy_file(platform, hosts_path(platform).as_str(), path.as_str());
            Some(elevate(platform, &command, password))
        },
    }
}

/// The command of the step `WriteHosts` that adds: it writes what the
/// staging file holds behind the hosts file.
pub fn append_to_hosts(platform: Platform, staged: &str, password: &str) -> (invocation:
    Invocation)
    ensures
        invocation.program@ == elevated_program(platform),
        invocation.arguments() == elevated_args(
            platform,
            append_command(platform, staged@, hosts_path_text(platform)).0,
            append_command(platform, staged@, hosts_path_text(platform)).1,
        ),
        invocation.input() == elevated_stdin(platform, password@),
{
    let command = append_file(platform, staged, hosts_path(platform).as_str());
    elevate(platform, &command, password)
}

/// The command of the step `WriteHosts` that removes: it puts the staging
/// file in the place of the hosts file.
pub fn replace_hosts(platform: Platform, staged: &str, password: &str) -> (invocation:
    Invocation)
    ensures
        invocation.program@ == elevated_program(platform),
        invocation.arguments() == elevated_args(
            platform,
            copy_command(platform, staged@, hosts_path_text(platform)).0,
            copy_command(platform, staged@, hosts_path_text(platform)).1,
        ),
        invocation.input() == elevated_stdin(platform, password@),
{
    let command = copy_file(platform, staged, hosts_path(platform).as_str());
    elevate(platform, &command, password)
}

/// What the step `WriteHosts` gave, and with it the whole change: nothing
/// where it succeeded, else the failure with its diagnostic text. A
/// command with raised privileges that fails is `PermissionDenied`.
pub fn hosts_written(report: &ProcessReport) -> (result: Result<(), EngineError>)
    ensures
        match (*report, result) {
            (ProcessReport::NotStarted { reason }, Err(e)) => e.kind == ErrorKind::ToolUnavailable
                && e.detail@ == reason@,
            (ProcessReport::Finished { success, stdout, stderr }, Ok(done)) => success,
            (ProcessReport::Finished { success, stdout, stderr }, Err(e)) => !success && e.kind
                == ErrorKind::PermissionDenied && e.detail@ == stderr@,
            _ => false,
        },
{
    match translate(report, ErrorKind::PermissionDenied) {
        Ok(text) => Ok(()),
        Err(e) => Err(e),
    }
}

} // verus!

use hosts_guard::backup::{backup_dir, backup_name, backup_path, home_variable, Timestamp};
use hosts_guard::broker::{Platform, ProcessReport};
use hosts_guard::error::ErrorKind;
use hosts_guard::mutation::{
    append_file, append_to_hosts, backup_hosts_file, copy_file, replace_hosts,
    first_step, hosts_path, hosts_written, next_step, Step,
};

fn at(year: i32, month: u32, day: u32, hour: u32, minute: u32, second: u32) -> Timestamp {
    Timestamp { year, month, day, hour, minute, second }
}

#[test]
fn a_snapshot_is_named_by_its_moment() {
    assert_eq!(
        backup_name(&at(2024, 2, 29, 23, 59, 9)),
        Some("hosts.bak.2024-02-29_23-59-09".to_string())
    );
    assert_eq!(
        backup_name(&at(987, 1, 2, 3, 4, 5)),
        Some("hosts.bak.0987-01-02_03-04-05".to_string())
    );
    assert_eq!(
        backup_name(&at(0, 12, 31, 0, 0, 0)),
        Some("hosts.bak.0000-12-31_00-00-00".to_string())
    );
    assert_eq!(
        backup_name(&at(9999, 12, 31, 23, 59, 59)),
        Some("hosts.bak.9999-12-31_23-59-59".to_string())
    );
}

#[test]
fn a_moment_that_does_not_exist_names_nothing() {
    assert_eq!(backup_name(&at(2023, 2, 29, 0, 0, 0)), None);
    assert_eq!(backup_name(&at(1900, 2, 29, 0, 0, 0)), None);
    assert_eq!(backup_name(&at(2023, 4, 31, 0, 0, 0)), None);
    assert_eq!(backup_name(&at(2023, 0, 1, 0, 0, 0)), None);
    assert_eq!(backup_name(&at(2023, 13, 1, 0, 0, 0)), None);
    assert_eq!(backup_name(&at(2023, 1, 0, 0, 0, 0)), None);
    assert_eq!(backup_name(&at(2023, 1, 32, 0, 0, 0)), None);
    assert_eq!(backup_name(&at(2023, 1, 1, 24, 0, 0)), None);
    assert_eq!(backup_name(&at(2023, 1, 1, 0, 60, 0)), None);
    assert_eq!(backup_name(&at(2023, 1, 1, 0, 0, 60)), None);
    assert_eq!(backup_name(&at(10000, 1, 1, 0, 0, 0)), None);
    assert_eq!(backup_name(&at(-1, 1, 1, 0, 0, 0)), None);
    assert!(backup_name(&at(2000, 2, 29, 0, 0, 0)).is_some());
}

fn days_in(year: i32, month: u32) -> u32 {
    match month {
        2 if year % 4 == 0 && (year % 100 != 0 || year % 400 == 0) => 29,
        2 => 28,
        4 | 6 | 9 | 11 => 30,
        _ => 31,
    }
}

#[test]
fn the_calendar_is_the_gregorian_one() {
    for year in [0, 1, 4, 100, 400, 1900, 1999, 2000, 2023, 2024, 2100, 9999] {
        for month in 0..14u32 {
            for day in 0..33u32 {
                let exists = (1..=12).contains(&month) && day >= 1 && day <= days_in(year, month);
                let expected = if exists {
                    Some(format!("hosts.bak.{:04}-{:02}-{:02}_07-08-09", year, month, day))
                } else {
                    None
                };
                assert_eq!(
                    backup_name(&at(year, month, day, 7, 8, 9)),
                    expected,
                    "{}-{}-{}",
                    year,
                    month,
                    day
                );
            }
        }
    }
}

#[test]
fn the_clock_is_written_in_two_digits() {
    for hour in 0..24u32 {
        for tick in [0u32, 1, 9, 10, 59] {
            assert_eq!(
                backup_name(&at(2025, 6, 7, hour, tick, tick)),
                Some(format!("hosts.bak.2025-06-07_{:02}-{:02}-{:02}", hour, tick, tick))
            );
        }
    }
}

#[test]
fn snapshots_lie_under_the_home_directory() {
    assert_eq!(backup_dir(Platform::Unix, "/home/me"), "/home/me/ophiuchi.hosts.bak/");
    assert_eq!(
        backup_dir(Platform::Windows, "C:\\Users\\me"),
        "C:\\Users\\me\\ophiuchi.hosts.bak\\"
    );
    assert_eq!(
        backup_path(Platform::Unix, "/home/me", &at(2024, 1, 2, 3, 4, 5)),
        Some("/home/me/ophiuchi.hosts.bak/hosts.bak.2024-01-02_03-04-05".to_string())
    );
    assert_eq!(
        backup_path(Platform::Windows, "C:\\Users\\me", &at(2024, 1, 2, 3, 4, 5)),
        Some("C:\\Users\\me\\ophiuchi.hosts.bak\\hosts.bak.2024-01-02_03-04-05".to_string())
    );
    assert_eq!(backup_path(Platform::Unix, "/home/me", &at(2024, 2, 30, 0, 0, 0)), None);
}

#[test]
fn the_home_directory_has_its_variable_on_each_platform() {
    assert_eq!(home_variable(Platform::Unix), "HOME");
    assert_eq!(home_variable(Platform::Windows), "USERPROFILE");
}

#[test]
fn the_hosts_file_has_its_place_on_each_platform() {
    assert_eq!(hosts_path(Platform::Unix), "/etc/hosts");
    assert_eq!(hosts_path(Platform::Windows), "C:\\Windows\\System32\\drivers\\etc\\hosts");
}

#[test]
fn the_snapshot_comes_before_the_change() {
    assert_eq!(first_step(true), Step::CreateBackupDirectory);
    assert_eq!(next_step(Step::CreateBackupDirectory, true), Step::CopyToBackup);
    assert_eq!(next_step(Step::CopyToBackup, true), Step::WriteHosts);
    assert_eq!(next_step(Step::WriteHosts, true), Step::Done);
    assert_eq!(next_step(Step::Done, true), Step::Done);
}

#[test]
fn a_snapshot_that_fails_does_not_stop_the_change() {
    assert_eq!(first_step(false), Step::WriteHosts);
    assert_eq!(next_step(Step::CreateBackupDirectory, false), Step::WriteHosts);
    assert_eq!(next_step(Step::CopyToBackup, false), Step::WriteHosts);
    assert_eq!(next_step(Step::WriteHosts, false), Step::Done);
    assert_eq!(next_step(Step::Done, false), Step::Done);
}

#[test]
fn every_walk_passes_the_change_and_ends() {
    for possible in [false, true] {
        for outcomes in 0..8u32 {
            let mut step = first_step(possible);
            let mut wrote = 0;
            let mut taken = 0;
            while step != Step::Done {
                if step == Step::WriteHosts {
                    wrote += 1;
                }
                step = next_step(step, outcomes & (1 << taken) != 0);
                taken += 1;
                assert!(taken <= 3);
            }
            assert_eq!(wrote, 1);
        }
    }
}

#[test]
fn copying_names_both_files_as_arguments() {
    let unix = copy_file(Platform::Unix, "/tmp/a b", "/etc/hosts");
    assert_eq!(unix.program, "cp");
    assert_eq!(unix.args, vec!["/tmp/a b", "/etc/hosts"]);
    let windows = copy_file(Platform::Windows, "C:\\t'mp\\a", "C:\\hosts");
    assert_eq!(windows.program, "powershell");
    assert_eq!(
        windows.args,
        vec![
            "-NoProfile",
            "-Command",
            "Copy-Item -Path 'C:\\t''mp\\a' -Destination 'C:\\hosts' -Force",
        ]
    );
}

#[test]
fn appending_keeps_the_file_names_out_of_the_script() {
    let unix = append_file(Platform::Unix, "/tmp/$(reboot)", "/etc/hosts");
    assert_eq!(unix.program, "sh");
    assert_eq!(
        unix.args,
        vec!["-c", "cat \"$1\" >> \"$2\"", "sh", "/tmp/$(reboot)", "/etc/hosts"]
    );
    let windows = append_file(Platform::Windows, "C:\\staged", "C:\\hosts");
    assert_eq!(
        windows.args,
        vec![
            "-NoProfile",
            "-Command",
            "Add-Content -Path 'C:\\hosts' -Value (Get-Content -Raw -Path 'C:\\staged') \
             -NoNewline -Force",
        ]
    );
}

#[test]
fn the_snapshot_is_copied_with_raised_privileges() {
    let step = backup_hosts_file(Platform::Unix, "/home/me", &at(2024, 1, 2, 3, 4, 5), "pw").unwrap();
    assert_eq!(step.program, "sudo");
    assert_eq!(
        step.args,
        vec![
            "-S",
            "--",
            "cp",
            "/etc/hosts",
            "/home/me/ophiuchi.hosts.bak/hosts.bak.2024-01-02_03-04-05",
        ]
    );
    assert_eq!(step.stdin, Some("pw\n".to_string()));
    assert_eq!(backup_hosts_file(Platform::Unix, "/home/me", &at(2024, 13, 1, 0, 0, 0), "pw"), None);
    let step =
        backup_hosts_file(Platform::Windows, "C:\\Users\\me", &at(2024, 1, 2, 3, 4, 5), "pw").unwrap();
    assert_eq!(step.program, "powershell");
    assert_eq!(step.stdin, None);
    assert_eq!(
        step.args[2],
        "$process = Start-Process 'powershell' -Verb RunAs -ArgumentList '-NoProfile', '-Command', \
         'Copy-Item -Path ''C:\\Windows\\System32\\drivers\\etc\\hosts'' \
         -Destination ''C:\\Users\\me\\ophiuchi.hosts.bak\\hosts.bak.2024-01-02_03-04-05'' \
         -Force' \
         -Wait -PassThru; if ($process) { exit $process.ExitCode } else { exit 1 }"
    );
}

#[test]
fn the_change_is_written_from_the_staging_file() {
    let add = append_to_hosts(Platform::Unix, "/tmp/staged", "pw");
    assert_eq!(add.program, "sudo");
    assert_eq!(
        add.args,
        vec!["-S", "--", "sh", "-c", "cat \"$1\" >> \"$2\"", "sh", "/tmp/staged", "/etc/hosts"]
    );
    assert_eq!(add.stdin, Some("pw\n".to_string()));
    let remove = replace_hosts(Platform::Unix, "/tmp/staged", "pw");
    assert_eq!(remove.program, "sudo");
    assert_eq!(remove.args, vec!["-S", "--", "cp", "/tmp/staged", "/etc/hosts"]);
    assert_eq!(remove.stdin, Some("pw\n".to_string()));
    let remove = replace_hosts(Platform::Windows, "C:\\staged", "pw");
    assert_eq!(remove.stdin, None);
    assert_eq!(
        remove.args[2],
        "$process = Start-Process 'powershell' -Verb RunAs -ArgumentList '-NoProfile', '-Command', \
         'Copy-Item -Path ''C:\\staged'' \
         -Destination ''C:\\Windows\\System32\\drivers\\etc\\hosts'' -Force' \
         -Wait -PassThru; if ($process) { exit $process.ExitCode } else { exit 1 }"
    );
}

#[test]
fn the_password_stays_out_of_the_arguments() {
    for platform in [Platform::Unix, Platform::Windows] {
        let one = append_to_hosts(platform, "/tmp/staged", "hunter2");
        let other = append_to_hosts(platform, "/tmp/staged", "correct horse");
        assert_eq!(one.args, other.args);
        assert!(one.args.iter().all(|arg| !arg.contains("hunter2")));
    }
}

#[test]
fn a_change_that_failed_is_a_refusal() {
    let ok = ProcessReport::Finished {
        success: true,
        stdout: String::new(),
        stderr: String::new(),
    };
    assert_eq!(hosts_written(&ok), Ok(()));
    let refused = ProcessReport::Finished {
        success: false,
        stdout: String::new(),
        stderr: "Sorry, try again.\n".to_string(),
    };
    let e = hosts_written(&refused).unwrap_err();
    assert_eq!(e.kind, ErrorKind::PermissionDenied);
    assert_eq!(e.detail, "Sorry, try again.\n");
    let missing = ProcessReport::NotStarted { reason: "sudo: not found".to_string() };
    let e = hosts_written(&missing).unwrap_err();
    assert_eq!(e.kind, ErrorKind::ToolUnavailable);
    assert_eq!(e.detail, "sudo: not found");
}

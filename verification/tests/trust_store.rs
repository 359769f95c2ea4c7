use hosts_guard::broker::{Platform, ProcessReport};
use hosts_guard::error::ErrorKind;
use hosts_guard::trust::{
    add_cert_to_keychain, cert_added, cert_exist_on_keychain, cert_exists, cert_removed,
    certificates_found, choose_fingerprint, find_certificates, last_word_chars, lookup,
    parse_fingerprints, remove_cert_by_sha1, remove_cert_from_keychain, resolve_fingerprint,
};

fn finished(success: bool, stdout: &str, stderr: &str) -> ProcessReport {
    ProcessReport::Finished {
        success,
        stdout: stdout.to_string(),
        stderr: stderr.to_string(),
    }
}

fn not_started() -> ProcessReport {
    ProcessReport::NotStarted { reason: "No such file or directory (os error 2)".to_string() }
}

const ONE: &str = "keychain: \"/Users/me/Library/Keychains/login.keychain-db\"\n\
SHA-256 hash: 9F86D081884C7D659A2FEAA0C55AD015A3BF4F1B2B0B822CD15D6C15B0F00A08\n\
SHA-1 hash: A94A8FE5CCB19BA61C4C0873D391E987982FBBD3\n\
    \"alis\"<blob>=\"dev.test\"\n";

const TWO: &str = "SHA-1 hash: A94A8FE5CCB19BA61C4C0873D391E987982FBBD3\n\
    \"labl\"<blob>=\"dev.test\"\n\
SHA-1 hash: 2FD4E1C67A2D28FCED849EE1BB76E7391B93EB12\n\
    \"labl\"<blob>=\"dev.test.local\"\n";

#[test]
fn the_unix_lookup_names_the_subject_as_one_argument() {
    let one = cert_exist_on_keychain(Platform::Unix, "dev test'; rm -rf ~");
    assert_eq!(one.program, "security");
    assert_eq!(one.args, vec!["find-certificate", "-c", "dev test'; rm -rf ~", "-Z"]);
    assert_eq!(one.stdin, None);
    let all = find_certificates(Platform::Unix, "dev.test");
    assert_eq!(all.program, "security");
    assert_eq!(all.args, vec!["find-certificate", "-a", "-c", "dev.test", "-Z"]);
    assert_eq!(all.stdin, None);
    assert_eq!(remove_cert_from_keychain(Platform::Unix, "dev.test"), all);
    assert_eq!(lookup(Platform::Unix, "dev.test", true), all);
}

#[test]
fn the_windows_lookup_quotes_the_subject() {
    let one = cert_exist_on_keychain(Platform::Windows, "O'Neill");
    assert_eq!(one.program, "powershell");
    assert_eq!(
        one.args,
        vec![
            "-NoProfile",
            "-NonInteractive",
            "-Command",
            "Get-ChildItem -Path Cert:\\CurrentUser\\Root | \
             Where-Object { $_.Subject -like '*O''Neill*' }",
        ]
    );
    assert_eq!(one.stdin, None);
    let all = find_certificates(Platform::Windows, "dev.test");
    assert_eq!(
        all.args[3],
        "Get-ChildItem -Path Cert:\\CurrentUser\\Root | \
         Where-Object { $_.Subject -like '*dev.test*' } | \
         Format-List Subject, Thumbprint, NotAfter, NotBefore, Issuer"
    );
    assert_eq!(remove_cert_from_keychain(Platform::Windows, "dev.test"), all);
}

#[test]
fn on_unix_a_certificate_exists_where_the_tool_succeeds() {
    assert!(cert_exists(Platform::Unix, &finished(true, "", "")));
    assert!(cert_exists(Platform::Unix, &finished(true, ONE, "")));
    assert!(!cert_exists(Platform::Unix, &finished(false, ONE, "not found")));
    assert!(!cert_exists(Platform::Unix, &not_started()));
}

#[test]
fn on_windows_a_certificate_exists_where_something_was_listed() {
    assert!(cert_exists(Platform::Windows, &finished(true, "\r\nThumbprint  Subject\r\n", "")));
    assert!(!cert_exists(Platform::Windows, &finished(true, " \r\n\t\r\n", "")));
    assert!(!cert_exists(Platform::Windows, &finished(true, "", "")));
    assert!(!cert_exists(Platform::Windows, &finished(false, "Thumbprint", "")));
    assert!(!cert_exists(Platform::Windows, &not_started()));
}

#[test]
fn a_listing_comes_back_as_it_is() {
    assert_eq!(certificates_found(&finished(true, TWO, "")).unwrap(), TWO);
    let e = certificates_found(&finished(false, TWO, "security: SecKeychainSearch failed\n"))
        .unwrap_err();
    assert_eq!(e.kind, ErrorKind::ToolUnavailable);
    assert_eq!(e.detail, "security: SecKeychainSearch failed\n");
    let e = certificates_found(&not_started()).unwrap_err();
    assert_eq!(e.kind, ErrorKind::ToolUnavailable);
    assert_eq!(e.detail, "No such file or directory (os error 2)");
}

#[test]
fn the_last_word_of_a_line_is_what_follows_its_last_white_space() {
    let word = |line: &str| -> String {
        last_word_chars(&line.chars().collect()).into_iter().collect()
    };
    assert_eq!(word("SHA-1 hash: ABCDEF"), "ABCDEF");
    assert_eq!(word("  SHA-1 hash:\tABCDEF  \r"), "ABCDEF");
    assert_eq!(word("single"), "single");
    assert_eq!(word(""), "");
    assert_eq!(word(" \t "), "");
    assert_eq!(word("Thumbprint : 0A1B"), "0A1B");
}

#[test]
fn fingerprints_are_read_off_the_marked_lines() {
    assert_eq!(
        parse_fingerprints(Platform::Unix, ONE),
        vec!["A94A8FE5CCB19BA61C4C0873D391E987982FBBD3"]
    );
    assert_eq!(
        parse_fingerprints(Platform::Unix, TWO),
        vec![
            "A94A8FE5CCB19BA61C4C0873D391E987982FBBD3",
            "2FD4E1C67A2D28FCED849EE1BB76E7391B93EB12",
        ]
    );
    assert_eq!(parse_fingerprints(Platform::Unix, "").len(), 0);
    assert_eq!(parse_fingerprints(Platform::Unix, "Thumbprint : 0A1B\n").len(), 0);
    assert_eq!(
        parse_fingerprints(
            Platform::Windows,
            "\r\nSubject    : CN=dev.test\r\nThumbprint : 0A1B2C\r\nIssuer     : CN=dev.test\r\n\r\n"
        ),
        vec!["0A1B2C"]
    );
    assert_eq!(parse_fingerprints(Platform::Unix, "SHA-1 hash:\n"), vec!["hash:"]);
}

#[test]
fn one_fingerprint_is_the_answer() {
    assert_eq!(
        resolve_fingerprint(Platform::Unix, &finished(true, ONE, "")).unwrap(),
        "A94A8FE5CCB19BA61C4C0873D391E987982FBBD3"
    );
    assert_eq!(
        resolve_fingerprint(
            Platform::Windows,
            &finished(true, "Subject : CN=x\r\nThumbprint : 0A1B2C\r\n", "")
        )
        .unwrap(),
        "0A1B2C"
    );
}

#[test]
fn two_certificates_that_share_a_name_are_ambiguous() {
    let e = resolve_fingerprint(Platform::Unix, &finished(true, TWO, "")).unwrap_err();
    assert_eq!(e.kind, ErrorKind::AmbiguousMatch);
    assert_eq!(e.detail, TWO);
    let listing = "Thumbprint : 0A1B2C\r\nThumbprint : FFEE00\r\n";
    let e = resolve_fingerprint(Platform::Windows, &finished(true, listing, "")).unwrap_err();
    assert_eq!(e.kind, ErrorKind::AmbiguousMatch);
    assert_eq!(e.detail, listing);
}

#[test]
fn no_fingerprint_is_not_found() {
    let e = resolve_fingerprint(Platform::Unix, &finished(true, "keychain: x\n", "")).unwrap_err();
    assert_eq!(e.kind, ErrorKind::NotFound);
    assert_eq!(e.detail, "Certificate not found");
    let e = resolve_fingerprint(Platform::Unix, &finished(true, "", "")).unwrap_err();
    assert_eq!(e.kind, ErrorKind::NotFound);
}

#[test]
fn a_lookup_that_failed_found_nothing() {
    let stderr = "security: SecKeychainSearchCopyNext: The specified item could not be found in the keychain.\n";
    let e = resolve_fingerprint(Platform::Unix, &finished(false, ONE, stderr)).unwrap_err();
    assert_eq!(e.kind, ErrorKind::NotFound);
    assert_eq!(e.detail, stderr);
    let e = resolve_fingerprint(Platform::Unix, &not_started()).unwrap_err();
    assert_eq!(e.kind, ErrorKind::ToolUnavailable);
}

#[test]
fn choosing_goes_by_the_number_of_candidates() {
    let a = "AA".to_string();
    let b = "BB".to_string();
    assert_eq!(choose_fingerprint(&vec![a.clone()], "listing").unwrap(), "AA");
    assert_eq!(choose_fingerprint(&vec![], "listing").unwrap_err().kind, ErrorKind::NotFound);
    assert_eq!(
        choose_fingerprint(&vec![a.clone(), b], "listing").unwrap_err().kind,
        ErrorKind::AmbiguousMatch
    );
    let e = choose_fingerprint(&vec![a.clone(), a], "listing").unwrap_err();
    assert_eq!(e.kind, ErrorKind::AmbiguousMatch);
    assert_eq!(e.detail, "listing");
}

#[test]
fn removing_by_fingerprint_names_it_exactly() {
    let unix = remove_cert_by_sha1(Platform::Unix, "A94A8FE5");
    assert_eq!(unix.program, "security");
    assert_eq!(unix.args, vec!["delete-certificate", "-Z", "A94A8FE5"]);
    assert_eq!(unix.stdin, None);
    let windows = remove_cert_by_sha1(Platform::Windows, "0A'1B");
    assert_eq!(windows.program, "powershell");
    assert_eq!(windows.stdin, None);
    assert_eq!(
        windows.args,
        vec![
            "-NoProfile",
            "-Command",
            "$process = Start-Process 'powershell' -Verb RunAs -ArgumentList '-NoProfile', '-Command', \
             '$cert = Get-ChildItem -Path Cert:\\CurrentUser\\Root | \
             Where-Object { $_.Thumbprint -eq ''0A''''1B'' }; \
             if ($cert) { Remove-Item -Path $cert.PSPath -Force } else { exit 1 }' \
             -Wait -PassThru; if ($process) { exit $process.ExitCode } else { exit 1 }",
        ]
    );
}

#[test]
fn a_removal_that_failed_is_not_found() {
    assert_eq!(cert_removed(&finished(true, "", "")), Ok(()));
    let e = cert_removed(&finished(false, "", "Unable to delete certificate\n")).unwrap_err();
    assert_eq!(e.kind, ErrorKind::NotFound);
    assert_eq!(e.detail, "Unable to delete certificate\n");
    assert_eq!(cert_removed(&not_started()).unwrap_err().kind, ErrorKind::ToolUnavailable);
}

#[test]
fn adding_on_unix_goes_to_the_login_keychain() {
    let step = add_cert_to_keychain(Platform::Unix, Some("/Users/me"), "/tmp/dev test.pem").unwrap();
    assert_eq!(step.program, "security");
    assert_eq!(
        step.args,
        vec![
            "add-trusted-cert",
            "-k",
            "/Users/me/Library/Keychains/login.keychain-db",
            "/tmp/dev test.pem",
        ]
    );
    assert_eq!(step.stdin, None);
}

#[test]
fn adding_on_unix_needs_the_home_directory() {
    let e = add_cert_to_keychain(Platform::Unix, None, "/tmp/dev.pem").unwrap_err();
    assert_eq!(e.kind, ErrorKind::NotFound);
    assert_eq!(e.detail, "Home directory not found");
}

#[test]
fn adding_on_windows_imports_with_raised_privileges() {
    for home in [None, Some("C:\\Users\\me")] {
        let step = add_cert_to_keychain(Platform::Windows, home, "C:\\it's.pem").unwrap();
        assert_eq!(step.program, "powershell");
        assert_eq!(step.stdin, None);
        assert_eq!(
            step.args,
            vec![
                "-NoProfile",
                "-Command",
                "$process = Start-Process 'powershell' -Verb RunAs -ArgumentList '-NoProfile', '-Command', \
                 'Import-Certificate -FilePath ''C:\\it''''s.pem'' \
                 -CertStoreLocation Cert:\\CurrentUser\\Root' \
                 -Wait -PassThru; if ($process) { exit $process.ExitCode } else { exit 1 }",
            ]
        );
    }
}

#[test]
fn an_import_that_failed_is_an_io_failure() {
    assert_eq!(cert_added(&finished(true, "", "")), Ok(()));
    let e = cert_added(&finished(false, "", "Error reading file /tmp/none.pem\n")).unwrap_err();
    assert_eq!(e.kind, ErrorKind::IoFailure);
    assert_eq!(e.detail, "Error reading file /tmp/none.pem\n");
    assert_eq!(cert_added(&not_started()).unwrap_err().kind, ErrorKind::ToolUnavailable);
}

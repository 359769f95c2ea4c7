//! The certificate trust store: the commands that add, find and remove a
//! certificate, and what their outcomes mean.
//!
//! On Unix the store is the login keychain, reached through the tool
//! `security`. On Windows it is the root store of the current user,
//! reached through PowerShell. A certificate is named by a part of its
//! subject, or exactly by its fingerprint.

use crate::broker::{
    direct, elevate, elevated_args, elevated_program, ps_quote, ps_quoted, translate, CommandSpec,
    Invocation, Platform, ProcessReport,
};
use crate::error::{EngineError, ErrorKind};
use crate::text::{
    char_is_whitespace, chars_of, contains_chars, is_substring, is_whitespace, push_text,
    slice_chars, split_text_lines, string_of, text_lines, texts, trim, trim_chars, views,
};
use vstd::prelude::*;

verus! {

/// The PowerShell expression for the certificates of the root store whose
/// subject holds `name`.
pub open spec fn ps_select_by_subject(name: Seq<char>) -> Seq<char> {
    "Get-ChildItem -Path Cert:\\CurrentUser\\Root | Where-Object { $_.Subject -like "@ + ps_quoted(
        seq!['*'] + name + seq!['*'],
    ) + " }"@
}

/// The PowerShell script that lists the certificates whose subject holds
/// `name`, with their fingerprints.
pub open spec fn ps_list_script(name: Seq<char>) -> Seq<char> {
    ps_select_by_subject(name) + " | Format-List Subject, Thumbprint, NotAfter, NotBefore, Issuer"@
}

/// The PowerShell script that imports the certificate file `path` into
/// the root store of the current user.
pub open spec fn ps_import_script(path: Seq<char>) -> Seq<char> {
    "Import-Certificate -FilePath "@ + ps_quoted(path)
        + " -CertStoreLocation Cert:\\CurrentUser\\Root"@
}

/// The PowerShell script that removes the certificate with exactly the
/// fingerprint `fingerprint` from the root store of the current user, and
/// fails where the store holds no such certificate.
pub open spec fn ps_remove_script(fingerprint: Seq<char>) -> Seq<char> {
    "$cert = Get-ChildItem -Path Cert:\\CurrentUser\\Root | Where-Object { $_.Thumbprint -eq "@
        + ps_quoted(fingerprint)
        + " }; if ($cert) { Remove-Item -Path $cert.PSPath -Force } else { exit 1 }"@
}

/// The login keychain of the user whose home directory is `home`.
pub open spec fn login_keychain(home: Seq<char>) -> Seq<char> {
    home + "/Library/Keychains/login.keychain-db"@
}

/// The word that stands on the line of a listing that gives a
/// fingerprint.
pub open spec fn fingerprint_marker(platform: Platform) -> Seq<char> {
    match platform {
        Platform::Unix => "SHA-1"@,
        Platform::Windows => "Thumbprint"@,
    }
}

/// Where the last word before position `to` begins: behind the last white
/// space before `to`, or at the start.
pub open spec fn word_start(text: Seq<char>, to: int) -> int
    decreases to,
{
    if 0 < to <= text.len() && !is_whitespace(text[to - 1]) {
        word_start(text, to - 1)
    } else {
        to
    }
}

/// The last word of a line: what stands behind the last white space of
/// the line, white space at either end of the line set aside.
pub open spec fn last_word(line: Seq<char>) -> Seq<char> {
    let said = trim(line);
    said.skip(word_start(said, said.len() as int))
}

/// The fingerprints that a listing gives, in order: the last word of each
/// line that holds `marker`.
pub open spec fn fingerprints(lines: Seq<Seq<char>>, marker: Seq<char>) -> Seq<Seq<char>>
    decreases lines.len(),
{
    if lines.len() == 0 {
        Seq::empty()
    } else if is_substring(lines.last(), marker) {
        fingerprints(lines.drop_last(), marker).push(last_word(lines.last()))
    } else {
        fingerprints(lines.drop_last(), marker)
    }
}

/// The fingerprints that the listing `listing` of `platform` gives.
pub open spec fn listed_fingerprints(platform: Platform, listing: Seq<char>) -> Seq<Seq<char>> {
    fingerprints(text_lines(listing), fingerprint_marker(platform))
}

/// The last word of `line`.
pub fn last_word_chars(line: &Vec<char>) -> (word: Vec<char>)
    ensures
        word@ == last_word(line@),
{
    let said = trim_chars(line);
    let n: usize = said.len();
    let mut start: usize = n;
    while start > 0 && !char_is_whitespace(said[start - 1])
        invariant
            start <= n == said.len(),
            word_start(said@, n as int) == word_start(said@, start as int),
        decreases start,
    {
        start -= 1;
    }
    let word = slice_chars(&said, start, n);
    assert(said@.subrange(start as int, n as int) == said@.skip(start as int));
    word
}

/// The fingerprints that the listing `listing` of `platform` gives, in
/// order.
pub fn parse_fingerprints(platform: Platform, listing: &str) -> (found: Vec<String>)
    ensures
        texts(found@) == listed_fingerprints(platform, listing@),
{
    let marker = match platform {
        Platform::Unix => chars_of("SHA-1"),
        Platform::Windows => chars_of("Thumbprint"),
    };
    let lines = split_text_lines(&chars_of(listing));
    let mut found: Vec<String> = Vec::new();
    let mut i: usize = 0;
    assert(views(lines@).take(0) == Seq::<Seq<char>>::empty());
    assert(texts(found@) =~= Seq::<Seq<char>>::empty());
    while i < lines.len()
        invariant
            i <= lines.len(),
            marker@ == fingerprint_marker(platform),
            texts(found@) == fingerprints(views(lines@).take(i as int), marker@),
        decreases lines.len() - i,
    {
        let ghost head = views(lines@).take(i as int + 1);
        proof {
            assert(head.drop_last() == views(lines@).take(i as int));
            assert(head.last() == lines@[i as int]@);
        }
        if contains_chars(&lines[i], &marker) {
            let word = string_of(&last_word_chars(&lines[i]));
            push_text(&mut found, word);
        }
        i += 1;
    }
    assert(views(lines@).take(lines.len() as int) == views(lines@));
    found
}

/// The program and the arguments of the command that lists the
/// certificates whose subject holds `name`: every one of them where `all`
/// is set, else the first.
pub open spec fn lookup_command(platform: Platform, name: Seq<char>, all: bool) -> (
    Seq<char>,
    Seq<Seq<char>>,
) {
    match platform {
        Platform::Unix => (
            "security"@,
            if all {
                seq!["find-certificate"@, "-a"@, "-c"@, name, "-Z"@]
            } else {
                seq!["find-certificate"@, "-c"@, name, "-Z"@]
            },
        ),
        Platform::Windows => (
            "powershell"@,
            seq![
                "-NoProfile"@,
                "-NonInteractive"@,
                "-Command"@,
                if all {
                    ps_list_script(name)
                } else {
                    ps_select_by_subject(name)
                },
            ],
        ),
    }
}

/// The command that lists the certificates whose subject holds `name`.
/// It runs without raised privileges.
pub fn lookup(platform: Platform, name: &str, all: bool) -> (invocation: Invocation)
    ensures
        invocation.program@ == lookup_command(platform, name@, all).0,
        invocation.arguments() == lookup_command(platform, name@, all).1,
        invocation.input() is None,
{
    match platform {
        Platform::Unix => {
            let mut command = CommandSpec::new("security").arg("find-certificate");
            if all {
                command = command.arg("-a");
            }
            command = command.arg("-c").arg(name).arg("-Z");
            assert(command.arguments() == lookup_command(platform, name@, all).1);
            direct(command)
        },
        Platform::Windows => {
            let mut wild = chars_of(name);
            wild.insert(0, '*');
            wild.push('*');
            assert(wild@ == seq!['*'] + name@ + seq!['*']);
            let mut script = String::from_str(
                "Get-ChildItem -Path Cert:\\CurrentUser\\Root | Where-Object { $_.Subject -like ",
            ).concat(ps_quote(string_of(&wild).as_str()).as_str()).concat(" }");
            if all {
                script = script.concat(
                    " | Format-List Subject, Thumbprint, NotAfter, NotBefore, Issuer",
                );
            }
            let command = CommandSpec::new("powershell").arg("-NoProfile").arg(
                "-NonInteractive",
            ).arg("-Command").arg(script.as_str());
            assert(command.arguments() == lookup_command(platform, name@, all).1);
            direct(command)
        },
    }
}

/// The command that tells whether the trust store holds a certificate
/// whose subject holds `name`. It runs without raised privileges.
pub fn cert_exist_on_keychain(platform: Platform, name: &str) -> (invocation: Invocation)
    ensures
        invocation.program@ == lookup_command(platform, name@, false).0,
        invocation.arguments() == lookup_command(platform, name@, false).1,
        invocation.input() is None,
{
    lookup(platform, name, false)
}

/// Whether the lookup found a certificate. On Unix the tool succeeds
/// exactly where it found one. On Windows it also has to have written
/// something other than white space. A lookup that failed, or could not
/// be started, found none.
pub fn cert_exists(platform: Platform, report: &ProcessReport) -> (found: bool)
    ensures
        found == match *report {
            ProcessReport::NotStarted { reason } => false,
            ProcessReport::Finished { success, stdout, stderr } => success && (platform
                == Platform::Unix || trim(stdout@).len() > 0),
        },
{
    match report {
        ProcessReport::NotStarted { reason } => false,
        ProcessReport::Finished { success, stdout, stderr } => {
            if !*success {
                false
            } else {
                match platform {
                    Platform::Unix => true,
                    Platform::Windows => trim_chars(&chars_of(stdout.as_str())).len() > 0,
                }
            }
        },
    }
}

/// The command that lists every certificate whose subject holds `name`,
/// with its fingerprint. It runs without raised privileges.
pub fn find_certificates(platform: Platform, name: &str) -> (invocation: Invocation)
    ensures
        invocation.program@ == lookup_command(platform, name@, true).0,
        invocation.arguments() == lookup_command(platform, name@, true).1,
        invocation.input() is None,
{
    lookup(platform, name, true)
}

/// What the listing command gave: its output as it is, or the failure of
/// the tool with its diagnostic text.
pub fn certificates_found(report: &ProcessReport) -> (listing: Result<String, EngineError>)
    ensures
        match (*report, listing) {
            (ProcessReport::NotStarted { reason }, Err(e)) => e.kind == ErrorKind::ToolUnavailable
                && e.detail@ == reason@,
            (ProcessReport::Finished { success, stdout, stderr }, Ok(text)) => success && text@
                == stdout@,
            (ProcessReport::Finished { success, stdout, stderr }, Err(e)) => !success && e.kind
                == ErrorKind::ToolUnavailable && e.detail@ == stderr@,
            _ => false,
        },
{
    translate(report, ErrorKind::ToolUnavailable)
}

/// The first step of removing a certificate by name: the command that
/// lists every certificate whose subject holds `name`. What it gives goes
/// to `resolve_fingerprint`.
pub fn remove_cert_from_keychain(platform: Platform, name: &str) -> (invocation: Invocation)
    ensures
        invocation.program@ == lookup_command(platform, name@, true).0,
        invocation.arguments() == lookup_command(platform, name@, true).1,
        invocation.input() is None,
{
    lookup(platform, name, true)
}

/// The one certificate that a name stands for. `listed` holds the
/// fingerprints that the lookup gave: exactly one is the answer, none
/// means that there is no such certificate, and more than one that the
/// name does not tell which. `listing` is attached to that last failure.
pub fn choose_fingerprint(listed: &Vec<String>, listing: &str) -> (chosen: Result<
    String,
    EngineError,
>)
    ensures
        match chosen {
            Ok(fingerprint) => listed.len() == 1 && fingerprint@ == listed@[0]@,
            Err(e) => if listed.len() == 0 {
                e.kind == ErrorKind::NotFound && e.detail@ == "Certificate not found"@
            } else {
                listed.len() > 1 && e.kind == ErrorKind::AmbiguousMatch && e.detail@ == listing@
            },
        },
{
    if listed.len() == 0 {
        Err(EngineError::new(ErrorKind::NotFound, String::from_str("Certificate not found")))
    } else if listed.len() == 1 {
        Ok(listed[0].clone())
    } else {
        Err(EngineError::new(ErrorKind::AmbiguousMatch, String::from_str(listing)))
    }
}

/// The second step of removing a certificate by name: from what the
/// lookup gave to the fingerprint of the one certificate to remove.
///
/// A lookup that could not be started is a missing tool; one that failed
/// found nothing. A listing with no fingerprint is `NotFound`, one with
/// more than one is `AmbiguousMatch`: the engine removes nothing rather
/// than guess.
pub fn resolve_fingerprint(platform: Platform, report: &ProcessReport) -> (chosen: Result<
    String,
    EngineError,
>)
    ensures
        match *report {
            ProcessReport::NotStarted { reason } => chosen matches Err(e) && e.kind
                == ErrorKind::ToolUnavailable && e.detail@ == reason@,
            ProcessReport::Finished { success, stdout, stderr } => {
                let listed = listed_fingerprints(platform, stdout@);
                if !success {
                    chosen matches Err(e) && e.kind == ErrorKind::NotFound && e.detail@ == stderr@
                } else if listed.len() == 0 {
                    chosen matches Err(e) && e.kind == ErrorKind::NotFound && e.detail@
                        == "Certificate not found"@
                } else if listed.len() == 1 {
                    chosen matches Ok(fingerprint) && fingerprint@ == listed[0]
                } else {
                    chosen matches Err(e) && e.kind == ErrorKind::AmbiguousMatch && e.detail@
                        == stdout@
                }
            },
        },
{
    match translate(report, ErrorKind::NotFound) {
        Err(e) => Err(e),
        Ok(listing) => {
            let listed = parse_fingerprints(platform, listing.as_str());
            proof {
                if listed.len() > 0 {
                    assert(texts(listed@)[0] == listed@[0]@);
                }
            }
            choose_fingerprint(&listed, listing.as_str())
        },
    }
}

/// The program and the arguments of the command that removes the
/// certificate with exactly the fingerprint `fingerprint`.
pub open spec fn removal_command(platform: Platform, fingerprint: Seq<char>) -> (
    Seq<char>,
    Seq<Seq<char>>,
) {
    match platform {
        Platform::Unix => ("security"@, seq!["delete-certificate"@, "-Z"@, fingerprint]),
        Platform::Windows => (
            elevated_program(platform),
            elevated_args(
                platform,
                "powershell"@,
                seq!["-NoProfile"@, "-Command"@, ps_remove_script(fingerprint)],
            ),
        ),
    }
}

/// The command that removes the certificate with exactly the fingerprint
/// `sha1`: on Unix the SHA-1 hash, on Windows the thumbprint. On Windows
/// it runs with raised privileges.
pub fn remove_cert_by_sha1(platform: Platform, sha1: &str) -> (invocation: Invocation)
    ensures
        invocation.program@ == removal_command(platform, sha1@).0,
        invocation.arguments() == removal_command(platform, sha1@).1,
        invocation.input() is None,
{
    match platform {
        Platform::Unix => {
            let command = CommandSpec::new("security").arg("delete-certificate").arg("-Z").arg(
                sha1,
            );
            assert(command.arguments() == removal_command(platform, sha1@).1);
            direct(command)
        },
        Platform::Windows => {
            let script = String::from_str(
                "$cert = Get-ChildItem -Path Cert:\\CurrentUser\\Root | Where-Object { $_.Thumbprint -eq ",
            ).concat(ps_quote(sha1).as_str()).concat(
                " }; if ($cert) { Remove-Item -Path $cert.PSPath -Force } else { exit 1 }",
            );
            let command = CommandSpec::new("powershell").arg("-NoProfile").arg("-Command").arg(
                script.as_str(),
            );
            assert(command.arguments() == seq![
                "-NoProfile"@,
                "-Command"@,
                ps_remove_script(sha1@),
            ]);
            elevate(platform, &command, "")
        },
    }
}

/// What the removal command gave: nothing where it succeeded, else the
/// failure with its diagnostic text. A removal that failed is `NotFound`.
pub fn cert_removed(report: &ProcessReport) -> (result: Result<(), EngineError>)
    ensures
        match (*report, result) {
            (ProcessReport::NotStarted { reason }, Err(e)) => e.kind == ErrorKind::ToolUnavailable
                && e.detail@ == reason@,
            (ProcessReport::Finished { success, stdout, stderr }, Ok(done)) => success,
            (ProcessReport::Finished { success, stdout, stderr }, Err(e)) => !success && e.kind
                == ErrorKind::NotFound && e.detail@ == stderr@,
            _ => false,
        },
{
    match translate(report, ErrorKind::NotFound) {
        Ok(text) => Ok(()),
        Err(e) => Err(e),
    }
}

/// The program and the arguments of the command that adds the
/// certificate file `path` to the trust store.
pub open spec fn import_command(platform: Platform, home: Seq<char>, path: Seq<char>) -> (
    Seq<char>,
    Seq<Seq<char>>,
) {
    match platform {
        Platform::Unix => (
            "security"@,
            seq!["add-trusted-cert"@, "-k"@, login_keychain(home), path],
        ),
        Platform::Windows => (
            elevated_program(platform),
            elevated_args(
                platform,
                "powershell"@,
                seq!["-NoProfile"@, "-Command"@, ps_import_script(path)],
            ),
        ),
    }
}

/// The command that adds the certificate file `pem_file_path` to the
/// trust store. On Unix the store is the login keychain under the home
/// directory, so the home directory has to be known: without it the
/// result is `NotFound`. On Windows the command runs with raised
/// privileges and the home directory plays no part.
pub fn add_cert_to_keychain(platform: Platform, home: Option<&str>, pem_file_path: &str) -> (step:
    Result<Invocation, EngineError>)
    ensures
        match step {
            Ok(invocation) => {
                let place = match home {
                    Some(dir) => dir@,
                    None => Seq::<char>::empty(),
                };
                &&& platform == Platform::Unix ==> home is Some
                &&& invocation.program@ == import_command(platform, place, pem_file_path@).0
                &&& invocation.arguments() == import_command(platform, place, pem_file_path@).1
                &&& invocation.input() is None
            },
            Err(e) => platform == Platform::Unix && home is None && e.kind == ErrorKind::NotFound
                && e.detail@ == "Home directory not found"@,
        },
{
    match platform {
        Platform::Unix => match home {
            None => Err(
                EngineError::new(ErrorKind::NotFound, String::from_str("Home directory not found")),
            ),
            Some(dir) => {
                let keychain = String::from_str(dir).concat("/Library/Keychains/login.keychain-db");
                let command = CommandSpec::new("security").arg("add-trusted-cert").arg("-k").arg(
                    keychain.as_str(),
                ).arg(pem_file_path);
                assert(command.arguments() == import_command(platform, dir@, pem_file_path@).1);
                Ok(direct(command))
            },
        },
        Platform::Windows => {
            let script = String::from_str("Import-Certificate -FilePath ").concat(
                ps_quote(pem_file_path).as_str(),
            ).concat(" -CertStoreLocation Cert:\\CurrentUser\\Root");
            let command = CommandSpec::new("powershell").arg("-NoProfile").arg("-Command").arg(
                script.as_str(),
            );
            assert(command.arguments() == seq![
                "-NoProfile"@,
                "-Command"@,
                ps_import_script(pem_file_path@),
            ]);
            Ok(elevate(platform, &command, ""))
        },
    }
}

/// What the import command gave: nothing where it succeeded, else the
/// failure with its diagnostic text. An import that failed is
/// `IoFailure`: the file was not there or could not be taken in.
pub fn cert_added(report: &ProcessReport) -> (result: Result<(), EngineError>)
    ensures
        match (*report, result) {
            (ProcessReport::NotStarted { reason }, Err(e)) => e.kind == ErrorKind::ToolUnavailable
                && e.detail@ == reason@,
            (ProcessReport::Finished { success, stdout, stderr }, Ok(done)) => success,
            (ProcessReport::Finished { success, stdout, stderr }, Err(e)) => !success && e.kind
                == ErrorKind::IoFailure && e.detail@ == stderr@,
            _ => false,
        },
{
    match translate(report, ErrorKind::IoFailure) {
        Ok(text) => Ok(()),
        Err(e) => Err(e),
    }
}

} // verus!

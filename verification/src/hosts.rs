//! The hosts file: finding a host name, telling whether it is mapped, and
//! working out the text that adds or removes its mapping.

use crate::error::{EngineError, ErrorKind};
use crate::pattern::{describe, escape, escaped, is_match, regex_compiles, regex_is_match};
use crate::text::{
    chars_of, concat, concat_chars, contains_chars, is_substring, line_text, line_text_chars,
    raw_lines, same_chars, split_raw_lines, split_text_lines, string_of, text_lines, texts, trim,
    trim_chars, views,
};
use vstd::prelude::*;

verus! {

/// A line of the hosts file in which a host name was found, with the lines
/// around it.
#[derive(Debug, Clone, PartialEq, Eq)]
pub struct HostsFileContext {
    /// The number of the line, counted from one.
    pub line_number: usize,
    /// The two lines before it, the line and the two lines after it, as far
    /// as the file has them.
    pub surrounding_lines: Vec<String>,
}

impl HostsFileContext {
    /// The surrounding lines as texts.
    pub open spec fn lines(&self) -> Seq<Seq<char>> {
        texts(self.surrounding_lines@)
    }
}

/// The line that maps `hostname` to the loopback address.
pub open spec fn canonical_line(hostname: Seq<char>) -> Seq<char> {
    "127.0.0.1 "@ + hostname
}

/// The line `at` is the first of `lines` that holds `needle`.
pub open spec fn is_first_match(lines: Seq<Seq<char>>, needle: Seq<char>, at: int) -> bool {
    &&& 0 <= at < lines.len()
    &&& is_substring(lines[at], needle)
    &&& forall|j: int| 0 <= j < at ==> !is_substring(#[trigger] lines[j], needle)
}

/// The lines around line `at`: two before it and two behind it, as far as
/// there are any.
pub open spec fn context_window(lines: Seq<Seq<char>>, at: int) -> Seq<Seq<char>> {
    lines.subrange(
        if at >= 2 { at - 2 } else { 0 },
        if at + 3 <= lines.len() { at + 3 } else { lines.len() as int },
    )
}

/// Some line says `line`, white space at either end of both set aside.
pub open spec fn line_present(lines: Seq<Seq<char>>, line: Seq<char>) -> bool {
    exists|i: int| 0 <= i < lines.len() && trim(#[trigger] lines[i]) == trim(line)
}

/// The line is a comment: its first character that is not white space is
/// a number sign.
pub open spec fn is_comment(line: Seq<char>) -> bool {
    trim(line).len() > 0 && trim(line)[0] == '#'
}

/// The line maps `hostname` to the loopback address: it is no comment and
/// says exactly the canonical line, white space at either end set aside.
pub open spec fn is_mapping_of(line: Seq<char>, hostname: Seq<char>) -> bool {
    !is_comment(line) && trim(line) == trim(canonical_line(hostname))
}

/// Some line maps `hostname` to the loopback address.
pub open spec fn host_mapped(lines: Seq<Seq<char>>, hostname: Seq<char>) -> bool {
    exists|i: int| 0 <= i < lines.len() && is_mapping_of(#[trigger] lines[i], hostname)
}

/// What has to be written behind `hosts` so that the canonical line of
/// `hostname` becomes a new last line: a line feed where the text does not
/// end with one, the line, and a line feed.
pub open spec fn appended_text(hosts: Seq<char>, hostname: Seq<char>) -> Seq<char> {
    let opening = if hosts.len() > 0 && hosts.last() != '\n' {
        seq!['\n']
    } else {
        Seq::<char>::empty()
    };
    opening + canonical_line(hostname) + seq!['\n']
}

/// The hosts file after `hostname` was added: unchanged where some line
/// says the canonical line already, else with that line at its end.
pub open spec fn after_add(hosts: Seq<char>, hostname: Seq<char>) -> Seq<char> {
    if line_present(text_lines(hosts), canonical_line(hostname)) {
        hosts
    } else {
        hosts + appended_text(hosts, hostname)
    }
}

/// The canonical line of `hostname`.
pub fn canonical_line_chars(hostname: &Vec<char>) -> (line: Vec<char>)
    ensures
        line@ == canonical_line(hostname@),
{
    let mut line = chars_of("127.0.0.1 ");
    let mut i: usize = 0;
    while i < hostname.len()
        invariant
            i <= hostname.len(),
            line@ == "127.0.0.1 "@ + hostname@.take(i as int),
        decreases hostname.len() - i,
    {
        line.push(hostname[i]);
        i += 1;
    }
    assert(hostname@.take(hostname.len() as int) == hostname@);
    line
}

/// Whether some line of `lines` says `line`, white space at either end of
/// both set aside.
pub fn line_present_chars(lines: &Vec<Vec<char>>, line: &Vec<char>) -> (found: bool)
    ensures
        found == line_present(views(lines@), line@),
{
    let wanted = trim_chars(line);
    let mut i: usize = 0;
    while i < lines.len()
        invariant
            i <= lines.len(),
            wanted@ == trim(line@),
            forall|j: int| 0 <= j < i ==> trim(#[trigger] views(lines@)[j]) != trim(line@),
        decreases lines.len() - i,
    {
        let here = trim_chars(&lines[i]);
        assert(views(lines@)[i as int] == lines@[i as int]@);
        if same_chars(&here, &wanted) {
            return true;
        }
        i += 1;
    }
    false
}

/// Whether some line of the hosts file says `line`, white space at either
/// end of both set aside. Comments count as lines.
pub fn host_line_exists(hosts: &str, line: &str) -> (found: bool)
    ensures
        found == line_present(text_lines(hosts@), line@),
{
    let lines = split_text_lines(&chars_of(hosts));
    line_present_chars(&lines, &chars_of(line))
}

/// Whether the hosts file maps `hostname` to the loopback address: some
/// line that is no comment says exactly the canonical line.
pub fn check_host_exists(hosts: &str, hostname: &str) -> (mapped: bool)
    ensures
        mapped == host_mapped(text_lines(hosts@), hostname@),
{
    let lines = split_text_lines(&chars_of(hosts));
    let wanted = trim_chars(&canonical_line_chars(&chars_of(hostname)));
    let mut i: usize = 0;
    while i < lines.len()
        invariant
            i <= lines.len(),
            views(lines@) == text_lines(hosts@),
            wanted@ == trim(canonical_line(hostname@)),
            forall|j: int| 0 <= j < i ==> !is_mapping_of(#[trigger] views(lines@)[j], hostname@),
        decreases lines.len() - i,
    {
        let here = trim_chars(&lines[i]);
        assert(views(lines@)[i as int] == lines@[i as int]@);
        let comment = here.len() > 0 && here[0] == '#';
        if !comment && same_chars(&here, &wanted) {
            return true;
        }
        i += 1;
    }
    false
}

/// Finds the first line of the hosts file that holds `hostname` and gives
/// its number with the lines around it. Fails with `NotFound` where no
/// line holds it.
pub fn get_hosts_file_context(hosts: &str, hostname: &str) -> (found: Result<
    HostsFileContext,
    EngineError,
>)
    ensures
        match found {
            Ok(context) => {
                &&& is_first_match(text_lines(hosts@), hostname@, context.line_number - 1)
                &&& context.lines() == context_window(
                    text_lines(hosts@),
                    context.line_number - 1,
                )
                &&& context.surrounding_lines.len() <= 5
            },
            Err(e) => {
                &&& e.kind == ErrorKind::NotFound
                &&& e.detail@ == "Hostname not found in hosts file"@
                &&& forall|j: int|
                    0 <= j < text_lines(hosts@).len() ==> !is_substring(
                        #[trigger] text_lines(hosts@)[j],
                        hostname@,
                    )
            },
        },
{
    let lines = split_text_lines(&chars_of(hosts));
    let needle = chars_of(hostname);
    let n: usize = lines.len();
    let mut at: usize = 0;
    while at < n
        invariant
            at <= n == lines.len(),
            views(lines@) == text_lines(hosts@),
            needle@ == hostname@,
            forall|j: int| 0 <= j < at ==> !is_substring(#[trigger] views(lines@)[j], hostname@),
        decreases n - at,
    {
        assert(views(lines@)[at as int] == lines@[at as int]@);
        if contains_chars(&lines[at], &needle) {
            let from: usize = if at >= 2 { at - 2 } else { 0 };
            let to: usize = if n - at >= 3 { at + 3 } else { n };
            let mut around: Vec<String> = Vec::new();
            let mut i: usize = from;
            while i < to
                invariant
                    from <= i <= to <= lines.len(),
                    texts(around@) == views(lines@).subrange(from as int, i as int),
                decreases to - i,
            {
                let line = string_of(&lines[i]);
                proof {
                    assert(views(lines@)[i as int] == lines@[i as int]@);
                    let longer = texts(around@.push(line));
                    let wanted = views(lines@).subrange(from as int, i as int + 1);
                    assert(texts(around@).len() == around@.len());
                    assert(longer.len() == wanted.len());
                    assert forall|k: int| 0 <= k < longer.len() implies longer[k] == wanted[k] by {
                        if k < around.len() {
                            assert(longer[k] == texts(around@)[k]);
                        } else {
                            assert(longer[k] == line@);
                        }
                    }
                    assert(longer =~= wanted);
                }
                around.push(line);
                i += 1;
            }
            assert(texts(around@).len() == around.len());
            return Ok(HostsFileContext { line_number: at + 1, surrounding_lines: around });
        }
        at += 1;
    }
    Err(
        EngineError::new(ErrorKind::NotFound, String::from_str("Hostname not found in hosts file")),
    )
}

/// Works out what adding `hostname` takes. Where some line of the hosts
/// file says the canonical line already, nothing is to be done and the
/// result is `None`. Else it is the text to write behind the file.
pub fn add_line_to_hosts(hosts: &str, hostname: &str) -> (addition: Option<String>)
    ensures
        addition is None <==> line_present(text_lines(hosts@), canonical_line(hostname@)),
        addition matches Some(text) ==> text@ == appended_text(hosts@, hostname@),
        match addition {
            Some(text) => hosts@ + text@ == after_add(hosts@, hostname@),
            None => hosts@ == after_add(hosts@, hostname@),
        },
{
    let text = chars_of(hosts);
    let line = canonical_line_chars(&chars_of(hostname));
    let lines = split_text_lines(&text);
    if line_present_chars(&lines, &line) {
        return None;
    }
    let mut appended: Vec<char> = Vec::new();
    if text.len() > 0 && text[text.len() - 1] != '\n' {
        appended.push('\n');
    }
    let ghost opening = appended@;
    let mut i: usize = 0;
    while i < line.len()
        invariant
            i <= line.len(),
            appended@ == opening + line@.take(i as int),
        decreases line.len() - i,
    {
        appended.push(line[i]);
        i += 1;
    }
    assert(line@.take(line.len() as int) == line@);
    appended.push('\n');
    Some(string_of(&appended))
}

/// The pattern of the lines that map `hostname`: the loopback address at
/// the start of the line, any run of white space, and the host name,
/// quoted so that it stands for itself, at the end of the line.
pub open spec fn removal_pattern(hostname: Seq<char>) -> Seq<char> {
    "^127\\.0\\.0\\.1[[:space:]]*"@ + escaped(hostname) + "$"@
}

/// The lines of `raw` that stay: line `i` goes where `doomed` has an entry
/// for it and that entry is true.
pub open spec fn kept_lines(raw: Seq<Seq<char>>, doomed: Seq<bool>) -> Seq<Seq<char>>
    decreases raw.len(),
{
    if raw.len() == 0 {
        Seq::empty()
    } else {
        let head = kept_lines(raw.drop_last(), doomed);
        if raw.len() <= doomed.len() && doomed[raw.len() - 1] {
            head
        } else {
            head.push(raw.last())
        }
    }
}

/// The hosts file without the lines that `doomed` marks. A line goes with
/// its line feed; every other character stays as it is.
pub open spec fn without_lines(hosts: Seq<char>, doomed: Seq<bool>) -> Seq<char> {
    concat(kept_lines(raw_lines(hosts), doomed))
}

/// For each line of the hosts file, whether the removal pattern of
/// `hostname` matches what the line says.
pub open spec fn doomed_lines(hosts: Seq<char>, hostname: Seq<char>) -> Seq<bool> {
    Seq::new(
        raw_lines(hosts).len(),
        |i: int| regex_is_match(removal_pattern(hostname), line_text(raw_lines(hosts)[i])),
    )
}

/// The hosts file after `hostname` was removed: without every line that
/// the removal pattern of `hostname` matches.
pub open spec fn after_delete(hosts: Seq<char>, hostname: Seq<char>) -> Seq<char> {
    without_lines(hosts, doomed_lines(hosts, hostname))
}

/// The removal pattern of `hostname`.
pub fn removal_pattern_of(hostname: &str) -> (pattern: String)
    ensures
        pattern@ == removal_pattern(hostname@),
{
    let quoted = escape(hostname);
    String::from_str("^127\\.0\\.0\\.1[[:space:]]*").concat(quoted.as_str()).concat("$")
}

/// The lines of `raw` that `doomed` does not mark.
pub fn keep_lines(raw: &Vec<Vec<char>>, doomed: &Vec<bool>) -> (kept: Vec<Vec<char>>)
    ensures
        views(kept@) == kept_lines(views(raw@), doomed@),
{
    let mut kept: Vec<Vec<char>> = Vec::new();
    let mut i: usize = 0;
    assert(views(raw@).take(0) == Seq::<Seq<char>>::empty());
    while i < raw.len()
        invariant
            i <= raw.len(),
            views(kept@) == kept_lines(views(raw@).take(i as int), doomed@),
        decreases raw.len() - i,
    {
        let ghost head = views(raw@).take(i as int + 1);
        proof {
            assert(head.drop_last() == views(raw@).take(i as int));
            assert(head.last() == raw@[i as int]@);
        }
        if !(i < doomed.len() && doomed[i]) {
            let line = raw[i].clone();
            assert(line@ == raw@[i as int]@);
            assert(views(kept@.push(line)) == views(kept@).push(line@));
            kept.push(line);
        }
        i += 1;
    }
    assert(views(raw@).take(raw.len() as int) == views(raw@));
    kept
}

/// The hosts file without the lines that `doomed` marks: line `i` goes
/// where `doomed` has an entry for it and that entry is true. A line goes
/// with its line feed; every other character stays as it is.
pub fn remove_lines(hosts: &str, doomed: &Vec<bool>) -> (text: String)
    ensures
        text@ == without_lines(hosts@, doomed@),
{
    let raw = split_raw_lines(&chars_of(hosts));
    let kept = keep_lines(&raw, doomed);
    string_of(&concat_chars(&kept))
}

/// Whether the mapping of `hostname` can be removed from the hosts file:
/// the file has no line to ask about, or the pattern engine accepts the
/// removal pattern.
pub open spec fn removal_possible(hosts: Seq<char>, hostname: Seq<char>) -> bool {
    raw_lines(hosts).len() == 0 || regex_compiles(removal_pattern(hostname))
}

/// Works out the hosts file without the mapping of `hostname`: every line
/// that the removal pattern matches goes, all of them and not just the
/// first. Where none matches, the text comes back unchanged. It succeeds
/// wherever the removal is possible, and fails with `ToolUnavailable`
/// exactly where the pattern engine refuses the pattern.
pub fn find_and_delete_line_hosts(hosts: &str, hostname: &str) -> (edited: Result<
    String,
    EngineError,
>)
    ensures
        edited is Ok <==> removal_possible(hosts@, hostname@),
        edited matches Ok(text) ==> text@ == after_delete(hosts@, hostname@),
        edited matches Err(e) ==> e.kind == ErrorKind::ToolUnavailable,
{
    let pattern = removal_pattern_of(hostname);
    let raw = split_raw_lines(&chars_of(hosts));
    let mut doomed: Vec<bool> = Vec::new();
    let mut i: usize = 0;
    while i < raw.len()
        invariant
            i <= raw.len(),
            views(raw@) == raw_lines(hosts@),
            pattern@ == removal_pattern(hostname@),
            doomed@ == doomed_lines(hosts@, hostname@).take(i as int),
            i > 0 ==> regex_compiles(pattern@),
        decreases raw.len() - i,
    {
        let said = string_of(&line_text_chars(&raw[i]));
        assert(views(raw@)[i as int] == raw@[i as int]@);
        match is_match(pattern.as_str(), said.as_str()) {
            Ok(found) => {
                assert(doomed@.push(found) == doomed_lines(hosts@, hostname@).take(i as int + 1));
                doomed.push(found);
            },
            Err(e) => {
                return Err(EngineError::new(ErrorKind::ToolUnavailable, describe(&e)));
            },
        }
        i += 1;
    }
    assert(views(raw@).len() == raw.len());
    assert(doomed@ == doomed_lines(hosts@, hostname@));
    Ok(remove_lines(hosts, &doomed))
}

} // verus!

//! What holds of the edits of the hosts file, whatever the file and the
//! host name.

use crate::hosts::{
    after_add, after_delete, appended_text, canonical_line, doomed_lines, host_mapped, is_comment,
    is_mapping_of, kept_lines, line_present, removal_pattern, without_lines,
};
use crate::pattern::regex_is_match;
use crate::text::{
    concat, is_whitespace, lemma_concat_prepend, lemma_concat_raw_lines, lemma_line_end_append,
    lemma_line_end_bounds, lemma_line_end_is_first_feed, lemma_line_end_scan,
    lemma_raw_lines_append, lemma_trim_bounds, lemma_trim_is, line_end, line_text, raw_lines,
    text_lines, trim,
};
use vstd::prelude::*;

verus! {

/// A text is one line: it is not empty and holds no line feed before its
/// last character.
pub open spec fn is_line(line: Seq<char>) -> bool {
    line.len() > 0 && forall|j: int| 0 <= j < line.len() - 1 ==> line[j] != '\n'
}

/// The texts are the lines of one text: each is one line, and each but the
/// last ends with a line feed.
pub open spec fn are_lines(lines: Seq<Seq<char>>) -> bool {
    forall|i: int|
        0 <= i < lines.len() ==> is_line(#[trigger] lines[i]) && (i < lines.len() - 1
            ==> lines[i].last() == '\n')
}

/// The canonical line begins with the digit one, which is neither white
/// space nor a number sign.
pub proof fn lemma_canonical_line_begins(hostname: Seq<char>)
    ensures
        canonical_line(hostname).len() > 0,
        canonical_line(hostname)[0] == '1',
        !is_whitespace(canonical_line(hostname)[0]),
{
    reveal_strlit("127.0.0.1 ");
    assert("127.0.0.1 "@[0] == '1');
}

/// The lines of a text are lines.
pub proof fn lemma_raw_lines_are_lines(s: Seq<char>)
    ensures
        are_lines(raw_lines(s)),
        raw_lines(s).len() > 0 <==> s.len() > 0,
    decreases s.len(),
{
    if s.len() > 0 {
        lemma_line_end_bounds(s);
        lemma_line_end_is_first_feed(s);
        let k = line_end(s) as int;
        let first = s.take(k);
        let rest = raw_lines(s.skip(k));
        lemma_raw_lines_are_lines(s.skip(k));
        let all = seq![first] + rest;
        assert(is_line(first));
        assert forall|i: int| 0 <= i < all.len() implies is_line(#[trigger] all[i]) && (i
            < all.len() - 1 ==> all[i].last() == '\n') by {
            if i > 0 {
                assert(all[i] == rest[i - 1]);
            } else if all.len() > 1 {
                assert(first.last() == s[k - 1]);
            }
        }
    }
}

/// Lines put together and split again are the same lines.
pub proof fn lemma_lines_of_concat(lines: Seq<Seq<char>>)
    requires
        are_lines(lines),
    ensures
        raw_lines(concat(lines)) == lines,
    decreases lines.len(),
{
    if lines.len() > 0 {
        let first = lines[0];
        let rest = lines.drop_first();
        assert(lines == seq![first] + rest);
        lemma_concat_prepend(first, rest);
        assert(is_line(first));
        assert forall|i: int| 0 <= i < rest.len() implies is_line(#[trigger] rest[i]) && (i
            < rest.len() - 1 ==> rest[i].last() == '\n') by {
            assert(rest[i] == lines[i + 1]);
        }
        lemma_lines_of_concat(rest);
        let whole = first + concat(rest);
        let n = first.len() as int;
        if first.last() == '\n' {
            lemma_line_end_scan(first, n - 1);
            lemma_line_end_append(first, concat(rest));
        } else {
            assert(rest.len() == 0);
            assert(concat(rest) == Seq::<char>::empty());
            assert(whole == first);
            lemma_line_end_scan(first, n);
        }
        assert(line_end(whole) == n);
        assert(whole.take(n) == first);
        assert(whole.skip(n) == concat(rest));
    } else {
        assert(concat(lines) == Seq::<char>::empty());
    }
}

/// Each line that stays is a line that was there and was not marked, and
/// the lines that stay are lines again.
pub proof fn lemma_kept_lines(raw: Seq<Seq<char>>, doomed: Seq<bool>)
    requires
        are_lines(raw),
    ensures
        are_lines(kept_lines(raw, doomed)),
        forall|k: int|
            0 <= k < kept_lines(raw, doomed).len() ==> exists|i: int|
                0 <= i < raw.len() && raw[i] == #[trigger] kept_lines(raw, doomed)[k] && !(i
                    < doomed.len() && doomed[i]),
    decreases raw.len(),
{
    if raw.len() > 0 {
        let shorter = raw.drop_last();
        assert forall|i: int| 0 <= i < shorter.len() implies is_line(#[trigger] shorter[i])
            && shorter[i].last() == '\n' by {
            assert(shorter[i] == raw[i]);
        }
        lemma_kept_lines(shorter, doomed);
        let head = kept_lines(shorter, doomed);
        let kept = kept_lines(raw, doomed);
        assert forall|k: int| 0 <= k < head.len() implies head[k].last() == '\n' && (exists|i: int|
            0 <= i < raw.len() && raw[i] == #[trigger] head[k] && !(i < doomed.len()
                && doomed[i])) by {
            let i = choose|i: int|
                0 <= i < shorter.len() && shorter[i] == head[k] && !(i < doomed.len()
                    && doomed[i]);
            assert(raw[i] == shorter[i]);
        }
        assert forall|k: int| 0 <= k < kept.len() implies (exists|i: int|
            0 <= i < raw.len() && raw[i] == #[trigger] kept[k] && !(i < doomed.len() && doomed[i]))
            && is_line(kept[k]) && (k < kept.len() - 1 ==> kept[k].last() == '\n') by {
            if k < head.len() {
                assert(kept[k] == head[k]);
            } else {
                assert(kept[k] == raw[raw.len() - 1]);
            }
        }
    }
}

/// Where no line is marked, every line stays.
pub proof fn lemma_kept_lines_unmarked(raw: Seq<Seq<char>>, doomed: Seq<bool>)
    requires
        forall|i: int| 0 <= i < raw.len() && i < doomed.len() ==> !doomed[i],
    ensures
        kept_lines(raw, doomed) == raw,
    decreases raw.len(),
{
    if raw.len() > 0 {
        lemma_kept_lines_unmarked(raw.drop_last(), doomed);
        assert(raw.drop_last().push(raw.last()) == raw);
    }
}

/// Removing no line leaves the hosts file as it is, character for
/// character.
pub proof fn lemma_without_no_line(hosts: Seq<char>, doomed: Seq<bool>)
    requires
        forall|i: int| 0 <= i < raw_lines(hosts).len() && i < doomed.len() ==> !doomed[i],
    ensures
        without_lines(hosts, doomed) == hosts,
{
    lemma_kept_lines_unmarked(raw_lines(hosts), doomed);
    lemma_concat_raw_lines(hosts);
}

/// Removing a host name that no line of the hosts file matches leaves the
/// file as it is, character for character. The removal itself succeeds
/// wherever it is possible, whether a line matches or not: that is what
/// `find_and_delete_line_hosts` ensures.
pub proof fn lemma_delete_absent(hosts: Seq<char>, hostname: Seq<char>)
    requires
        forall|i: int|
            0 <= i < raw_lines(hosts).len() ==> !regex_is_match(
                removal_pattern(hostname),
                line_text(#[trigger] raw_lines(hosts)[i]),
            ),
    ensures
        after_delete(hosts, hostname) == hosts,
{
    let doomed = doomed_lines(hosts, hostname);
    assert forall|i: int| 0 <= i < raw_lines(hosts).len() && i < doomed.len() implies !doomed[i] by {
        assert(!regex_is_match(removal_pattern(hostname), line_text(raw_lines(hosts)[i])));
    }
    lemma_without_no_line(hosts, doomed);
}

/// After a host name was removed it is no longer mapped, provided the
/// removal pattern matches every line that maps it.
pub proof fn lemma_delete_then_not_mapped(hosts: Seq<char>, hostname: Seq<char>)
    requires
        forall|i: int|
            0 <= i < raw_lines(hosts).len() && is_mapping_of(
                line_text(#[trigger] raw_lines(hosts)[i]),
                hostname,
            ) ==> regex_is_match(removal_pattern(hostname), line_text(raw_lines(hosts)[i])),
    ensures
        !host_mapped(text_lines(after_delete(hosts, hostname)), hostname),
{
    let raw = raw_lines(hosts);
    let doomed = doomed_lines(hosts, hostname);
    let kept = kept_lines(raw, doomed);
    lemma_raw_lines_are_lines(hosts);
    lemma_kept_lines(raw, doomed);
    lemma_lines_of_concat(kept);
    let after = text_lines(after_delete(hosts, hostname));
    assert(raw_lines(after_delete(hosts, hostname)) == kept);
    assert forall|k: int| 0 <= k < after.len() implies !is_mapping_of(
        #[trigger] after[k],
        hostname,
    ) by {
        assert(after[k] == line_text(kept[k]));
        let i = choose|i: int|
            0 <= i < raw.len() && raw[i] == kept[k] && !(i < doomed.len() && doomed[i]);
        assert(!doomed[i]);
        assert(!regex_is_match(removal_pattern(hostname), line_text(raw[i])));
    }
}

/// Behind the text that adding a host name appends, the hosts file holds
/// the canonical line, provided the line holds no line feed between its
/// first and its last character that is no white space.
pub proof fn lemma_appended_line_present(hosts: Seq<char>, hostname: Seq<char>)
    requires
        !trim(canonical_line(hostname)).contains('\n'),
    ensures
        line_present(
            text_lines(hosts + appended_text(hosts, hostname)),
            canonical_line(hostname),
        ),
{
    let c = canonical_line(hostname);
    lemma_canonical_line_begins(hostname);
    let (a, b) = lemma_trim_bounds(c);
    assert(a == 0);
    assert(c.subrange(0, b) == c.take(b));
    assert forall|j: int| 0 <= j < b implies c[j] != '\n' by {
        if c[j] == '\n' {
            assert(trim(c)[j] == '\n');
        }
    }
    let x = c + seq!['\n'];
    lemma_line_end_bounds(x);
    lemma_line_end_is_first_feed(x);
    let e = line_end(x) as int;
    assert(x[e - 1] == '\n');
    if e - 1 < b {
        assert(x[e - 1] == c[e - 1]);
    }
    let r = x.take(e);
    let body = r.drop_last();
    assert(body == c.take(e - 1));
    let m: int = if body.len() > 0 && body.last() == '\r' {
        e - 2
    } else {
        e - 1
    };
    if body.len() > 0 && body.last() == '\r' {
        assert(body.last() == c[e - 2]);
        assert(is_whitespace('\r'));
        assert(body.drop_last() == c.take(e - 2));
    }
    let said = line_text(r);
    assert(said == c.take(m));
    assert(b <= m <= c.len());
    lemma_trim_is(said, 0, b);
    assert(said.subrange(0, b) == c.take(b));
    assert(trim(said) == trim(c));
    let opening = if hosts.len() > 0 && hosts.last() != '\n' {
        seq!['\n']
    } else {
        Seq::<char>::empty()
    };
    let before = hosts + opening;
    assert(hosts + appended_text(hosts, hostname) == before + x);
    lemma_raw_lines_append(before, x);
    let at = raw_lines(before).len() as int;
    let lines = text_lines(before + x);
    assert(raw_lines(x)[0] == r);
    assert(raw_lines(before + x)[at] == r);
    assert(lines[at] == said);
}

/// Adding a host name a second time changes nothing: what the first
/// addition gave stays as it is, character for character. This holds for
/// a host name whose canonical line holds no line feed between its first
/// and its last character that is no white space.
pub proof fn lemma_add_twice(hosts: Seq<char>, hostname: Seq<char>)
    requires
        !trim(canonical_line(hostname)).contains('\n'),
    ensures
        line_present(text_lines(after_add(hosts, hostname)), canonical_line(hostname)),
        after_add(after_add(hosts, hostname), hostname) == after_add(hosts, hostname),
{
    if !line_present(text_lines(hosts), canonical_line(hostname)) {
        lemma_appended_line_present(hosts, hostname);
    }
}

/// After a host name was added it is mapped, for a host name whose
/// canonical line holds no line feed between its first and its last
/// character that is no white space.
pub proof fn lemma_add_then_mapped(hosts: Seq<char>, hostname: Seq<char>)
    requires
        !trim(canonical_line(hostname)).contains('\n'),
    ensures
        host_mapped(text_lines(after_add(hosts, hostname)), hostname),
{
    lemma_add_twice(hosts, hostname);
    let c = canonical_line(hostname);
    let lines = text_lines(after_add(hosts, hostname));
    let i = choose|i: int| 0 <= i < lines.len() && trim(#[trigger] lines[i]) == trim(c);
    lemma_canonical_line_begins(hostname);
    let (a, b) = lemma_trim_bounds(c);
    assert(trim(c)[0] == c[0]);
    assert(!is_comment(lines[i]));
    assert(is_mapping_of(lines[i], hostname));
}

} // verus!

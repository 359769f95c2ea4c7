//! Text as sequences of characters: white space, trimming, substring
//! search and the conversion between strings and character vectors.

use vstd::prelude::*;

verus! {

/// The characters that Unicode counts as white space (`White_Space`).
pub open spec fn is_whitespace(c: char) -> bool {
    let n = c as u32;
    ||| 0x09 <= n <= 0x0D
    ||| n == 0x20
    ||| n == 0x85
    ||| n == 0xA0
    ||| n == 0x1680
    ||| 0x2000 <= n <= 0x200A
    ||| n == 0x2028
    ||| n == 0x2029
    ||| n == 0x202F
    ||| n == 0x205F
    ||| n == 0x3000
}

/// `s` without its leading white space.
pub open spec fn trim_start(s: Seq<char>) -> Seq<char>
    decreases s.len(),
{
    if s.len() > 0 && is_whitespace(s[0]) {
        trim_start(s.drop_first())
    } else {
        s
    }
}

/// `s` without its trailing white space.
pub open spec fn trim_end(s: Seq<char>) -> Seq<char>
    decreases s.len(),
{
    if s.len() > 0 && is_whitespace(s.last()) {
        trim_end(s.drop_last())
    } else {
        s
    }
}

/// `s` without leading and trailing white space.
pub open spec fn trim(s: Seq<char>) -> Seq<char> {
    trim_end(trim_start(s))
}

/// `needle` occurs in `hay` at position `at`.
pub open spec fn occurs_at(hay: Seq<char>, needle: Seq<char>, at: int) -> bool {
    &&& 0 <= at
    &&& at + needle.len() <= hay.len()
    &&& hay.subrange(at, at + needle.len()) == needle
}

/// `needle` occurs somewhere in `hay`.
pub open spec fn is_substring(hay: Seq<char>, needle: Seq<char>) -> bool {
    exists|at: int| occurs_at(hay, needle, at)
}

/// The end of the first line of `s`: the position just behind its first
/// line feed, or the length of `s` where it holds none.
pub open spec fn line_end(s: Seq<char>) -> nat
    decreases s.len(),
{
    if s.len() == 0 {
        0
    } else if s[0] == '\n' {
        1
    } else {
        1 + line_end(s.drop_first())
    }
}

/// The lines of `s`, each with its line feed. Only the last line can be
/// without one, no line is empty, and the lines put together give `s`.
pub open spec fn raw_lines(s: Seq<char>) -> Seq<Seq<char>>
    decreases s.len(),
    via raw_lines_terminates
{
    if s.len() == 0 {
        Seq::empty()
    } else {
        seq![s.take(line_end(s) as int)] + raw_lines(s.skip(line_end(s) as int))
    }
}

#[via_fn]
proof fn raw_lines_terminates(s: Seq<char>) {
    if s.len() > 0 {
        lemma_line_end_bounds(s);
    }
}

/// The first line of a text that is not empty is not empty, and lies
/// within the text.
pub proof fn lemma_line_end_bounds(s: Seq<char>)
    requires
        s.len() > 0,
    ensures
        0 < line_end(s) <= s.len(),
    decreases s.len(),
{
    if s[0] != '\n' {
        if s.len() > 1 {
            lemma_line_end_bounds(s.drop_first());
        } else {
            assert(line_end(s.drop_first()) == 0);
        }
    }
}

/// What a line says: the line without its line feed, and without the
/// carriage return before that line feed if there is one.
pub open spec fn line_text(raw: Seq<char>) -> Seq<char> {
    if raw.len() > 0 && raw.last() == '\n' {
        let body = raw.drop_last();
        if body.len() > 0 && body.last() == '\r' {
            body.drop_last()
        } else {
            body
        }
    } else {
        raw
    }
}

/// The lines of `s` as a reader sees them, without their line endings.
pub open spec fn text_lines(s: Seq<char>) -> Seq<Seq<char>> {
    raw_lines(s).map_values(|raw: Seq<char>| line_text(raw))
}

/// All of `parts` put together, in order.
pub open spec fn concat(parts: Seq<Seq<char>>) -> Seq<char>
    decreases parts.len(),
{
    if parts.len() == 0 {
        Seq::empty()
    } else {
        concat(parts.drop_last()) + parts.last()
    }
}

/// What a vector of character vectors holds.
pub open spec fn views(lines: Seq<Vec<char>>) -> Seq<Seq<char>> {
    lines.map_values(|line: Vec<char>| line@)
}

/// What a vector of strings holds.
pub open spec fn texts(lines: Seq<String>) -> Seq<Seq<char>> {
    lines.map_values(|line: String| line@)
}

/// Whether `c` is white space.
pub fn char_is_whitespace(c: char) -> (b: bool)
    ensures
        b == is_whitespace(c),
{
    let n: u32 = c as u32;
    (0x09 <= n && n <= 0x0D) || n == 0x20 || n == 0x85 || n == 0xA0 || n == 0x1680 || (0x2000 <= n
        && n <= 0x200A) || n == 0x2028 || n == 0x2029 || n == 0x202F || n == 0x205F || n == 0x3000
}

/// The characters of `v` from position `from` up to `to`.
pub fn slice_chars(v: &Vec<char>, from: usize, to: usize) -> (r: Vec<char>)
    requires
        from <= to <= v.len(),
    ensures
        r@ == v@.subrange(from as int, to as int),
{
    let mut r: Vec<char> = Vec::new();
    let mut i: usize = from;
    while i < to
        invariant
            from <= i <= to <= v.len(),
            r@ == v@.subrange(from as int, i as int),
        decreases to - i,
    {
        r.push(v[i]);
        i += 1;
    }
    r
}

/// `v` without leading and trailing white space.
pub fn trim_chars(v: &Vec<char>) -> (r: Vec<char>)
    ensures
        r@ == trim(v@),
{
    let n: usize = v.len();
    let mut start: usize = 0;
    assert(v@ == v@.subrange(0, n as int));
    while start < n && char_is_whitespace(v[start])
        invariant
            start <= n == v.len(),
            trim_start(v@) == trim_start(v@.subrange(start as int, n as int)),
        decreases n - start,
    {
        assert(v@.subrange(start as int, n as int).drop_first() == v@.subrange(
            start as int + 1,
            n as int,
        ));
        start += 1;
    }
    let mut end: usize = n;
    while end > start && char_is_whitespace(v[end - 1])
        invariant
            start <= end <= n == v.len(),
            trim(v@) == trim_end(v@.subrange(start as int, end as int)),
        decreases end - start,
    {
        assert(v@.subrange(start as int, end as int).drop_last() == v@.subrange(
            start as int,
            end as int - 1,
        ));
        end -= 1;
    }
    slice_chars(v, start, end)
}

/// Whether `needle` stands in `hay` at position `at`.
pub fn occurs_at_chars(hay: &Vec<char>, needle: &Vec<char>, at: usize) -> (b: bool)
    requires
        at + needle.len() <= hay.len(),
    ensures
        b == occurs_at(hay@, needle@, at as int),
{
    let mut i: usize = 0;
    while i < needle.len()
        invariant
            i <= needle.len(),
            at + needle.len() <= hay.len(),
            forall|j: int| 0 <= j < i ==> hay@[at + j] == needle@[j],
        decreases needle.len() - i,
    {
        if hay[at + i] != needle[i] {
            assert(hay@.subrange(at as int, at + needle.len())[i as int] == hay@[at + i]);
            return false;
        }
        i += 1;
    }
    assert(hay@.subrange(at as int, at + needle.len()) =~= needle@);
    true
}

/// Whether `needle` occurs somewhere in `hay`.
pub fn contains_chars(hay: &Vec<char>, needle: &Vec<char>) -> (b: bool)
    ensures
        b == is_substring(hay@, needle@),
{
    if needle.len() > hay.len() {
        return false;
    }
    let last: usize = hay.len() - needle.len();
    let mut at: usize = 0;
    while at < last
        invariant
            last + needle.len() == hay.len(),
            at <= last,
            forall|k: int| 0 <= k < at ==> !occurs_at(hay@, needle@, k),
        decreases last - at,
    {
        if occurs_at_chars(hay, needle, at) {
            return true;
        }
        at += 1;
    }
    occurs_at_chars(hay, needle, last)
}

/// Where a text holds no line feed before position `k`, and ends or holds
/// one there, its first line ends at `k`, the line feed counted in.
pub proof fn lemma_line_end_scan(t: Seq<char>, k: int)
    requires
        0 <= k <= t.len(),
        forall|j: int| 0 <= j < k ==> t[j] != '\n',
        k < t.len() ==> t[k] == '\n',
    ensures
        line_end(t) == if k < t.len() { k + 1 } else { k },
    decreases k,
{
    if k > 0 {
        let rest = t.drop_first();
        assert forall|j: int| 0 <= j < k - 1 implies rest[j] != '\n' by {
            assert(rest[j] == t[j + 1]);
        }
        lemma_line_end_scan(rest, k - 1);
    }
}

/// Putting a part in front of others puts its text in front of theirs.
pub proof fn lemma_concat_prepend(first: Seq<char>, rest: Seq<Seq<char>>)
    ensures
        concat(seq![first] + rest) == first + concat(rest),
    decreases rest.len(),
{
    let all = seq![first] + rest;
    if rest.len() == 0 {
        assert(all.drop_last() == Seq::<Seq<char>>::empty());
        assert(concat(all.drop_last()) == Seq::<char>::empty());
        assert(concat(all) == first);
        assert(first + concat(rest) == first);
    } else {
        assert(all.drop_last() == seq![first] + rest.drop_last());
        assert(all.last() == rest.last());
        lemma_concat_prepend(first, rest.drop_last());
        assert(first + concat(rest.drop_last()) + rest.last() == first + (concat(rest.drop_last())
            + rest.last()));
    }
}

/// The lines of a text, put together again, are the text.
pub proof fn lemma_concat_raw_lines(s: Seq<char>)
    ensures
        concat(raw_lines(s)) == s,
    decreases s.len(),
{
    if s.len() > 0 {
        lemma_line_end_bounds(s);
        let k = line_end(s) as int;
        lemma_concat_raw_lines(s.skip(k));
        lemma_concat_prepend(s.take(k), raw_lines(s.skip(k)));
        assert(s.take(k) + s.skip(k) == s);
    }
}

/// The lines of `v`, each with its line feed.
pub fn split_raw_lines(v: &Vec<char>) -> (lines: Vec<Vec<char>>)
    ensures
        views(lines@) == raw_lines(v@),
{
    let n: usize = v.len();
    let mut lines: Vec<Vec<char>> = Vec::new();
    let mut start: usize = 0;
    assert(v@.skip(0) == v@);
    assert(views(lines@) + raw_lines(v@) == raw_lines(v@));
    while start < n
        invariant
            start <= n == v.len(),
            raw_lines(v@) == views(lines@) + raw_lines(v@.skip(start as int)),
        decreases n - start,
    {
        let mut end: usize = start;
        while end < n && v[end] != '\n'
            invariant
                start <= end <= n == v.len(),
                forall|j: int| start <= j < end ==> v@[j] != '\n',
            decreases n - end,
        {
            end += 1;
        }
        let ghost rest = v@.skip(start as int);
        proof {
            lemma_line_end_scan(rest, end - start);
        }
        if end < n {
            end += 1;
        }
        let line = slice_chars(v, start, end);
        proof {
            let k = end - start;
            assert(line_end(rest) == k);
            assert(rest.take(k) == line@);
            assert(rest.skip(k) == v@.skip(end as int));
            assert(views(lines@.push(line)) == views(lines@) + seq![line@]);
            assert(views(lines@) + (seq![line@] + raw_lines(v@.skip(end as int))) == views(
                lines@,
            ) + seq![line@] + raw_lines(v@.skip(end as int)));
        }
        lines.push(line);
        start = end;
    }
    assert(raw_lines(v@.skip(start as int)) == Seq::<Seq<char>>::empty());
    assert(views(lines@) + Seq::<Seq<char>>::empty() == views(lines@));
    lines
}

/// What the line `raw` says, without its line ending.
pub fn line_text_chars(raw: &Vec<char>) -> (r: Vec<char>)
    ensures
        r@ == line_text(raw@),
{
    let n: usize = raw.len();
    if n > 0 && raw[n - 1] == '\n' {
        if n > 1 && raw[n - 2] == '\r' {
            let r = slice_chars(raw, 0, n - 2);
            assert(raw@.drop_last().drop_last() == raw@.subrange(0, n - 2));
            r
        } else {
            let r = slice_chars(raw, 0, n - 1);
            assert(raw@.drop_last() == raw@.subrange(0, n - 1));
            r
        }
    } else {
        let r = slice_chars(raw, 0, n);
        assert(raw@ == raw@.subrange(0, n as int));
        r
    }
}

/// The lines of `v`, without their line endings.
pub fn split_text_lines(v: &Vec<char>) -> (lines: Vec<Vec<char>>)
    ensures
        views(lines@) == text_lines(v@),
{
    let raw = split_raw_lines(v);
    let mut lines: Vec<Vec<char>> = Vec::new();
    let mut i: usize = 0;
    while i < raw.len()
        invariant
            i <= raw.len(),
            views(raw@) == raw_lines(v@),
            lines.len() == i,
            forall|j: int| 0 <= j < i ==> (#[trigger] lines@[j])@ == line_text(raw@[j]@),
        decreases raw.len() - i,
    {
        let line = line_text_chars(&raw[i]);
        lines.push(line);
        i += 1;
    }
    assert(views(lines@) =~= text_lines(v@)) by {
        assert forall|j: int| 0 <= j < lines.len() implies views(lines@)[j] == text_lines(v@)[j] by {
            assert(views(raw@)[j] == raw@[j]@);
        }
    }
    lines
}

/// All of `parts` put together, in order.
pub fn concat_chars(parts: &Vec<Vec<char>>) -> (r: Vec<char>)
    ensures
        r@ == concat(views(parts@)),
{
    let mut r: Vec<char> = Vec::new();
    let mut i: usize = 0;
    assert(views(parts@).take(0) == Seq::<Seq<char>>::empty());
    while i < parts.len()
        invariant
            i <= parts.len(),
            r@ == concat(views(parts@).take(i as int)),
        decreases parts.len() - i,
    {
        let part = &parts[i];
        let ghost before = r@;
        let mut j: usize = 0;
        while j < part.len()
            invariant
                j <= part.len(),
                r@ == before + part@.take(j as int),
            decreases part.len() - j,
        {
            r.push(part[j]);
            j += 1;
        }
        proof {
            let head = views(parts@).take(i as int + 1);
            assert(part@.take(part.len() as int) == part@);
            assert(head.drop_last() == views(parts@).take(i as int));
            assert(head.last() == part@);
        }
        i += 1;
    }
    assert(views(parts@).take(parts.len() as int) == views(parts@));
    r
}

/// Whether two character vectors hold the same text.
pub fn same_chars(a: &Vec<char>, b: &Vec<char>) -> (r: bool)
    ensures
        r == (a@ == b@),
{
    if a.len() != b.len() {
        return false;
    }
    let r = occurs_at_chars(a, b, 0);
    assert(a@.subrange(0, b@.len() as int) == a@);
    r
}

/// Reads the characters of `s` into a vector, in order.
pub fn chars_of(s: &str) -> (v: Vec<char>)
    ensures
        v@ == s@,
{
    let mut v: Vec<char> = Vec::new();
    for c in it: s.chars()
        invariant
            v@ == it.seq().take(it.index() as int),
            it.seq() == s@,
    {
        v.push(c);
    }
    v
}

/// Puts `line` behind the strings in `lines`.
pub fn push_text(lines: &mut Vec<String>, line: String)
    ensures
        texts(final(lines)@) == texts(old(lines)@).push(line@),
{
    lines.push(line);
    assert(texts(lines@) =~= texts(old(lines)@).push(line@));
}

/// `String::push` appends the given character to the end of the string.
pub assume_specification[ String::push ](s: &mut String, c: char)
    ensures
        final(s)@ == old(s)@.push(c),
;

/// The string that holds the characters of `v`, in order.
pub fn string_of(v: &Vec<char>) -> (s: String)
    ensures
        s@ == v@,
{
    let mut s = String::new();
    let mut i: usize = 0;
    while i < v.len()
        invariant
            i <= v.len(),
            s@ == v@.take(i as int),
        decreases v.len() - i,
    {
        s.push(v[i]);
        i += 1;
    }
    assert(v@.take(v.len() as int) == v@);
    s
}

/// Trimming at the start takes away exactly the white space before the
/// first character that is none.
pub proof fn lemma_trim_start_is(s: Seq<char>, a: int)
    requires
        0 <= a < s.len(),
        forall|i: int| 0 <= i < a ==> is_whitespace(s[i]),
        !is_whitespace(s[a]),
    ensures
        trim_start(s) == s.skip(a),
    decreases a,
{
    if a > 0 {
        let rest = s.drop_first();
        assert forall|i: int| 0 <= i < a - 1 implies is_whitespace(rest[i]) by {
            assert(rest[i] == s[i + 1]);
        }
        lemma_trim_start_is(rest, a - 1);
        assert(rest.skip(a - 1) == s.skip(a));
    } else {
        assert(s.skip(0) == s);
    }
}

/// Trimming at the end takes away exactly the white space behind the last
/// character that is none.
pub proof fn lemma_trim_end_is(s: Seq<char>, b: int)
    requires
        0 <= b <= s.len(),
        forall|i: int| b <= i < s.len() ==> is_whitespace(s[i]),
        b > 0 ==> !is_whitespace(s[b - 1]),
    ensures
        trim_end(s) == s.take(b),
    decreases s.len() - b,
{
    if b < s.len() {
        lemma_trim_end_is(s.drop_last(), b);
        assert(s.drop_last().take(b) == s.take(b));
    } else {
        assert(s.take(b) == s);
    }
}

/// Where only white space stands before position `a` and from position `b`
/// on, and the characters at `a` and before `b` are none, the text trims
/// to what lies between.
pub proof fn lemma_trim_is(s: Seq<char>, a: int, b: int)
    requires
        0 <= a < b <= s.len(),
        forall|i: int| 0 <= i < a ==> is_whitespace(s[i]),
        forall|i: int| b <= i < s.len() ==> is_whitespace(s[i]),
        !is_whitespace(s[a]),
        !is_whitespace(s[b - 1]),
    ensures
        trim(s) == s.subrange(a, b),
{
    lemma_trim_start_is(s, a);
    let rest = s.skip(a);
    assert forall|i: int| b - a <= i < rest.len() implies is_whitespace(rest[i]) by {
        assert(rest[i] == s[i + a]);
    }
    lemma_trim_end_is(rest, b - a);
    assert(rest.take(b - a) == s.subrange(a, b));
}

/// A text that holds a character that is no white space trims to the part
/// from its first such character to its last.
pub proof fn lemma_trim_bounds(s: Seq<char>) -> (bounds: (int, int))
    requires
        exists|i: int| 0 <= i < s.len() && !is_whitespace(s[i]),
    ensures
        0 <= bounds.0 < bounds.1 <= s.len(),
        forall|i: int| 0 <= i < bounds.0 ==> is_whitespace(s[i]),
        forall|i: int| bounds.1 <= i < s.len() ==> is_whitespace(s[i]),
        !is_whitespace(s[bounds.0]),
        !is_whitespace(s[bounds.1 - 1]),
        trim(s) == s.subrange(bounds.0, bounds.1),
{
    let a = first_mark(s, 0);
    let b = last_mark(s, s.len() as int);
    lemma_first_mark(s, 0);
    lemma_last_mark(s, s.len() as int);
    lemma_trim_is(s, a, b);
    (a, b)
}

/// The first position from `from` on that holds no white space, or the
/// length of `s`.
pub open spec fn first_mark(s: Seq<char>, from: int) -> int
    decreases s.len() - from,
{
    if 0 <= from < s.len() && is_whitespace(s[from]) {
        first_mark(s, from + 1)
    } else {
        from
    }
}

/// The position behind the last character before `to` that is no white
/// space, or zero.
pub open spec fn last_mark(s: Seq<char>, to: int) -> int
    decreases to,
{
    if 0 < to <= s.len() && is_whitespace(s[to - 1]) {
        last_mark(s, to - 1)
    } else {
        to
    }
}

/// Only white space stands between `from` and the first mark from there.
proof fn lemma_first_mark(s: Seq<char>, from: int)
    requires
        0 <= from <= s.len(),
    ensures
        from <= first_mark(s, from) <= s.len(),
        forall|i: int| from <= i < first_mark(s, from) ==> is_whitespace(s[i]),
        first_mark(s, from) < s.len() ==> !is_whitespace(s[first_mark(s, from)]),
    decreases s.len() - from,
{
    if from < s.len() && is_whitespace(s[from]) {
        lemma_first_mark(s, from + 1);
    }
}

/// Only white space stands between the last mark before `to` and `to`.
proof fn lemma_last_mark(s: Seq<char>, to: int)
    requires
        0 <= to <= s.len(),
    ensures
        0 <= last_mark(s, to) <= to,
        forall|i: int| last_mark(s, to) <= i < to ==> is_whitespace(s[i]),
        last_mark(s, to) > 0 ==> !is_whitespace(s[last_mark(s, to) - 1]),
    decreases to,
{
    if 0 < to && is_whitespace(s[to - 1]) {
        lemma_last_mark(s, to - 1);
    }
}

/// The first line of a text ends behind its first line feed: no line feed
/// stands before the last character of that line.
pub proof fn lemma_line_end_is_first_feed(s: Seq<char>)
    requires
        s.len() > 0,
    ensures
        forall|j: int| 0 <= j < line_end(s) - 1 ==> s[j] != '\n',
        line_end(s) < s.len() ==> s[line_end(s) - 1] == '\n',
    decreases s.len(),
{
    lemma_line_end_bounds(s);
    if s[0] != '\n' {
        if s.len() > 1 {
            let rest = s.drop_first();
            lemma_line_end_is_first_feed(rest);
            lemma_line_end_bounds(rest);
            assert forall|j: int| 0 <= j < line_end(s) - 1 implies s[j] != '\n' by {
                if j > 0 {
                    assert(s[j] == rest[j - 1]);
                }
            }
            assert(line_end(s) < s.len() ==> s[line_end(s) - 1] == rest[line_end(rest) - 1]);
        } else {
            assert(line_end(s.drop_first()) == 0);
        }
    }
}

/// Behind a text that ends with a line feed, more text does not move the
/// end of the first line.
pub proof fn lemma_line_end_append(a: Seq<char>, b: Seq<char>)
    requires
        a.len() > 0,
        a.last() == '\n',
    ensures
        line_end(a + b) == line_end(a),
    decreases a.len(),
{
    if a[0] != '\n' {
        assert((a + b).drop_first() == a.drop_first() + b);
        lemma_line_end_append(a.drop_first(), b);
    }
}

/// Behind a text that is empty or ends with a line feed, the lines of more
/// text follow the lines of the text.
pub proof fn lemma_raw_lines_append(a: Seq<char>, b: Seq<char>)
    requires
        a.len() == 0 || a.last() == '\n',
    ensures
        raw_lines(a + b) == raw_lines(a) + raw_lines(b),
    decreases a.len(),
{
    if a.len() == 0 {
        assert(a + b == b);
        assert(raw_lines(a) + raw_lines(b) == raw_lines(b));
    } else {
        lemma_line_end_bounds(a);
        lemma_line_end_append(a, b);
        let k = line_end(a) as int;
        assert((a + b).take(k) == a.take(k));
        assert((a + b).skip(k) == a.skip(k) + b);
        if a.skip(k).len() > 0 {
            assert(a.skip(k).last() == a.last());
        }
        lemma_raw_lines_append(a.skip(k), b);
        assert(seq![a.take(k)] + (raw_lines(a.skip(k)) + raw_lines(b)) == seq![a.take(k)]
            + raw_lines(a.skip(k)) + raw_lines(b));
    }
}

} // verus!

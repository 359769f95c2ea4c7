//! The regular expressions of the `regex` crate, as far as the engine uses
//! them: quoting a text so that it stands for itself, and asking whether a
//! pattern matches a line.

use vstd::prelude::*;

verus! {

/// The error that `regex` reports for a pattern it does not accept.
#[verifier::external_type_specification]
#[verifier::external_body]
pub struct ExRegexError(regex::Error);

/// The characters that have a meaning of their own in a pattern.
pub open spec fn is_meta_character(c: char) -> bool {
    ||| c == '\\'
    ||| c == '.'
    ||| c == '+'
    ||| c == '*'
    ||| c == '?'
    ||| c == '('
    ||| c == ')'
    ||| c == '|'
    ||| c == '['
    ||| c == ']'
    ||| c == '{'
    ||| c == '}'
    ||| c == '^'
    ||| c == '$'
    ||| c == '#'
    ||| c == '&'
    ||| c == '-'
    ||| c == '~'
}

/// One character as a pattern that matches only itself: behind a
/// backslash where it has a meaning of its own, else as it is.
pub open spec fn escaped_char(c: char) -> Seq<char> {
    if is_meta_character(c) {
        seq!['\\', c]
    } else {
        seq![c]
    }
}

/// `text` as a pattern that matches only `text`: each of its characters
/// escaped, in order.
pub open spec fn escaped(text: Seq<char>) -> Seq<char>
    decreases text.len(),
{
    if text.len() == 0 {
        Seq::empty()
    } else {
        escaped(text.drop_last()) + escaped_char(text.last())
    }
}

/// Whether `regex::Regex::new` accepts `pattern`. It refuses a pattern
/// that is malformed, and one whose compiled program is larger than the
/// limit that the engine has by default. The engine measures the program
/// in the sizes of its own types, which are fixed for one build of it: for
/// one build the answer depends on the pattern alone.
pub uninterp spec fn regex_compiles(pattern: Seq<char>) -> bool;

/// Whether the regular expression `pattern` matches somewhere in
/// `haystack`, as `regex::Regex::is_match` finds for the expression that
/// `regex::Regex::new` compiles from `pattern`.
pub uninterp spec fn regex_is_match(pattern: Seq<char>, haystack: Seq<char>) -> bool;

/// Calls `regex::escape`. It copies the text and puts a backslash before
/// each of the eighteen characters that `is_meta_character` lists.
#[verifier::external_body]
pub(crate) fn escape(text: &str) -> (quoted: String)
    ensures
        quoted@ == escaped(text@),
{
    regex::escape(text)
}

/// Compiles `pattern` with `regex::Regex::new` and asks
/// `regex::Regex::is_match` whether it matches somewhere in `haystack`.
/// There is an answer exactly where the engine accepts the pattern, and
/// the answer depends on the two texts alone. Nothing is claimed about
/// which patterns the engine accepts.
#[verifier::external_body]
pub(crate) fn is_match(pattern: &str, haystack: &str) -> (answer: Result<bool, regex::Error>)
    ensures
        answer is Ok <==> regex_compiles(pattern@),
        answer matches Ok(found) ==> found == regex_is_match(pattern@, haystack@),
{
    match regex::Regex::new(pattern) {
        Ok(expression) => Ok(expression.is_match(haystack)),
        Err(e) => Err(e),
    }
}

/// The words of a `regex::Error`, as its `Display` gives them.
#[verifier::external_body]
pub(crate) fn describe(e: &regex::Error) -> (words: String) {
    e.to_string()
}

/// The pattern holds no operator: each of its characters is either one
/// without a meaning of its own, or a backslash with the character that
/// it escapes behind it.
pub open spec fn is_quoted(pattern: Seq<char>) -> bool
    decreases pattern.len(),
{
    if pattern.len() == 0 {
        true
    } else if pattern[0] == '\\' {
        pattern.len() >= 2 && is_meta_character(pattern[1]) && is_quoted(pattern.skip(2))
    } else {
        !is_meta_character(pattern[0]) && is_quoted(pattern.skip(1))
    }
}

/// The text that a pattern without operators stands for: the pattern
/// without its escaping backslashes.
pub open spec fn literal_of(pattern: Seq<char>) -> Seq<char>
    decreases pattern.len(),
{
    if pattern.len() == 0 {
        Seq::empty()
    } else if pattern[0] == '\\' && pattern.len() >= 2 {
        seq![pattern[1]] + literal_of(pattern.skip(2))
    } else {
        seq![pattern[0]] + literal_of(pattern.skip(1))
    }
}

/// Two patterns without operators, one behind the other, are a pattern
/// without operators, and stand for the two texts one behind the other.
pub proof fn lemma_quoted_append(a: Seq<char>, b: Seq<char>)
    requires
        is_quoted(a),
        is_quoted(b),
    ensures
        is_quoted(a + b),
        literal_of(a + b) == literal_of(a) + literal_of(b),
    decreases a.len(),
{
    if a.len() == 0 {
        assert(a + b == b);
        assert(literal_of(a) + literal_of(b) == literal_of(b));
    } else {
        let step: int = if a[0] == '\\' {
            2
        } else {
            1
        };
        let rest = a.skip(step);
        lemma_quoted_append(rest, b);
        assert((a + b).skip(step) == rest + b);
        assert(seq![(a + b)[step - 1]] + (literal_of(rest) + literal_of(b)) == seq![a[step - 1]]
            + literal_of(rest) + literal_of(b));
    }
}

/// A quoted text holds no operator and stands for the text itself: no
/// character of it reaches the pattern engine with a meaning of its own.
pub proof fn lemma_escaped_is_literal(text: Seq<char>)
    ensures
        is_quoted(escaped(text)),
        literal_of(escaped(text)) == text,
    decreases text.len(),
{
    if text.len() > 0 {
        let c = text.last();
        let one = escaped_char(c);
        lemma_escaped_is_literal(text.drop_last());
        assert(is_quoted(one) && literal_of(one) == seq![c]) by {
            let nothing = Seq::<char>::empty();
            assert(is_quoted(nothing) && literal_of(nothing) == nothing);
            if is_meta_character(c) {
                assert(one.skip(2) == nothing);
                assert(one[0] == '\\' && one[1] == c);
            } else {
                assert(one.skip(1) == nothing);
                assert(one[0] == c);
            }
            assert(seq![c] + nothing == seq![c]);
        }
        lemma_quoted_append(escaped(text.drop_last()), one);
        assert(text.drop_last() + seq![c] == text);
    }
}

} // verus!

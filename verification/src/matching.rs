use crate::text::{chars_of, string_of};
use vstd::prelude::*;

verus! {

/// Whether the regular expression `pattern`, as the `regex` crate reads it,
/// matches somewhere in `text`; false when `pattern` is no valid expression.
pub uninterp spec fn regex_matches(pattern: Seq<char>, text: Seq<char>) -> bool;

/// Tests `text` against a regular expression with `regex::Regex::new` and
/// `is_match`.
/// Trusted: the result is what `regex_matches` names for the two texts.
#[verifier::external_body]
pub(crate) fn regex_is_match(pattern: &str, text: &str) -> (res: bool)
    ensures
        res == regex_matches(pattern@, text@),
{
    regex::Regex::new(pattern).map(|re| re.is_match(text)).unwrap_or(false)
}


/// Whether `c` is a meta character of the `regex` crate's syntax
/// (`regex_syntax::is_meta_character`).
pub open spec fn is_meta_char(c: char) -> bool {
    c == '\\' || c == '.' || c == '+' || c == '*' || c == '?' || c == '(' || c == ')' || c == '|'
        || c == '[' || c == ']' || c == '{' || c == '}' || c == '^' || c == '$' || c == '#'
        || c == '&' || c == '-' || c == '~'
}

/// `text` with a backslash put before every meta character, as
/// `regex::escape` writes it.
pub open spec fn regex_escaped(text: Seq<char>) -> Seq<char>
    decreases text.len(),
{
    if text.len() == 0 {
        Seq::empty()
    } else {
        let c = text.last();
        regex_escaped(text.drop_last()) + (if is_meta_char(c) { seq!['\\', c] } else { seq![c] })
    }
}

/// Escapes text for use in a regular expression.
pub(crate) fn regex_escape(text: &str) -> (res: String)
    ensures
        res@ == regex_escaped(text@),
{
    let cs = chars_of(text);
    let mut out: Vec<char> = Vec::new();
    let mut i: usize = 0;
    while i < cs.len()
        invariant
            i <= cs@.len(),
            cs@ == text@,
            out@ == regex_escaped(cs@.take(i as int)),
        decreases cs@.len() - i,
    {
        let c = cs[i];
        assert(cs@.take(i + 1).drop_last() == cs@.take(i as int));
        assert(cs@.take(i + 1).last() == c);
        let meta = c == '\\' || c == '.' || c == '+' || c == '*' || c == '?' || c == '(' || c == ')' || c == '|'
            || c == '[' || c == ']' || c == '{' || c == '}' || c == '^' || c == '$' || c == '#'
            || c == '&' || c == '-' || c == '~';
        let ghost before = out@;
        if meta {
            out.push('\\');
        }
        out.push(c);
        assert(out@ =~= before + (if is_meta_char(c) { seq!['\\', c] } else { seq![c] }));
        i += 1;
    }
    assert(cs@.take(cs@.len() as int) == cs@);
    string_of(out.as_slice())
}

/// Whether the shell pattern `pattern`, as `glob::Pattern::new` reads it,
/// matches all of `text` under `Pattern::matches_with` with the options
/// `case_sensitive`, `require_literal_separator` and
/// `require_literal_leading_dot`; false when `pattern` is no valid pattern.
pub uninterp spec fn glob_matches(
    pattern: Seq<char>,
    text: Seq<char>,
    case_sensitive: bool,
    require_literal_separator: bool,
    require_literal_leading_dot: bool,
) -> bool;

/// Matches `text` against a shell pattern with `glob::Pattern::new` and
/// `matches_with` under the given options.
/// Trusted: the result is what `glob_matches` names for these arguments.
#[verifier::external_body]
pub(crate) fn glob_match(
    pattern: &str,
    text: &str,
    case_sensitive: bool,
    require_literal_separator: bool,
    require_literal_leading_dot: bool,
) -> (res: bool)
    ensures
        res == glob_matches(pattern@, text@, case_sensitive, require_literal_separator, require_literal_leading_dot),
{
    let options = glob::MatchOptions { case_sensitive, require_literal_separator, require_literal_leading_dot };
    glob::Pattern::new(pattern).map(|p| p.matches_with(text, options)).unwrap_or(false)
}

} // verus!

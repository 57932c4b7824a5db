//! A first cut of a source text by regular expressions: the comments,
//! parentheses, strings and numbers that it holds, each kind found on its
//! own.

use vstd::prelude::*;
use vstd::string::*;

use regex::Regex;

verus! {

/// The pattern of a string literal.
pub const STRING_PATTERN: &'static str = "\"[\\w\\s]*\"";

/// The pattern of a number.
pub const NUMBER_PATTERN: &'static str = "\\d+\\.?\\d+";

/// The pattern of a parenthesis.
pub const PARENTHESES_PATTERN: &'static str = "\\(|\\)";

/// The pattern of a line comment.
pub const COMMENT_PATTERN: &'static str = "\\/{2}.*";

/// The texts of the successive non-overlapping matches of the regular
/// expression `pattern` in `text`, from left to right.
pub uninterp spec fn regex_matches(pattern: Seq<char>, text: Seq<char>) -> Seq<Seq<char>>;

/// The views of a sequence of texts, in order.
pub open spec fn texts(strings: Seq<String>) -> Seq<Seq<char>> {
    strings.map_values(|s: String| s@)
}

/// Compiles `pattern` with `regex::Regex::new` and collects the texts of the
/// matches that `Regex::find_iter` yields in `text`.
///
/// Believed, not proved: where the pattern compiles, the result holds the
/// matched texts in the order in which the iterator yields them, which is
/// what `regex_matches` names. Nothing is claimed of which patterns compile.
#[verifier::external_body]
fn find_all(pattern: &str, text: &str) -> (found: Option<Vec<String>>)
    ensures
        found matches Some(matches) ==> texts(matches@) == regex_matches(pattern@, text@),
{
    match Regex::new(pattern) {
        Ok(regex) => Some(regex.find_iter(text).map(|m| m.as_str().to_string()).collect()),
        Err(_) => None,
    }
}

/// A pattern that is no regular expression.
#[derive(Debug, PartialEq, Eq)]
pub struct PatternError {
    pub pattern: String,
}

impl View for PatternError {
    type V = Seq<char>;

    open spec fn view(&self) -> Seq<char> {
        self.pattern@
    }
}

/// One line for each of `matches`: the label, then the match.
pub open spec fn labelled(label: Seq<char>, matches: Seq<Seq<char>>) -> Seq<Seq<char>> {
    matches.map_values(|m: Seq<char>| label + m)
}

/// The report of what was found: the comments, then the parentheses, then
/// the strings, then the numbers, one line each.
pub open spec fn report_lines(
    comments: Seq<Seq<char>>,
    parentheses: Seq<Seq<char>>,
    strings: Seq<Seq<char>>,
    numbers: Seq<Seq<char>>,
) -> Seq<Seq<char>> {
    labelled("Comments matched: "@, comments) + labelled("Parentheses matched: "@, parentheses)
        + labelled("Strings matched: "@, strings) + labelled("Numbers matched: "@, numbers)
}

/// What a search has found, or nothing where its pattern did not compile.
pub open spec fn found_texts(found: Option<Vec<String>>) -> Option<Seq<Seq<char>>> {
    match found {
        Some(matches) => Some(texts(matches@)),
        None => None,
    }
}

/// The outcome of the four searches together: the report, or the first
/// pattern that did not compile, in the order strings, numbers,
/// parentheses, comments.
pub open spec fn report_of(
    strings: Option<Seq<Seq<char>>>,
    numbers: Option<Seq<Seq<char>>>,
    parentheses: Option<Seq<Seq<char>>>,
    comments: Option<Seq<Seq<char>>>,
) -> Result<Seq<Seq<char>>, Seq<char>> {
    if strings is None {
        Err(STRING_PATTERN@)
    } else if numbers is None {
        Err(NUMBER_PATTERN@)
    } else if parentheses is None {
        Err(PARENTHESES_PATTERN@)
    } else if comments is None {
        Err(COMMENT_PATTERN@)
    } else {
        Ok(
            report_lines(
                comments.unwrap(),
                parentheses.unwrap(),
                strings.unwrap(),
                numbers.unwrap(),
            ),
        )
    }
}

/// The view of an outcome of `report_matches`.
pub open spec fn outcome_view(r: Result<Vec<String>, PatternError>) -> Result<
    Seq<Seq<char>>,
    Seq<char>,
> {
    match r {
        Ok(lines) => Ok(texts(lines@)),
        Err(error) => Err(error@),
    }
}

/// Adds to `lines` one line for each of `matches`.
fn add_lines(lines: &mut Vec<String>, label: &str, matches: &Vec<String>)
    ensures
        texts(final(lines)@) == texts(old(lines)@) + labelled(label@, texts(matches@)),
{
    let ghost before = lines@;
    let mut i: usize = 0;
    while i < matches.len()
        invariant
            i <= matches.len(),
            lines@.len() == before.len() + i,
            forall|j: int| 0 <= j < before.len() ==> lines@[j] == before[j],
            forall|j: int| 0 <= j < i ==> (#[trigger] lines@[before.len() + j])@ == label@
                + matches@[j]@,
        decreases matches.len() - i,
    {
        let mut line = String::from_str(label);
        line.append(matches[i].as_str());
        lines.push(line);
        i = i + 1;
    }
    assert(texts(lines@) =~= texts(before) + labelled(label@, texts(matches@))) by {
        let added = labelled(label@, texts(matches@));
        assert forall|k: int| 0 <= k < lines@.len() implies texts(lines@)[k] == (texts(before)
            + added)[k] by {
            if k >= before.len() {
                let j = k - before.len();
                assert(lines@[before.len() + j]@ == label@ + matches@[j]@);
            }
        }
    }
}

/// The report of four searches that have been made, or the pattern of the
/// first of them that did not compile.
pub fn report_matches(
    strings: Option<Vec<String>>,
    numbers: Option<Vec<String>>,
    parentheses: Option<Vec<String>>,
    comments: Option<Vec<String>>,
) -> (r: Result<Vec<String>, PatternError>)
    ensures
        outcome_view(r) == report_of(
            found_texts(strings),
            found_texts(numbers),
            found_texts(parentheses),
            found_texts(comments),
        ),
{
    let strings = match strings {
        Some(matches) => matches,
        None => {
            return Err(PatternError { pattern: String::from_str(STRING_PATTERN) });
        },
    };
    let numbers = match numbers {
        Some(matches) => matches,
        None => {
            return Err(PatternError { pattern: String::from_str(NUMBER_PATTERN) });
        },
    };
    let parentheses = match parentheses {
        Some(matches) => matches,
        None => {
            return Err(PatternError { pattern: String::from_str(PARENTHESES_PATTERN) });
        },
    };
    let comments = match comments {
        Some(matches) => matches,
        None => {
            return Err(PatternError { pattern: String::from_str(COMMENT_PATTERN) });
        },
    };
    let mut lines: Vec<String> = Vec::new();
    assert(texts(lines@) =~= Seq::<Seq<char>>::empty());
    add_lines(&mut lines, "Comments matched: ", &comments);
    add_lines(&mut lines, "Parentheses matched: ", &parentheses);
    add_lines(&mut lines, "Strings matched: ", &strings);
    add_lines(&mut lines, "Numbers matched: ", &numbers);
    assert(texts(lines@) =~= report_lines(
        texts(comments@),
        texts(parentheses@),
        texts(strings@),
        texts(numbers@),
    ));
    Ok(lines)
}

/// Searches `text` for strings, numbers, parentheses and line comments, each
/// with its own regular expression, and reports what was found.
///
/// Where it succeeds, the report is that of the matches of the four
/// patterns in `text`. It fails only with one of the four patterns, which
/// then did not compile.
pub fn generate_tokens(text: &str) -> (r: Result<Vec<String>, PatternError>)
    ensures
        match r {
            Ok(lines) => texts(lines@) == report_lines(
                regex_matches(COMMENT_PATTERN@, text@),
                regex_matches(PARENTHESES_PATTERN@, text@),
                regex_matches(STRING_PATTERN@, text@),
                regex_matches(NUMBER_PATTERN@, text@),
            ),
            Err(error) => error@ == STRING_PATTERN@ || error@ == NUMBER_PATTERN@ || error@
                == PARENTHESES_PATTERN@ || error@ == COMMENT_PATTERN@,
        },
{
    let strings = find_all(STRING_PATTERN, text);
    let numbers = find_all(NUMBER_PATTERN, text);
    let parentheses = find_all(PARENTHESES_PATTERN, text);
    let comments = find_all(COMMENT_PATTERN, text);
    report_matches(strings, numbers, parentheses, comments)
}

} // verus!

//! The scanner: a growing-window, longest-match scan over the input that
//! emits tokens, skips trivia and tracks line/column coordinates.

use vstd::prelude::*;

use crate::grammar::{
    first_match, rule_advances_line, rule_emits, rule_line_advancing, rule_table, rule_token_type,
    spec_rule_table, find_rule,
};
use crate::token::{Location, SpecLocation, SpecToken, Token};

verus! {

/// A single source character that the scanner treats as a lexeme boundary:
/// space, tab or newline.
pub open spec fn is_boundary_char(c: char) -> bool {
    c == ' ' || c == '\n' || c == '\t'
}

/// Whether the position `index` of `input` completes a candidate: it holds
/// a boundary character, or lies at or past the end of the input.
pub open spec fn at_boundary(input: Seq<char>, index: int) -> bool {
    index >= input.len() || is_boundary_char(input[index])
}

/// The file name the scanner stamps on every emitted location. The scanner
/// receives only the source text; the caller that read the file keeps the
/// real path.
pub open spec fn default_filename() -> Seq<char> {
    "TODO"@
}

/// Decides whether the character at `index` is "empty": a space, newline
/// or tab, or any position at or past the end of the input.
pub fn char_is_empty(input: &String, index: usize) -> (b: bool)
    ensures
        b == at_boundary(input@, index as int),
{
    let s = input.as_str();
    let n = s.unicode_len();
    if index < n {
        let c = s.get_char(index);
        c == ' ' || c == '\n' || c == '\t'
    } else {
        true
    }
}

/// Advances the scan window past a match: the window start moves to the
/// old window end and the window grows by one character.
pub fn move_indexes(substring_start_index: &mut usize, substring_end_index: &mut usize)
    requires
        *old(substring_end_index) < usize::MAX,
    ensures
        *final(substring_start_index) == *old(substring_end_index),
        *final(substring_end_index) == *old(substring_end_index) + 1,
{
    *substring_start_index = *substring_end_index;
    *substring_end_index = *substring_end_index + 1;
}

/// Moves the running cursor to the start of the next line.
pub fn handle_new_line(line: &mut usize, col: &mut usize)
    requires
        *old(line) < usize::MAX,
    ensures
        *final(line) == *old(line) + 1,
        *final(col) == 1,
{
    *line = *line + 1;
    *col = 1;
}

/// Moves the running cursor right by the size of a consumed lexeme.
pub fn handle_col(col: &mut usize, size: usize)
    requires
        *old(col) + size <= usize::MAX,
    ensures
        *final(col) == *old(col) + size,
{
    *col = *col + size;
}

/// The token sequence produced from the scan state whose window is
/// `input[start..end]` and whose cursor, giving the position of `start`,
/// is `(line, col)`.
///
/// At each step the candidate `input[start..end]` is held against the
/// grammar table. If some rule applies, the candidate is consumed: a token
/// is emitted unless the rule is a skip rule, and the cursor advances — to
/// the next line for a newline or comment, right by the candidate's length
/// otherwise. If no rule applies, the window grows by one character and
/// nothing else changes. The scan ends when the window end passes the end
/// of the input; a trailing span on which no rule ever applies is absorbed
/// without producing a token.
pub open spec fn scan_from(
    input: Seq<char>,
    start: int,
    end: int,
    line: int,
    col: int,
) -> Seq<SpecToken>
    decreases input.len() - end + 1,
{
    if end > input.len() {
        Seq::empty()
    } else {
        let cand = input.subrange(start, end);
        match first_match(cand, at_boundary(input, end)) {
            Option::None => scan_from(input, start, end + 1, line, col),
            Option::Some(rule) => {
                let rest = if rule_advances_line(rule) {
                    scan_from(input, end, end + 1, line + 1, 1)
                } else {
                    scan_from(input, end, end + 1, line, col + cand.len())
                };
                match rule_token_type(rule) {
                    Option::Some(kind) => seq![
                        SpecToken {
                            location: SpecLocation {
                                filename: default_filename(),
                                line: line,
                                col: col,
                            },
                            token_type: kind,
                            value: cand,
                        },
                    ] + rest,
                    Option::None => rest,
                }
            },
        }
    }
}

/// The token sequence of a whole input: the scan starts with a one-
/// character window at the beginning of the input and the cursor at line
/// one, column one.
pub open spec fn spec_tokenize(input: Seq<char>) -> Seq<SpecToken> {
    scan_from(input, 0, 1, 1, 1)
}

/// Scans the whole input into its token sequence.
///
/// The result is exactly [`spec_tokenize`] of the input: trivia (spaces,
/// tabs, newlines, line comments) is consumed silently, every other
/// recognized lexeme becomes one token carrying its kind, its exact text
/// and the one-based line and column of its first character, and a
/// trailing span on which no rule ever applies is absorbed without
/// producing a token.
///
/// The input must be shorter than `usize::MAX` characters, so that the
/// window end and the column counter, each of which can reach one past
/// the input's length, fit in a `usize`.
pub fn tokenize(input: String) -> (tokens: Vec<Token>)
    requires
        input@.len() < usize::MAX,
    ensures
        tokens.deep_view() == spec_tokenize(input@),
{
    let table = rule_table();
    let s = input.as_str();
    let n = s.unicode_len();

    let mut substring_start_index: usize = 0;
    let mut substring_end_index: usize = 1;
    let mut tokens: Vec<Token> = Vec::new();

    let mut col: usize = 1;
    let mut line: usize = 1;

    proof {
        assert(tokens.deep_view() =~= Seq::<SpecToken>::empty());
        assert(Seq::<SpecToken>::empty() + spec_tokenize(input@) =~= spec_tokenize(input@));
    }
    while substring_end_index <= n
        invariant
            n == input@.len(),
            n < usize::MAX,
            s@ == input@,
            table@ == spec_rule_table(),
            substring_start_index < substring_end_index,
            substring_end_index <= n + 1,
            1 <= line,
            1 <= col,
            line - 1 <= substring_start_index,
            col - 1 <= substring_start_index,
            tokens.deep_view() + scan_from(
                input@,
                substring_start_index as int,
                substring_end_index as int,
                line as int,
                col as int,
            ) == spec_tokenize(input@),
        decreases n + 1 - substring_end_index,
    {
        let ghost g_start = substring_start_index as int;
        let ghost g_end = substring_end_index as int;
        let ghost g_line = line as int;
        let ghost g_col = col as int;

        let slice_ends = char_is_empty(&input, substring_end_index);
        let slice = s.substring_char(substring_start_index, substring_end_index);

        match find_rule(&table, slice, slice_ends) {
            Option::None => {
                substring_end_index = substring_end_index + 1;
                proof {
                    assert(scan_from(input@, g_start, g_end, g_line, g_col) == scan_from(
                        input@,
                        g_start,
                        g_end + 1,
                        g_line,
                        g_col,
                    ));
                }
            },
            Option::Some(rule) => {
                let ghost prev = tokens.deep_view();
                let ghost cand = input@.subrange(g_start, g_end);

                if let Option::Some(kind) = rule_emits(rule) {
                    let current_location = Location {
                        filename: "TODO".to_owned(),
                        line: line,
                        col: col,
                    };
                    tokens.push(
                        Token {
                            location: current_location,
                            token_type: kind,
                            value: slice.to_owned(),
                        },
                    );
                    proof {
                        let emitted = SpecToken {
                            location: SpecLocation {
                                filename: default_filename(),
                                line: g_line,
                                col: g_col,
                            },
                            token_type: kind,
                            value: cand,
                        };
                        assert(tokens.deep_view() =~= prev + seq![emitted]);
                    }
                }

                let size = substring_end_index - substring_start_index;
                move_indexes(&mut substring_start_index, &mut substring_end_index);
                if rule_line_advancing(rule) {
                    handle_new_line(&mut line, &mut col);
                } else {
                    handle_col(&mut col, size);
                }

                proof {
                    let rest = scan_from(
                        input@,
                        substring_start_index as int,
                        substring_end_index as int,
                        line as int,
                        col as int,
                    );
                    match rule_token_type(rule) {
                        Option::Some(kind) => {
                            let emitted = SpecToken {
                                location: SpecLocation {
                                    filename: default_filename(),
                                    line: g_line,
                                    col: g_col,
                                },
                                token_type: kind,
                                value: cand,
                            };
                            assert(scan_from(input@, g_start, g_end, g_line, g_col) == seq![
                                emitted,
                            ] + rest);
                            assert((prev + seq![emitted]) + rest =~= prev + (seq![emitted] + rest));
                        },
                        Option::None => {
                            assert(scan_from(input@, g_start, g_end, g_line, g_col) == rest);
                        },
                    }
                }
            },
        }
    }
    proof {
        assert(scan_from(
            input@,
            substring_start_index as int,
            substring_end_index as int,
            line as int,
            col as int,
        ) == Seq::<SpecToken>::empty());
        assert(tokens.deep_view() + Seq::<SpecToken>::empty() =~= tokens.deep_view());
    }
    tokens
}

} // verus!

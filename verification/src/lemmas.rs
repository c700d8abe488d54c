//! Proved laws of the scanner: determinism, invisibility of trivia,
//! monotonicity of columns within a line, and the effect of a line ending
//! on the running cursor.

use vstd::prelude::*;

use crate::grammar::{
    first_match, first_match_in, is_comment_lexeme, is_digit_char, is_ident_start_char,
    is_integer_lexeme, rule_advances_line, rule_applies, rule_token_type, spec_rule_table, Rule,
};
use crate::scanner::{at_boundary, is_boundary_char, scan_from, spec_tokenize};
use crate::token::SpecToken;

verus! {

/// Scanning is deterministic: the token sequence is a pure function of
/// the input text, so two scans of equal inputs agree.
pub proof fn lemma_scan_deterministic(a: Seq<char>, b: Seq<char>)
    requires
        a == b,
    ensures
        spec_tokenize(a) == spec_tokenize(b),
{
}

/// A one-character candidate holding a boundary character is claimed by a
/// skip rule: the newline rule for a newline, the whitespace rule for a
/// space or tab. Both stand before every emitting rule in the table.
proof fn lemma_first_match_single_trivia(c: char, boundary: bool)
    requires
        is_boundary_char(c),
    ensures
        first_match(seq![c], boundary) == if c == '\n' {
            Option::Some(Rule::NewLine)
        } else {
            Option::Some(Rule::Whitespace)
        },
{
    reveal_strlit("\n");
    reveal_strlit(" ");
    reveal_strlit("\t");
    let t = spec_rule_table();
    if c == '\n' {
        assert(seq![c] =~= "\n"@);
        assert(first_match_in(t, seq![c], boundary) == Option::Some(Rule::NewLine));
    } else {
        assert(seq![c] != "\n"@) by {
            if seq![c] == "\n"@ {
                assert(c == "\n"@[0]);
            }
        }
        assert(!rule_applies(t[0], seq![c], boundary));
        let t1 = t.drop_first();
        assert(first_match_in(t, seq![c], boundary) == first_match_in(t1, seq![c], boundary));
        assert(t1[0] == Rule::Whitespace);
        if c == ' ' {
            assert(seq![c] =~= " "@);
        } else {
            assert(seq![c] =~= "\t"@);
        }
        assert(rule_applies(t1[0], seq![c], boundary));
        assert(first_match_in(t1, seq![c], boundary) == Option::Some(Rule::Whitespace));
    }
}

/// From any position of an input made of spaces, tabs and newlines alone,
/// the scan consumes one trivia character at a time and emits nothing.
proof fn lemma_trivia_scan_from(input: Seq<char>, k: int, line: int, col: int)
    requires
        forall|i: int| 0 <= i < input.len() ==> is_boundary_char(input[i]),
        0 <= k,
    ensures
        scan_from(input, k, k + 1, line, col) == Seq::<SpecToken>::empty(),
    decreases input.len() - k,
{
    if k + 1 <= input.len() {
        let cand = input.subrange(k, k + 1);
        assert(cand =~= seq![input[k]]);
        lemma_first_match_single_trivia(input[k], at_boundary(input, k + 1));
        if input[k] == '\n' {
            lemma_trivia_scan_from(input, k + 1, line + 1, 1);
        } else {
            lemma_trivia_scan_from(input, k + 1, line, col + 1);
        }
    }
}

/// Trivia is invisible: an input consisting solely of spaces, tabs and
/// newlines scans to the empty token sequence.
pub proof fn lemma_trivia_only_scans_empty(input: Seq<char>)
    requires
        forall|i: int| 0 <= i < input.len() ==> is_boundary_char(input[i]),
    ensures
        spec_tokenize(input) == Seq::<SpecToken>::empty(),
{
    lemma_trivia_scan_from(input, 0, 1, 1);
}

/// No rule claims a proper prefix of a line comment: every candidate that
/// begins with `/` and does not yet carry the terminating newline falls
/// through the whole table.
#[verifier::rlimit(100)]
proof fn lemma_comment_prefix_no_match(input: Seq<char>, end: int)
    requires
        is_comment_lexeme(input),
        1 <= end < input.len(),
    ensures
        first_match(input.subrange(0, end), at_boundary(input, end)) == Option::<Rule>::None,
{
    reveal_strlit("\n");
    reveal_strlit(" ");
    reveal_strlit("\t");
    reveal_strlit("==");
    reveal_strlit(">=");
    reveal_strlit("<=");
    reveal_strlit("!=");
    reveal_strlit("=");
    reveal_strlit("*");
    reveal_strlit(",");
    reveal_strlit("const");
    reveal_strlit("}");
    reveal_strlit("{");
    reveal_strlit("true");
    reveal_strlit("false");
    reveal_strlit(")");
    reveal_strlit("(");
    reveal_strlit("\\");
    reveal_strlit("else");
    reveal_strlit(">");
    reveal_strlit("if");
    reveal_strlit("<");
    reveal_strlit("-");
    reveal_strlit("+");
    reveal_strlit(";");
    reveal_strlit("/");
    reveal_strlit("unit");
    reveal_strlit("var");
    reveal_strlit("while");
    let s = input.subrange(0, end);
    assert(s.len() == end);
    assert(s[0] == '/');
    assert(!is_integer_lexeme(s)) by {
        assert(!is_digit_char(s[0]));
    }
    assert(!is_ident_start_char(s[0]));
    if end == 1 {
        // The character after the candidate is the comment's second
        // slash, so the candidate is not at a boundary and the slash
        // operator rule, which would accept it, is never attempted.
        assert(input[1] == '/');
        assert(!at_boundary(input, end));
    } else {
        assert(s[1] == '/');
        // The candidate's last character is not a newline: the comment's
        // interior holds none, and its terminating newline lies beyond.
        assert(s[s.len() - 1] != '\n');
        assert(!is_comment_lexeme(s));
    }
    reveal_with_fuel(first_match_in, 31);
    assert(first_match_in(spec_rule_table(), s, at_boundary(input, end))
        == Option::<Rule>::None);
}

/// The whole of a line comment is claimed by the comment rule.
proof fn lemma_comment_whole_match(input: Seq<char>, boundary: bool)
    requires
        is_comment_lexeme(input),
    ensures
        first_match(input, boundary) == Option::Some(Rule::Comment),
{
    reveal_strlit("\n");
    reveal_strlit(" ");
    reveal_strlit("\t");
    let t = spec_rule_table();
    assert(input != "\n"@ && input != " "@ && input != "\t"@) by {
        assert(input.len() >= 3);
    }
    assert(!rule_applies(t[0], input, boundary));
    let t1 = t.drop_first();
    assert(first_match_in(t, input, boundary) == first_match_in(t1, input, boundary));
    assert(!rule_applies(t1[0], input, boundary));
    let t2 = t1.drop_first();
    assert(first_match_in(t1, input, boundary) == first_match_in(t2, input, boundary));
    assert(t2[0] == Rule::Comment);
    assert(rule_applies(t2[0], input, boundary));
    assert(first_match_in(t2, input, boundary) == Option::Some(Rule::Comment));
}

/// From the start of an input that is one whole line comment, the window
/// grows across the comment without any rule claiming a prefix, the
/// comment rule finally claims the whole, and nothing is emitted.
proof fn lemma_comment_scan(input: Seq<char>, end: int, line: int, col: int)
    requires
        is_comment_lexeme(input),
        1 <= end <= input.len(),
    ensures
        scan_from(input, 0, end, line, col) == Seq::<SpecToken>::empty(),
    decreases input.len() - end,
{
    if end < input.len() {
        lemma_comment_prefix_no_match(input, end);
        lemma_comment_scan(input, end + 1, line, col);
        assert(scan_from(input, 0, end, line, col) == scan_from(input, 0, end + 1, line, col));
    } else {
        assert(input.subrange(0, end) =~= input);
        lemma_comment_whole_match(input, at_boundary(input, end));
        assert(scan_from(input, end, end + 1, line + 1, 1) == Seq::<SpecToken>::empty());
        assert(rule_token_type(Rule::Comment) == Option::<crate::grammar::TokenType>::None);
    }
}

/// Trivia is invisible: an input that is one whole line comment scans to
/// the empty token sequence.
pub proof fn lemma_comment_only_scans_empty(input: Seq<char>)
    requires
        is_comment_lexeme(input),
    ensures
        spec_tokenize(input) == Seq::<SpecToken>::empty(),
{
    lemma_comment_scan(input, 1, 1, 1);
}

/// Every token produced from a scan state lies at or after that state's
/// cursor: on a later line, or on the cursor's line at or right of the
/// cursor's column.
proof fn lemma_scan_from_cursor_bound(
    input: Seq<char>,
    start: int,
    end: int,
    line: int,
    col: int,
    j: int,
)
    requires
        0 <= start <= end,
        0 <= j < scan_from(input, start, end, line, col).len(),
    ensures
        scan_from(input, start, end, line, col)[j].location.line >= line,
        scan_from(input, start, end, line, col)[j].location.line == line ==> scan_from(
            input,
            start,
            end,
            line,
            col,
        )[j].location.col >= col,
    decreases input.len() - end + 1,
{
    if end > input.len() {
        assert(false);
    } else {
        let cand = input.subrange(start, end);
        match first_match(cand, at_boundary(input, end)) {
            Option::None => {
                lemma_scan_from_cursor_bound(input, start, end + 1, line, col, j);
            },
            Option::Some(rule) => {
                let nline = if rule_advances_line(rule) {
                    line + 1
                } else {
                    line
                };
                let ncol = if rule_advances_line(rule) {
                    1
                } else {
                    col + cand.len()
                };
                match rule_token_type(rule) {
                    Option::Some(_) => {
                        if j > 0 {
                            lemma_scan_from_cursor_bound(input, end, end + 1, nline, ncol, j - 1);
                        }
                    },
                    Option::None => {
                        lemma_scan_from_cursor_bound(input, end, end + 1, nline, ncol, j);
                    },
                }
            },
        }
    }
}

/// Columns grow within a line: of two consecutive tokens on the same
/// source line, the second begins no earlier than one past the end of the
/// first's text.
proof fn lemma_scan_from_columns(
    input: Seq<char>,
    start: int,
    end: int,
    line: int,
    col: int,
    j: int,
)
    requires
        0 <= start <= end,
        0 <= j,
        j + 1 < scan_from(input, start, end, line, col).len(),
        scan_from(input, start, end, line, col)[j].location.line == scan_from(
            input,
            start,
            end,
            line,
            col,
        )[j + 1].location.line,
    ensures
        scan_from(input, start, end, line, col)[j + 1].location.col >= scan_from(
            input,
            start,
            end,
            line,
            col,
        )[j].location.col + scan_from(input, start, end, line, col)[j].value.len(),
    decreases input.len() - end + 1,
{
    if end > input.len() {
        assert(false);
    } else {
        let cand = input.subrange(start, end);
        match first_match(cand, at_boundary(input, end)) {
            Option::None => {
                lemma_scan_from_columns(input, start, end + 1, line, col, j);
            },
            Option::Some(rule) => {
                let nline = if rule_advances_line(rule) {
                    line + 1
                } else {
                    line
                };
                let ncol = if rule_advances_line(rule) {
                    1
                } else {
                    col + cand.len()
                };
                match rule_token_type(rule) {
                    Option::Some(_) => {
                        if j == 0 {
                            lemma_scan_from_cursor_bound(input, end, end + 1, nline, ncol, 0);
                        } else {
                            lemma_scan_from_columns(input, end, end + 1, nline, ncol, j - 1);
                        }
                    },
                    Option::None => {
                        lemma_scan_from_columns(input, end, end + 1, nline, ncol, j);
                    },
                }
            },
        }
    }
}

/// Columns grow within a line: of two consecutive tokens of a scanned
/// input that share a source line, the second token's column is at least
/// the first token's column plus the length of the first token's text.
pub proof fn lemma_column_monotonic_within_line(input: Seq<char>, j: int)
    requires
        0 <= j,
        j + 1 < spec_tokenize(input).len(),
        spec_tokenize(input)[j].location.line == spec_tokenize(input)[j + 1].location.line,
    ensures
        spec_tokenize(input)[j + 1].location.col >= spec_tokenize(input)[j].location.col
            + spec_tokenize(input)[j].value.len(),
{
    lemma_scan_from_columns(input, 0, 1, 1, 1, j);
}

/// A matched newline or line comment advances the running line counter by
/// exactly one, resets the column to one for whatever follows, and emits
/// no token of its own.
pub proof fn lemma_line_advance(
    input: Seq<char>,
    start: int,
    end: int,
    line: int,
    col: int,
    rule: Rule,
)
    requires
        0 <= start <= end <= input.len(),
        first_match(input.subrange(start, end), at_boundary(input, end)) == Option::Some(rule),
        rule_advances_line(rule),
    ensures
        scan_from(input, start, end, line, col) == scan_from(input, end, end + 1, line + 1, 1),
{
    assert(rule_token_type(rule) == Option::<crate::grammar::TokenType>::None);
}

} // verus!

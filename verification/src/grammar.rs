//! The grammar table: every lexeme shape the language recognizes, in
//! priority order, together with its disposition (emit a token of some
//! kind, or skip as trivia) and its boundary behavior.

use vstd::prelude::*;

verus! {

/// A decimal digit.
pub open spec fn is_digit_char(c: char) -> bool {
    '0' <= c && c <= '9'
}

/// A character that may open an identifier: an ASCII letter or underscore.
pub open spec fn is_ident_start_char(c: char) -> bool {
    ('a' <= c && c <= 'z') || ('A' <= c && c <= 'Z') || c == '_'
}

/// A character that may continue an identifier.
pub open spec fn is_ident_char(c: char) -> bool {
    is_ident_start_char(c) || is_digit_char(c)
}

/// The kind attached to an emitted token. Keywords and boolean literals are
/// folded into `Identifier`; downstream consumers disambiguate by value.
#[derive(Clone, Copy, Debug, PartialEq, Eq, Structural)]
pub enum TokenType {
    Identifier,
    IntLiteral,
    Operator,
    Punctuation,
}

/// One entry of the grammar table. Each rule names a lexeme shape; its
/// pattern is given by [`rule_matches`], its disposition by
/// [`rule_token_type`] and [`rule_advances_line`], and its boundary
/// behavior by [`rule_boundary_free`].
#[derive(Clone, Copy, Debug, PartialEq, Eq, Structural)]
pub enum Rule {
    /// A single newline; skipped, advances the line counter.
    NewLine,
    /// A single space or tab; skipped.
    Whitespace,
    /// A line comment: `//`, any characters other than newline, and the
    /// terminating newline; skipped, advances the line counter.
    Comment,
    /// The two-character operator `==`.
    DoubleEq,
    /// The two-character operator `>=`.
    GreaterEq,
    /// The two-character operator `<=`.
    LessEq,
    /// The two-character operator `!=`.
    NotEq,
    /// The assignment operator `=`.
    Assign,
    /// The operator `*`.
    Asterix,
    /// The punctuation mark `,`.
    Comma,
    /// The keyword `const`.
    Const,
    /// The punctuation mark `}`.
    CurlyClose,
    /// The punctuation mark `{`.
    CurlyOpen,
    /// A boolean literal, `true` or `false`.
    Boolean,
    /// The punctuation mark `)`.
    BracketClose,
    /// The punctuation mark `(`.
    BracketOpen,
    /// The operator `\`.
    Dash,
    /// The keyword `else`.
    Else,
    /// The operator `>`.
    Greater,
    /// The keyword `if`.
    If,
    /// An integer literal: one or more decimal digits.
    Integer,
    /// The operator `<`.
    Less,
    /// The operator `-`.
    Minus,
    /// The operator `+`.
    Plus,
    /// The punctuation mark `;`.
    Semicolon,
    /// The operator `/`.
    Slash,
    /// The keyword `unit`.
    Unit,
    /// The keyword `var`.
    Var,
    /// The keyword `while`.
    While,
    /// An identifier: a letter or underscore, then letters, digits or
    /// underscores.
    VariableName,
}

/// What a candidate must look like for `rule` to accept it. Every pattern
/// is anchored: it describes the whole candidate, not a part of it.
pub open spec fn rule_matches(rule: Rule, s: Seq<char>) -> bool {
    match rule {
        Rule::NewLine => s == "\n"@,
        Rule::Whitespace => s == " "@ || s == "\t"@,
        Rule::Comment => is_comment_lexeme(s),
        Rule::DoubleEq => s == "=="@,
        Rule::GreaterEq => s == ">="@,
        Rule::LessEq => s == "<="@,
        Rule::NotEq => s == "!="@,
        Rule::Assign => s == "="@,
        Rule::Asterix => s == "*"@,
        Rule::Comma => s == ","@,
        Rule::Const => s == "const"@,
        Rule::CurlyClose => s == "}"@,
        Rule::CurlyOpen => s == "{"@,
        Rule::Boolean => s == "true"@ || s == "false"@,
        Rule::BracketClose => s == ")"@,
        Rule::BracketOpen => s == "("@,
        Rule::Dash => s == "\\"@,
        Rule::Else => s == "else"@,
        Rule::Greater => s == ">"@,
        Rule::If => s == "if"@,
        Rule::Integer => is_integer_lexeme(s),
        Rule::Less => s == "<"@,
        Rule::Minus => s == "-"@,
        Rule::Plus => s == "+"@,
        Rule::Semicolon => s == ";"@,
        Rule::Slash => s == "/"@,
        Rule::Unit => s == "unit"@,
        Rule::Var => s == "var"@,
        Rule::While => s == "while"@,
        Rule::VariableName => is_identifier_lexeme(s),
    }
}

/// A line comment: `//`, then any characters other than newline, then the
/// terminating newline.
pub open spec fn is_comment_lexeme(s: Seq<char>) -> bool {
    &&& s.len() >= 3
    &&& s[0] == '/'
    &&& s[1] == '/'
    &&& s[s.len() - 1] == '\n'
    &&& forall|i: int| 2 <= i < s.len() - 1 ==> s[i] != '\n'
}

/// An integer literal: one or more decimal digits.
pub open spec fn is_integer_lexeme(s: Seq<char>) -> bool {
    s.len() >= 1 && forall|i: int| 0 <= i < s.len() ==> is_digit_char(s[i])
}

/// An identifier: a letter or underscore, then letters, digits or
/// underscores.
pub open spec fn is_identifier_lexeme(s: Seq<char>) -> bool {
    &&& s.len() >= 1
    &&& is_ident_start_char(s[0])
    &&& forall|i: int| 1 <= i < s.len() ==> is_ident_char(s[i])
}

/// Boundary-free rules match a candidate whatever character follows it;
/// all other rules require the following character to be a boundary
/// (space, tab, newline or end of input). The skip rules and the
/// two-character operators are boundary-free.
pub open spec fn rule_boundary_free(rule: Rule) -> bool {
    match rule {
        Rule::NewLine | Rule::Whitespace | Rule::Comment => true,
        Rule::DoubleEq | Rule::GreaterEq | Rule::LessEq | Rule::NotEq => true,
        _ => false,
    }
}

/// The two skip rules that consume a line ending: a matched newline or
/// line comment advances the line counter and resets the column.
pub open spec fn rule_advances_line(rule: Rule) -> bool {
    match rule {
        Rule::NewLine | Rule::Comment => true,
        _ => false,
    }
}

/// The disposition of a matched rule: `None` for trivia that is skipped,
/// or the kind of the emitted token.
pub open spec fn rule_token_type(rule: Rule) -> Option<TokenType> {
    match rule {
        Rule::NewLine | Rule::Whitespace | Rule::Comment => Option::None,
        Rule::DoubleEq | Rule::GreaterEq | Rule::LessEq | Rule::NotEq => Option::Some(
            TokenType::Operator,
        ),
        Rule::Assign | Rule::Asterix | Rule::Dash | Rule::Greater | Rule::Less | Rule::Minus
            | Rule::Plus | Rule::Slash => Option::Some(TokenType::Operator),
        Rule::Comma | Rule::CurlyClose | Rule::CurlyOpen | Rule::BracketClose | Rule::BracketOpen
            | Rule::Semicolon => Option::Some(TokenType::Punctuation),
        Rule::Const | Rule::Boolean | Rule::Else | Rule::If | Rule::Unit | Rule::Var | Rule::While
            | Rule::VariableName => Option::Some(TokenType::Identifier),
        Rule::Integer => Option::Some(TokenType::IntLiteral),
    }
}

/// The grammar table in priority order: the first rule of the table that
/// accepts a candidate wins. The boundary-free rules come first; among the
/// boundary-required rules, every keyword and literal rule precedes the
/// generic identifier rule, which must be tried last.
pub open spec fn spec_rule_table() -> Seq<Rule> {
    seq![
        Rule::NewLine,
        Rule::Whitespace,
        Rule::Comment,
        Rule::DoubleEq,
        Rule::GreaterEq,
        Rule::LessEq,
        Rule::NotEq,
        Rule::Assign,
        Rule::Asterix,
        Rule::Comma,
        Rule::Const,
        Rule::CurlyClose,
        Rule::CurlyOpen,
        Rule::Boolean,
        Rule::BracketClose,
        Rule::BracketOpen,
        Rule::Dash,
        Rule::Else,
        Rule::Greater,
        Rule::If,
        Rule::Integer,
        Rule::Less,
        Rule::Minus,
        Rule::Plus,
        Rule::Semicolon,
        Rule::Slash,
        Rule::Unit,
        Rule::Var,
        Rule::While,
        Rule::VariableName,
    ]
}

/// Builds the grammar table once; the scanner iterates it on every match
/// attempt.
pub fn rule_table() -> (t: Vec<Rule>)
    ensures
        t@ == spec_rule_table(),
{
    let t: Vec<Rule> = vec![
        Rule::NewLine,
        Rule::Whitespace,
        Rule::Comment,
        Rule::DoubleEq,
        Rule::GreaterEq,
        Rule::LessEq,
        Rule::NotEq,
        Rule::Assign,
        Rule::Asterix,
        Rule::Comma,
        Rule::Const,
        Rule::CurlyClose,
        Rule::CurlyOpen,
        Rule::Boolean,
        Rule::BracketClose,
        Rule::BracketOpen,
        Rule::Dash,
        Rule::Else,
        Rule::Greater,
        Rule::If,
        Rule::Integer,
        Rule::Less,
        Rule::Minus,
        Rule::Plus,
        Rule::Semicolon,
        Rule::Slash,
        Rule::Unit,
        Rule::Var,
        Rule::While,
        Rule::VariableName,
    ];
    proof {
        assert(t@ =~= spec_rule_table());
    }
    t
}

/// Character-wise string equality, proved against the views.
fn str_eq(a: &str, b: &str) -> (r: bool)
    ensures
        r == (a@ == b@),
{
    let na = a.unicode_len();
    let nb = b.unicode_len();
    if na != nb {
        return false;
    }
    let mut i: usize = 0;
    while i < na
        invariant
            na == a@.len(),
            na == b@.len(),
            i <= na,
            forall|j: int| 0 <= j < i ==> a@[j] == b@[j],
        decreases na - i,
    {
        if a.get_char(i) != b.get_char(i) {
            return false;
        }
        i = i + 1;
    }
    proof {
        assert(a@ =~= b@);
    }
    true
}

/// Decides whether a candidate is a line comment, against
/// [`is_comment_lexeme`].
fn is_comment(cand: &str) -> (r: bool)
    ensures
        r == is_comment_lexeme(cand@),
{
    let n = cand.unicode_len();
    if n < 3 {
        return false;
    }
    if cand.get_char(0) != '/' || cand.get_char(1) != '/' {
        return false;
    }
    if cand.get_char(n - 1) != '\n' {
        return false;
    }
    let mut i: usize = 2;
    while i < n - 1
        invariant
            n == cand@.len(),
            3 <= n,
            2 <= i <= n - 1,
            forall|j: int| 2 <= j < i ==> cand@[j] != '\n',
        decreases n - 1 - i,
    {
        if cand.get_char(i) == '\n' {
            return false;
        }
        i = i + 1;
    }
    true
}

/// Decides whether a candidate is an integer literal, against
/// [`is_integer_lexeme`].
fn is_integer(cand: &str) -> (r: bool)
    ensures
        r == is_integer_lexeme(cand@),
{
    let n = cand.unicode_len();
    if n == 0 {
        return false;
    }
    let mut i: usize = 0;
    while i < n
        invariant
            n == cand@.len(),
            i <= n,
            forall|j: int| 0 <= j < i ==> is_digit_char(cand@[j]),
        decreases n - i,
    {
        let c = cand.get_char(i);
        if !('0' <= c && c <= '9') {
            return false;
        }
        i = i + 1;
    }
    true
}

/// Decides whether a candidate is an identifier, against
/// [`is_identifier_lexeme`].
fn is_identifier(cand: &str) -> (r: bool)
    ensures
        r == is_identifier_lexeme(cand@),
{
    let n = cand.unicode_len();
    if n == 0 {
        return false;
    }
    let c0 = cand.get_char(0);
    if !(('a' <= c0 && c0 <= 'z') || ('A' <= c0 && c0 <= 'Z') || c0 == '_') {
        return false;
    }
    let mut i: usize = 1;
    while i < n
        invariant
            n == cand@.len(),
            1 <= i <= n,
            is_ident_start_char(cand@[0]),
            forall|j: int| 1 <= j < i ==> is_ident_char(cand@[j]),
        decreases n - i,
    {
        let c = cand.get_char(i);
        if !(('a' <= c && c <= 'z') || ('A' <= c && c <= 'Z') || c == '_' || ('0' <= c && c <= '9'))
        {
            return false;
        }
        i = i + 1;
    }
    true
}

/// Decides whether `rule` accepts the candidate, against [`rule_matches`].
pub fn candidate_matches(rule: Rule, cand: &str) -> (r: bool)
    ensures
        r == rule_matches(rule, cand@),
{
    match rule {
        Rule::NewLine => str_eq(cand, "\n"),
        Rule::Whitespace => str_eq(cand, " ") || str_eq(cand, "\t"),
        Rule::Comment => is_comment(cand),
        Rule::DoubleEq => str_eq(cand, "=="),
        Rule::GreaterEq => str_eq(cand, ">="),
        Rule::LessEq => str_eq(cand, "<="),
        Rule::NotEq => str_eq(cand, "!="),
        Rule::Assign => str_eq(cand, "="),
        Rule::Asterix => str_eq(cand, "*"),
        Rule::Comma => str_eq(cand, ","),
        Rule::Const => str_eq(cand, "const"),
        Rule::CurlyClose => str_eq(cand, "}"),
        Rule::CurlyOpen => str_eq(cand, "{"),
        Rule::Boolean => str_eq(cand, "true") || str_eq(cand, "false"),
        Rule::BracketClose => str_eq(cand, ")"),
        Rule::BracketOpen => str_eq(cand, "("),
        Rule::Dash => str_eq(cand, "\\"),
        Rule::Else => str_eq(cand, "else"),
        Rule::Greater => str_eq(cand, ">"),
        Rule::If => str_eq(cand, "if"),
        Rule::Integer => is_integer(cand),
        Rule::Less => str_eq(cand, "<"),
        Rule::Minus => str_eq(cand, "-"),
        Rule::Plus => str_eq(cand, "+"),
        Rule::Semicolon => str_eq(cand, ";"),
        Rule::Slash => str_eq(cand, "/"),
        Rule::Unit => str_eq(cand, "unit"),
        Rule::Var => str_eq(cand, "var"),
        Rule::While => str_eq(cand, "while"),
        Rule::VariableName => is_identifier(cand),
    }
}

/// Returns the disposition of a matched rule, against
/// [`rule_token_type`].
pub fn rule_emits(rule: Rule) -> (k: Option<TokenType>)
    ensures
        k == rule_token_type(rule),
{
    match rule {
        Rule::NewLine | Rule::Whitespace | Rule::Comment => Option::None,
        Rule::DoubleEq | Rule::GreaterEq | Rule::LessEq | Rule::NotEq | Rule::Assign
            | Rule::Asterix | Rule::Dash | Rule::Greater | Rule::Less | Rule::Minus | Rule::Plus
            | Rule::Slash => Option::Some(TokenType::Operator),
        Rule::Comma | Rule::CurlyClose | Rule::CurlyOpen | Rule::BracketClose | Rule::BracketOpen
            | Rule::Semicolon => Option::Some(TokenType::Punctuation),
        Rule::Const | Rule::Boolean | Rule::Else | Rule::If | Rule::Unit | Rule::Var | Rule::While
            | Rule::VariableName => Option::Some(TokenType::Identifier),
        Rule::Integer => Option::Some(TokenType::IntLiteral),
    }
}

/// Decides whether `rule` may be attempted against a candidate that is
/// not followed by a boundary, against [`rule_boundary_free`].
pub fn rule_is_boundary_free(rule: Rule) -> (b: bool)
    ensures
        b == rule_boundary_free(rule),
{
    match rule {
        Rule::NewLine | Rule::Whitespace | Rule::Comment => true,
        Rule::DoubleEq | Rule::GreaterEq | Rule::LessEq | Rule::NotEq => true,
        _ => false,
    }
}

/// Decides whether a matched rule consumes a line ending, against
/// [`rule_advances_line`].
pub fn rule_line_advancing(rule: Rule) -> (b: bool)
    ensures
        b == rule_advances_line(rule),
{
    match rule {
        Rule::NewLine | Rule::Comment => true,
        _ => false,
    }
}

/// Whether `rule` may be attempted against a candidate in the given
/// boundary state, and accepts it.
pub open spec fn rule_applies(rule: Rule, s: Seq<char>, boundary: bool) -> bool {
    (boundary || rule_boundary_free(rule)) && rule_matches(rule, s)
}

/// The first rule of `rules` that applies to the candidate, if any.
pub open spec fn first_match_in(rules: Seq<Rule>, s: Seq<char>, boundary: bool) -> Option<Rule>
    decreases rules.len(),
{
    if rules.len() == 0 {
        Option::None
    } else if rule_applies(rules[0], s, boundary) {
        Option::Some(rules[0])
    } else {
        first_match_in(rules.drop_first(), s, boundary)
    }
}

/// The first rule of the grammar table that applies to the candidate, if
/// any: the whole priority-ordered match attempt of one scan step.
pub open spec fn first_match(s: Seq<char>, boundary: bool) -> Option<Rule> {
    first_match_in(spec_rule_table(), s, boundary)
}

/// Runs one scan step's match attempt: tries every rule of the table in
/// priority order against the candidate and returns the first that
/// applies. When the candidate is not followed by a boundary, only the
/// boundary-free rules are attempted.
pub fn find_rule(table: &Vec<Rule>, cand: &str, boundary: bool) -> (m: Option<Rule>)
    requires
        table@ == spec_rule_table(),
    ensures
        m == first_match(cand@, boundary),
{
    proof {
        assert(spec_rule_table().skip(0) =~= spec_rule_table());
    }
    let mut i: usize = 0;
    while i < table.len()
        invariant
            table@ == spec_rule_table(),
            i <= table@.len(),
            first_match(cand@, boundary) == first_match_in(
                spec_rule_table().skip(i as int),
                cand@,
                boundary,
            ),
        decreases table@.len() - i,
    {
        let rule = table[i];
        let free = rule_is_boundary_free(rule);
        proof {
            assert(spec_rule_table().skip(i as int)[0] == spec_rule_table()[i as int]);
            assert(spec_rule_table().skip(i as int).drop_first() =~= spec_rule_table().skip(
                i as int + 1,
            ));
        }
        if boundary || free {
            if candidate_matches(rule, cand) {
                return Option::Some(rule);
            }
        }
        i = i + 1;
    }
    proof {
        assert(spec_rule_table().skip(spec_rule_table().len() as int).len() == 0);
    }
    Option::None
}

} // verus!

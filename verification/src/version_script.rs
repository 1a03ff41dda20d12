//! Version scripts of the form `{ global: pat; ... local: pat; ... };`.

use vstd::prelude::*;
use vstd::slice::slice_subrange;
use crate::glob_model::build;
use crate::glob_model::insert_all;
use crate::glob_model::insert_spec;
use crate::glob_model::lemma_insert_all_builds;
use crate::glob_model::lemma_predecessor_search_is_scan;
use crate::glob_model::naive_match;
use crate::glob_model::set_matches;
use crate::glob_pattern::parse_pattern;
use crate::glob_pattern::GlobPattern;
use crate::glob_pattern::ParseGlobPatternError;
use crate::glob_set::GlobSet;
use crate::lexicographic::same_bytes;

verus! {

/// The kinds of token in a version script. `Error` stands for a byte that
/// begins no token.
#[derive(Debug, Clone, Copy, PartialEq, Eq, Structural)]
pub enum Token {
    BraceOpen,
    BraceClose,
    Global,
    Local,
    Colon,
    GlobPattern,
    SemiColon,
    Error,
}

/// A range of bytes in the text, from `start` up to `end`.
#[derive(Debug, Clone, Copy, PartialEq, Eq, Structural)]
pub struct Span {
    pub start: usize,
    pub end: usize,
}

/// A token with the bytes that it spans.
pub struct Lexeme {
    pub token: Token,
    pub start: int,
    pub end: int,
}

/// Blank, tab or line feed.
pub open spec fn space(b: u8) -> bool {
    b == 0x20 || b == 0x09 || b == 0x0a
}

/// A byte of a pattern or keyword: an ASCII letter or digit, `_`, `$`, `.`
/// or `*`.
pub open spec fn pattern_byte(b: u8) -> bool {
    (0x61 <= b <= 0x7a) || (0x41 <= b <= 0x5a) || (0x30 <= b <= 0x39) || b == 0x5f || b == 0x24
        || b == 0x2e || b == 0x2a
}

/// The text `global`.
pub open spec fn global_word() -> Seq<u8> {
    seq![0x67u8, 0x6c, 0x6f, 0x62, 0x61, 0x6c]
}

/// The text `local`.
pub open spec fn local_word() -> Seq<u8> {
    seq![0x6cu8, 0x6f, 0x63, 0x61, 0x6c]
}

/// First position from `pos` on that holds no space.
pub open spec fn skip_spaces(text: Seq<u8>, pos: int) -> int
    decreases text.len() - pos,
{
    if 0 <= pos < text.len() && space(text[pos]) {
        skip_spaces(text, pos + 1)
    } else {
        pos
    }
}

/// First position from `pos` on that holds no pattern byte.
pub open spec fn word_end(text: Seq<u8>, pos: int) -> int
    decreases text.len() - pos,
{
    if 0 <= pos < text.len() && pattern_byte(text[pos]) {
        word_end(text, pos + 1)
    } else {
        pos
    }
}

/// The token that a run of pattern bytes stands for.
pub open spec fn word_token(word: Seq<u8>) -> Token {
    if word == global_word() {
        Token::Global
    } else if word == local_word() {
        Token::Local
    } else {
        Token::GlobPattern
    }
}

/// The first token at or after `pos`, if the text holds one there: spaces
/// are skipped, a run of pattern bytes is taken whole, every other byte
/// stands alone.
pub open spec fn next_token(text: Seq<u8>, pos: int) -> Option<Lexeme> {
    let i = skip_spaces(text, pos);
    if !(0 <= i < text.len()) {
        None
    } else if pattern_byte(text[i]) {
        let j = word_end(text, i);
        Some(Lexeme { token: word_token(text.subrange(i, j)), start: i, end: j })
    } else {
        Some(
            Lexeme {
                token: if text[i] == 0x7b {
                    Token::BraceOpen
                } else if text[i] == 0x7d {
                    Token::BraceClose
                } else if text[i] == 0x3a {
                    Token::Colon
                } else if text[i] == 0x3b {
                    Token::SemiColon
                } else {
                    Token::Error
                },
                start: i,
                end: i + 1,
            },
        )
    }
}

pub proof fn lemma_skip_spaces(text: Seq<u8>, pos: int)
    requires
        0 <= pos <= text.len(),
    ensures
        pos <= skip_spaces(text, pos) <= text.len(),
        forall|i: int| pos <= i < skip_spaces(text, pos) ==> space(text[i]),
        skip_spaces(text, pos) < text.len() ==> !space(text[skip_spaces(text, pos)]),
    decreases text.len() - pos,
{
    if pos < text.len() && space(text[pos]) {
        lemma_skip_spaces(text, pos + 1);
    }
}

pub proof fn lemma_word_end(text: Seq<u8>, pos: int)
    requires
        0 <= pos <= text.len(),
    ensures
        pos <= word_end(text, pos) <= text.len(),
        pos < text.len() && pattern_byte(text[pos]) ==> pos < word_end(text, pos),
        forall|i: int| pos <= i < word_end(text, pos) ==> pattern_byte(text[i]),
        word_end(text, pos) < text.len() ==> !pattern_byte(text[word_end(text, pos)]),
    decreases text.len() - pos,
{
    if pos < text.len() && pattern_byte(text[pos]) {
        lemma_word_end(text, pos + 1);
    }
}

/// A token lies within the text, behind the position from which it was
/// looked for, and is not empty.
pub proof fn lemma_next_token(text: Seq<u8>, pos: int)
    requires
        0 <= pos <= text.len(),
    ensures
        match next_token(text, pos) {
            Some(t) => pos <= t.start < t.end <= text.len(),
            None => true,
        },
{
    lemma_skip_spaces(text, pos);
    let i = skip_spaces(text, pos);
    if i < text.len() {
        lemma_word_end(text, i);
    }
}

/// The tokens of the text from `pos` on.
pub open spec fn lex(text: Seq<u8>, pos: int) -> Seq<Lexeme>
    decreases text.len() - pos,
{
    if !(0 <= pos <= text.len()) {
        Seq::empty()
    } else {
        match next_token(text, pos) {
            None => Seq::empty(),
            Some(t) => {
                proof {
                    lemma_next_token(text, pos);
                }
                seq![t] + lex(text, t.end)
            },
        }
    }
}

/// How parsing a version script went wrong.
#[derive(Debug, Clone, Copy, PartialEq, Eq)]
pub enum ParseTrivialVersionScriptErrorKind {
    /// A byte that begins no token.
    ErrorToken,
    /// A token that the grammar does not accept at its place.
    WrongToken,
    /// The text ends where the grammar asks for a token.
    UnexpectedEnd,
    /// A token follows the end of the script.
    ExpectedEnd,
    /// A pattern with a `*` that is not its last byte.
    GlobError(ParseGlobPatternError),
}

impl ParseTrivialVersionScriptErrorKind {
    /// The message that describes the kind of error.
    pub fn message(&self) -> (r: &'static str)
        ensures
            r@ == (match *self {
                ParseTrivialVersionScriptErrorKind::ErrorToken => "lexing error"@,
                ParseTrivialVersionScriptErrorKind::WrongToken => "wrong token"@,
                ParseTrivialVersionScriptErrorKind::UnexpectedEnd => "unexpected end"@,
                ParseTrivialVersionScriptErrorKind::ExpectedEnd => "expected end"@,
                ParseTrivialVersionScriptErrorKind::GlobError(_) => "glob pattern parsing error"@,
            }),
    {
        match self {
            ParseTrivialVersionScriptErrorKind::ErrorToken => "lexing error",
            ParseTrivialVersionScriptErrorKind::WrongToken => "wrong token",
            ParseTrivialVersionScriptErrorKind::UnexpectedEnd => "unexpected end",
            ParseTrivialVersionScriptErrorKind::ExpectedEnd => "expected end",
            ParseTrivialVersionScriptErrorKind::GlobError(_) => "glob pattern parsing error",
        }
    }
}

/// A grammar violation: the token that was found with its span (none at the
/// end of the text), the tokens that would have been accepted in its place
/// (where the grammar names any), and the kind of violation.
#[derive(Debug, Clone, PartialEq, Eq)]
pub struct ParseTrivialVersionScriptError {
    pub got: Option<(Token, Span)>,
    pub expected: Option<Vec<Token>>,
    pub kind: ParseTrivialVersionScriptErrorKind,
}

/// A grammar violation, as a mathematical value.
pub struct ErrorModel {
    pub got: Option<Lexeme>,
    pub expected: Option<Seq<Token>>,
    pub kind: ParseTrivialVersionScriptErrorKind,
}

impl View for ParseTrivialVersionScriptError {
    type V = ErrorModel;

    open spec fn view(&self) -> ErrorModel {
        ErrorModel {
            got: match self.got {
                Some((token, span)) => Some(
                    Lexeme { token, start: span.start as int, end: span.end as int },
                ),
                None => None,
            },
            expected: match self.expected {
                Some(v) => Some(v@),
                None => None,
            },
            kind: self.kind,
        }
    }
}

/// The two pattern sets of a version script, as mathematical values.
pub struct ScriptModel {
    pub global: Map<Seq<u8>, bool>,
    pub local: Map<Seq<u8>, bool>,
}

/// The token at place `i`, if it is one of `allowed`.
pub open spec fn expect_at(toks: Seq<Lexeme>, i: int, allowed: Seq<Token>) -> Result<Lexeme, ErrorModel> {
    if !(0 <= i < toks.len()) {
        Err(
            ErrorModel {
                got: None,
                expected: Some(allowed),
                kind: ParseTrivialVersionScriptErrorKind::UnexpectedEnd,
            },
        )
    } else if toks[i].token == Token::Error {
        Err(
            ErrorModel {
                got: Some(toks[i]),
                expected: Some(allowed),
                kind: ParseTrivialVersionScriptErrorKind::ErrorToken,
            },
        )
    } else if allowed.contains(toks[i].token) {
        Ok(toks[i])
    } else {
        Err(
            ErrorModel {
                got: Some(toks[i]),
                expected: Some(allowed),
                kind: ParseTrivialVersionScriptErrorKind::WrongToken,
            },
        )
    }
}

/// A list of patterns, each followed by `;`, up to the token `closer`: the
/// set `acc` with the patterns inserted in order, and the place behind
/// `closer`.
pub open spec fn list_at(
    text: Seq<u8>,
    toks: Seq<Lexeme>,
    i: int,
    closer: Token,
    acc: Map<Seq<u8>, bool>,
) -> Result<(Map<Seq<u8>, bool>, int), ErrorModel>
    decreases toks.len() + 2 - i,
{
    match expect_at(toks, i, seq![Token::GlobPattern, closer]) {
        Err(e) => Err(e),
        Ok(t) => if t.token == closer {
            Ok((acc, i + 1))
        } else {
            match parse_pattern(text.subrange(t.start, t.end)) {
                None => Err(
                    ErrorModel {
                        got: Some(t),
                        expected: None,
                        kind: ParseTrivialVersionScriptErrorKind::GlobError(ParseGlobPatternError),
                    },
                ),
                Some(p) => match expect_at(toks, i + 1, seq![Token::SemiColon]) {
                    Err(e) => Err(e),
                    Ok(_) => list_at(text, toks, i + 2, closer, insert_spec(acc, p)),
                },
            }
        },
    }
}

/// The script that the tokens `toks` of `text` spell: `{`, `global`, `:`, a
/// list of patterns, `local`, `:`, a list of patterns, `}`, `;`, and nothing
/// more.
pub open spec fn script_of(text: Seq<u8>, toks: Seq<Lexeme>) -> Result<ScriptModel, ErrorModel> {
    match expect_at(toks, 0, seq![Token::BraceOpen]) {
        Err(e) => Err(e),
        Ok(_) => match expect_at(toks, 1, seq![Token::Global]) {
            Err(e) => Err(e),
            Ok(_) => match expect_at(toks, 2, seq![Token::Colon]) {
                Err(e) => Err(e),
                Ok(_) => match list_at(text, toks, 3, Token::Local, Map::empty()) {
                    Err(e) => Err(e),
                    Ok((global, i)) => match expect_at(toks, i, seq![Token::Colon]) {
                        Err(e) => Err(e),
                        Ok(_) => match list_at(text, toks, i + 1, Token::BraceClose, Map::empty()) {
                            Err(e) => Err(e),
                            Ok((local, j)) => match expect_at(toks, j, seq![Token::SemiColon]) {
                                Err(e) => Err(e),
                                Ok(_) => if j + 1 < toks.len() {
                                    Err(
                                        ErrorModel {
                                            got: Some(toks[j + 1]),
                                            expected: None,
                                            kind: ParseTrivialVersionScriptErrorKind::ExpectedEnd,
                                        },
                                    )
                                } else {
                                    Ok(ScriptModel { global, local })
                                },
                            },
                        },
                    },
                },
            },
        },
    }
}

/// What a version script's text denotes.
pub open spec fn parse_script(text: Seq<u8>) -> Result<ScriptModel, ErrorModel> {
    script_of(text, lex(text, 0))
}

/// Tells whether `b` is a blank, a tab or a line feed.
pub fn is_space(b: u8) -> (r: bool)
    ensures
        r == space(b),
{
    b == 0x20 || b == 0x09 || b == 0x0a
}

/// Tells whether `b` may stand in a pattern or keyword.
pub fn is_pattern_byte(b: u8) -> (r: bool)
    ensures
        r == pattern_byte(b),
{
    (0x61 <= b && b <= 0x7a) || (0x41 <= b && b <= 0x5a) || (0x30 <= b && b <= 0x39) || b == 0x5f
        || b == 0x24 || b == 0x2e || b == 0x2a
}

/// Reads the first token at or after `pos`.
pub fn read_token(text: &[u8], pos: usize) -> (r: Option<(Token, Span)>)
    requires
        pos <= text@.len(),
    ensures
        match r {
            Some((token, span)) => next_token(text@, pos as int) == Some(
                Lexeme { token, start: span.start as int, end: span.end as int },
            ),
            None => next_token(text@, pos as int).is_none(),
        },
{
    let n = text.len();
    let mut i: usize = pos;
    while i < n && is_space(text[i])
        invariant
            pos <= i <= n,
            n == text@.len(),
            skip_spaces(text@, pos as int) == skip_spaces(text@, i as int),
        decreases n - i,
    {
        i += 1;
    }
    if i >= n {
        return None;
    }
    let b = text[i];
    if is_pattern_byte(b) {
        let mut j: usize = i + 1;
        while j < n && is_pattern_byte(text[j])
            invariant
                i < j <= n,
                n == text@.len(),
                word_end(text@, i as int) == word_end(text@, j as int),
            decreases n - j,
        {
            j += 1;
        }
        let word = slice_subrange(text, i, j);
        let global: [u8; 6] = [0x67, 0x6c, 0x6f, 0x62, 0x61, 0x6c];
        let local: [u8; 5] = [0x6c, 0x6f, 0x63, 0x61, 0x6c];
        proof {
            assert(global@ =~= global_word());
            assert(local@ =~= local_word());
        }
        let token = if same_bytes(word, global.as_slice()) {
            Token::Global
        } else if same_bytes(word, local.as_slice()) {
            Token::Local
        } else {
            Token::GlobPattern
        };
        Some((token, Span { start: i, end: j }))
    } else {
        let token = if b == 0x7b {
            Token::BraceOpen
        } else if b == 0x7d {
            Token::BraceClose
        } else if b == 0x3a {
            Token::Colon
        } else if b == 0x3b {
            Token::SemiColon
        } else {
            Token::Error
        };
        Some((token, Span { start: i, end: i + 1 }))
    }
}

/// The tokens behind a list of tokens with their spans.
pub open spec fn lexemes(v: Seq<(Token, Span)>) -> Seq<Lexeme> {
    v.map_values(|t: (Token, Span)| Lexeme { token: t.0, start: t.1.start as int, end: t.1.end as int })
}

/// Splits the text into its tokens.
pub fn tokenize(text: &[u8]) -> (r: Vec<(Token, Span)>)
    ensures
        lexemes(r@) == lex(text@, 0),
{
    let mut out: Vec<(Token, Span)> = Vec::new();
    let mut pos: usize = 0;
    loop
        invariant
            pos <= text@.len(),
            lex(text@, 0) == lexemes(out@) + lex(text@, pos as int),
        decreases text@.len() - pos,
    {
        proof {
            lemma_next_token(text@, pos as int);
        }
        match read_token(text, pos) {
            None => {
                proof {
                    assert(lexemes(out@) + Seq::<Lexeme>::empty() =~= lexemes(out@));
                }
                return out;
            },
            Some((token, span)) => {
                let ghost before = out@;
                out.push((token, span));
                proof {
                    let t = Lexeme { token, start: span.start as int, end: span.end as int };
                    assert(lexemes(out@) =~= lexemes(before) + seq![t]);
                    assert(lexemes(before) + (seq![t] + lex(text@, t.end)) =~= lexemes(out@) + lex(
                        text@,
                        t.end,
                    ));
                }
                pos = span.end;
            },
        }
    }
}

/// Every token of the text lies within it and is not empty.
pub proof fn lemma_lex_spans(text: Seq<u8>, pos: int, k: int)
    requires
        0 <= pos <= text.len(),
        0 <= k < lex(text, pos).len(),
    ensures
        pos <= lex(text, pos)[k].start < lex(text, pos)[k].end <= text.len(),
    decreases text.len() - pos,
{
    lemma_next_token(text, pos);
    let t = next_token(text, pos).unwrap();
    if k > 0 {
        lemma_lex_spans(text, t.end, k - 1);
        assert(lex(text, pos)[k] == lex(text, t.end)[k - 1]);
    }
}

/// A version script: the patterns of the symbols that are exported, and
/// those of the symbols that are kept local.
#[derive(Debug, PartialEq)]
pub struct TrivialVersionScript {
    pub global: GlobSet,
    pub local: GlobSet,
}

impl View for TrivialVersionScript {
    type V = ScriptModel;

    open spec fn view(&self) -> ScriptModel {
        ScriptModel { global: self.global@, local: self.local@ }
    }
}

/// A line and a column in a text, both counted from 1.
#[derive(Debug, Clone, Copy, PartialEq, Eq, Structural)]
pub struct Position {
    pub line: usize,
    pub column: usize,
}

/// A grammar violation together with the place of the offending token.
#[derive(Debug, Clone, PartialEq, Eq)]
pub struct LocatedError {
    pub error: ParseTrivialVersionScriptError,
    /// Where the offending token begins and where it ends.
    pub location: Option<(Position, Position)>,
}

/// Number of line feeds among the first `offset` bytes.
pub open spec fn count_breaks(text: Seq<u8>, offset: int) -> int
    decreases offset,
{
    if offset <= 0 {
        0
    } else {
        count_breaks(text, offset - 1) + if text[offset - 1] == 0x0a {
            1int
        } else {
            0int
        }
    }
}

/// A byte that begins a character: any but the continuation bytes of a
/// character of several bytes.
pub open spec fn begins_char(b: u8) -> bool {
    !(0x80 <= b <= 0xbf)
}

/// Number of characters on the line that holds `offset`, before `offset`.
pub open spec fn count_column(text: Seq<u8>, offset: int) -> int
    decreases offset,
{
    if offset <= 0 || text[offset - 1] == 0x0a {
        0
    } else {
        count_column(text, offset - 1) + if begins_char(text[offset - 1]) {
            1int
        } else {
            0int
        }
    }
}

/// Line and column of the byte at `offset`, counted from 1: one more than
/// the line feeds before it, and one more than the characters between the
/// last of them and it.
pub open spec fn position_of(text: Seq<u8>, offset: int) -> (int, int) {
    (1 + count_breaks(text, offset), 1 + count_column(text, offset))
}

/// Finds the line and column of the byte at `offset`.
pub fn find_end(text: &[u8], offset: usize) -> (r: Position)
    requires
        offset <= text@.len(),
        text@.len() < usize::MAX,
    ensures
        (r.line as int, r.column as int) == position_of(text@, offset as int),
{
    let mut line: usize = 1;
    let mut column: usize = 1;
    let mut i: usize = 0;
    while i < offset
        invariant
            i <= offset <= text@.len(),
            text@.len() < usize::MAX,
            line == 1 + count_breaks(text@, i as int),
            column == 1 + count_column(text@, i as int),
            line <= i + 1,
            column <= i + 1,
        decreases offset - i,
    {
        let b = text[i];
        if b == 0x0a {
            line += 1;
            column = 1;
        } else if !(0x80 <= b && b <= 0xbf) {
            column += 1;
        }
        i += 1;
    }
    Position { line, column }
}

/// The list that holds `t` alone.
fn one_of(t: Token) -> (v: Vec<Token>)
    ensures
        v@ == seq![t],
{
    let mut v: Vec<Token> = Vec::new();
    v.push(t);
    proof {
        assert(v@ =~= seq![t]);
    }
    v
}

/// The list that holds `a` and `b`.
fn two_of(a: Token, b: Token) -> (v: Vec<Token>)
    ensures
        v@ == seq![a, b],
{
    let mut v: Vec<Token> = Vec::new();
    v.push(a);
    v.push(b);
    proof {
        assert(v@ =~= seq![a, b]);
    }
    v
}

fn contains_token(allowed: &Vec<Token>, t: Token) -> (r: bool)
    ensures
        r == allowed@.contains(t),
{
    let mut i: usize = 0;
    while i < allowed.len()
        invariant
            i <= allowed@.len(),
            forall|j: int| 0 <= j < i ==> allowed@[j] != t,
        decreases allowed@.len() - i,
    {
        if allowed[i] == t {
            return true;
        }
        i += 1;
    }
    false
}

/// Takes the token at place `i`, which must be one of `expected`.
pub fn parse_token(tokens: &Vec<(Token, Span)>, i: usize, expected: Vec<Token>) -> (r: Result<
    Token,
    ParseTrivialVersionScriptError,
>)
    ensures
        match r {
            Ok(t) => i < tokens@.len() && t == tokens@[i as int].0 && expect_at(
                lexemes(tokens@),
                i as int,
                expected@,
            ) == Ok::<Lexeme, ErrorModel>(lexemes(tokens@)[i as int]),
            Err(e) => expect_at(lexemes(tokens@), i as int, expected@) == Err::<Lexeme, ErrorModel>(e@),
        },
{
    if i >= tokens.len() {
        return Err(
            ParseTrivialVersionScriptError {
                got: None,
                expected: Some(expected),
                kind: ParseTrivialVersionScriptErrorKind::UnexpectedEnd,
            },
        );
    }
    let (token, span) = tokens[i];
    if token == Token::Error {
        Err(
            ParseTrivialVersionScriptError {
                got: Some((token, span)),
                expected: Some(expected),
                kind: ParseTrivialVersionScriptErrorKind::ErrorToken,
            },
        )
    } else if contains_token(&expected, token) {
        Ok(token)
    } else {
        Err(
            ParseTrivialVersionScriptError {
                got: Some((token, span)),
                expected: Some(expected),
                kind: ParseTrivialVersionScriptErrorKind::WrongToken,
            },
        )
    }
}

/// Reads the pattern that a token of kind `GlobPattern` spells.
pub fn parse_glob_pattern(token: Token, span: Span, slice: &[u8]) -> (r: Result<
    GlobPattern<Vec<u8>>,
    ParseTrivialVersionScriptError,
>)
    ensures
        match r {
            Ok(p) => token == Token::GlobPattern && parse_pattern(slice@) == Some(p@),
            Err(e) => e.got == Some((token, span)) && if token != Token::GlobPattern {
                e.kind == ParseTrivialVersionScriptErrorKind::WrongToken && e.expected.is_some()
                    && e.expected.unwrap()@ == seq![Token::GlobPattern]
            } else {
                e.kind == ParseTrivialVersionScriptErrorKind::GlobError(ParseGlobPatternError)
                    && e.expected.is_none() && parse_pattern(slice@).is_none()
            },
        },
{
    if token != Token::GlobPattern {
        return Err(
            ParseTrivialVersionScriptError {
                got: Some((token, span)),
                expected: Some(one_of(Token::GlobPattern)),
                kind: ParseTrivialVersionScriptErrorKind::WrongToken,
            },
        );
    }
    match GlobPattern::<Vec<u8>>::from_str(slice) {
        Ok(g) => Ok(g),
        Err(e) => Err(
            ParseTrivialVersionScriptError {
                got: Some((token, span)),
                expected: None,
                kind: ParseTrivialVersionScriptErrorKind::GlobError(e),
            },
        ),
    }
}

/// Checks that no token stands at place `i`.
pub fn parse_end(tokens: &Vec<(Token, Span)>, i: usize) -> (r: Result<(), ParseTrivialVersionScriptError>)
    ensures
        match r {
            Ok(_) => i >= tokens@.len(),
            Err(e) => i < tokens@.len() && e@ == (ErrorModel {
                got: Some(lexemes(tokens@)[i as int]),
                expected: None,
                kind: ParseTrivialVersionScriptErrorKind::ExpectedEnd,
            }),
        },
{
    if i < tokens.len() {
        let (token, span) = tokens[i];
        Err(
            ParseTrivialVersionScriptError {
                got: Some((token, span)),
                expected: None,
                kind: ParseTrivialVersionScriptErrorKind::ExpectedEnd,
            },
        )
    } else {
        Ok(())
    }
}

/// Reads patterns, each followed by `;`, into `set`, up to the token
/// `closer`; returns the place behind `closer`.
fn parse_list(
    text: &[u8],
    tokens: &Vec<(Token, Span)>,
    start: usize,
    closer: Token,
    set: &mut GlobSet,
) -> (r: Result<usize, ParseTrivialVersionScriptError>)
    requires
        lexemes(tokens@) == lex(text@, 0),
        closer != Token::GlobPattern,
    ensures
        match r {
            Ok(next) => list_at(text@, lexemes(tokens@), start as int, closer, old(set)@) == Ok::<
                (Map<Seq<u8>, bool>, int),
                ErrorModel,
            >((final(set)@, next as int)),
            Err(e) => list_at(text@, lexemes(tokens@), start as int, closer, old(set)@) == Err::<
                (Map<Seq<u8>, bool>, int),
                ErrorModel,
            >(e@),
        },
{
    let ghost toks = lexemes(tokens@);
    let ghost first = set@;
    let n = tokens.len();
    let mut i: usize = start;
    loop
        invariant
            n == tokens@.len(),
            first == old(set)@,
            toks == lexemes(tokens@),
            toks == lex(text@, 0),
            closer != Token::GlobPattern,
            list_at(text@, toks, start as int, closer, first) == list_at(text@, toks, i as int, closer, set@),
        decreases tokens@.len() + 2 - i,
    {
        let tok = match parse_token(tokens, i, two_of(Token::GlobPattern, closer)) {
            Ok(t) => t,
            Err(e) => {
                return Err(e);
            },
        };
        if tok == closer {
            return Ok(i + 1);
        }
        proof {
            assert(seq![Token::GlobPattern, closer].contains(tok));
            assert(tok == Token::GlobPattern);
            lemma_lex_spans(text@, 0, i as int);
        }
        let span = tokens[i].1;
        let pattern = match parse_glob_pattern(tok, span, slice_subrange(text, span.start, span.end)) {
            Ok(p) => p,
            Err(e) => {
                return Err(e);
            },
        };
        match parse_token(tokens, i + 1, one_of(Token::SemiColon)) {
            Ok(_) => {},
            Err(e) => {
                return Err(e);
            },
        }
        set.insert(pattern);
        i += 2;
    }
}

impl TrivialVersionScript {
    /// The script without any pattern.
    pub fn new() -> (r: TrivialVersionScript)
        ensures
            r@.global == Map::<Seq<u8>, bool>::empty(),
            r@.local == Map::<Seq<u8>, bool>::empty(),
    {
        TrivialVersionScript { global: GlobSet::new(), local: GlobSet::new() }
    }

    /// Parses a version script.
    pub fn from_str(text: &[u8]) -> (r: Result<TrivialVersionScript, ParseTrivialVersionScriptError>)
        ensures
            match r {
                Ok(vs) => parse_script(text@) == Ok::<ScriptModel, ErrorModel>(vs@),
                Err(e) => parse_script(text@) == Err::<ScriptModel, ErrorModel>(e@),
            },
    {
        let tokens = tokenize(text);
        let n = tokens.len();
        let mut global = GlobSet::new();
        let mut local = GlobSet::new();
        match parse_token(&tokens, 0, one_of(Token::BraceOpen)) {
            Ok(_) => {},
            Err(e) => {
                return Err(e);
            },
        }
        match parse_token(&tokens, 1, one_of(Token::Global)) {
            Ok(_) => {},
            Err(e) => {
                return Err(e);
            },
        }
        match parse_token(&tokens, 2, one_of(Token::Colon)) {
            Ok(_) => {},
            Err(e) => {
                return Err(e);
            },
        }
        let i = match parse_list(text, &tokens, 3, Token::Local, &mut global) {
            Ok(i) => i,
            Err(e) => {
                return Err(e);
            },
        };
        match parse_token(&tokens, i, one_of(Token::Colon)) {
            Ok(_) => {},
            Err(e) => {
                return Err(e);
            },
        }
        let j = match parse_list(text, &tokens, i + 1, Token::BraceClose, &mut local) {
            Ok(j) => j,
            Err(e) => {
                return Err(e);
            },
        };
        match parse_token(&tokens, j, one_of(Token::SemiColon)) {
            Ok(_) => {},
            Err(e) => {
                return Err(e);
            },
        }
        match parse_end(&tokens, j + 1) {
            Ok(_) => {},
            Err(e) => {
                return Err(e);
            },
        }
        Ok(TrivialVersionScript { global, local })
    }

    /// Parses a version script and, where that fails, finds the line and
    /// column at which the offending token begins and ends.
    pub fn pretty_parse(text: &[u8]) -> (r: Result<TrivialVersionScript, LocatedError>)
        requires
            text@.len() < usize::MAX,
        ensures
            match r {
                Ok(vs) => parse_script(text@) == Ok::<ScriptModel, ErrorModel>(vs@),
                Err(l) => parse_script(text@) == Err::<ScriptModel, ErrorModel>(l.error@) && match l.error.got {
                    Some((_, span)) => span.start <= span.end <= text@.len() && l.location.is_some() && ({
                        let (from, to) = l.location.unwrap();
                        &&& (from.line as int, from.column as int) == position_of(text@, span.start as int)
                        &&& (to.line as int, to.column as int) == position_of(text@, span.end as int)
                    }),
                    None => l.location.is_none(),
                },
            },
    {
        match TrivialVersionScript::from_str(text) {
            Ok(vs) => Ok(vs),
            Err(error) => {
                let location = match error.got {
                    Some((_, span)) => {
                        proof {
                            lemma_error_span(text@, lex(text@, 0));
                        }
                        Some((find_end(text, span.start), find_end(text, span.end)))
                    },
                    None => None,
                };
                Err(LocatedError { error, location })
            },
        }
    }

    /// Tells whether the script exports `symbol`: whether one of its global
    /// patterns matches it.
    pub fn is_exported(&self, symbol: &[u8]) -> (r: bool)
        ensures
            r == self.global.matches(symbol@),
    {
        self.global.is_match(symbol)
    }
}

/// The token that an error names is one of the tokens of the text.
pub open spec fn names_token(r: Result<(Map<Seq<u8>, bool>, int), ErrorModel>, toks: Seq<Lexeme>) -> bool {
    match r {
        Ok((_, next)) => next <= toks.len(),
        Err(e) => match e.got {
            Some(t) => toks.contains(t),
            None => true,
        },
    }
}

proof fn lemma_list_names_token(
    text: Seq<u8>,
    toks: Seq<Lexeme>,
    i: int,
    closer: Token,
    acc: Map<Seq<u8>, bool>,
)
    ensures
        names_token(list_at(text, toks, i, closer, acc), toks),
    decreases toks.len() + 2 - i,
{
    match expect_at(toks, i, seq![Token::GlobPattern, closer]) {
        Err(e) => {},
        Ok(t) => {
            if t.token != closer {
                match parse_pattern(text.subrange(t.start, t.end)) {
                    None => {},
                    Some(p) => match expect_at(toks, i + 1, seq![Token::SemiColon]) {
                        Err(e) => {},
                        Ok(_) => {
                            lemma_list_names_token(text, toks, i + 2, closer, insert_spec(acc, p));
                        },
                    },
                }
            }
        },
    }
}

/// The span that a parse error reports lies within the text.
pub proof fn lemma_error_span(text: Seq<u8>, toks: Seq<Lexeme>)
    requires
        toks == lex(text, 0),
    ensures
        match script_of(text, toks) {
            Err(e) => match e.got {
                Some(t) => 0 <= t.start < t.end <= text.len(),
                None => true,
            },
            Ok(_) => true,
        },
{
    lemma_list_names_token(text, toks, 3, Token::Local, Map::empty());
    match list_at(text, toks, 3, Token::Local, Map::empty()) {
        Ok((_, i)) => {
            lemma_list_names_token(text, toks, i + 1, Token::BraceClose, Map::empty());
        },
        Err(_) => {},
    }
    match script_of(text, toks) {
        Err(e) => match e.got {
            Some(t) => {
                assert(toks.contains(t));
                let k = choose|k: int| 0 <= k < toks.len() && toks[k] == t;
                lemma_lex_spans(text, 0, k);
            },
            None => {},
        },
        Ok(_) => {},
    }
}

/// The patterns of a well-formed list that begins at place `i` and ends
/// with the token `closer`, in the order in which they are written.
pub open spec fn listed(text: Seq<u8>, toks: Seq<Lexeme>, i: int, closer: Token) -> Seq<GlobPattern<Seq<u8>>>
    decreases toks.len() + 2 - i,
{
    match expect_at(toks, i, seq![Token::GlobPattern, closer]) {
        Err(_) => Seq::empty(),
        Ok(t) => if t.token == closer {
            Seq::empty()
        } else {
            match parse_pattern(text.subrange(t.start, t.end)) {
                None => Seq::empty(),
                Some(p) => match expect_at(toks, i + 1, seq![Token::SemiColon]) {
                    Err(_) => Seq::empty(),
                    Ok(_) => seq![p] + listed(text, toks, i + 2, closer),
                },
            }
        },
    }
}

/// The patterns that a well-formed script lists as global.
pub open spec fn global_patterns(text: Seq<u8>) -> Seq<GlobPattern<Seq<u8>>> {
    listed(text, lex(text, 0), 3, Token::Local)
}

/// The patterns that a well-formed script lists as local.
pub open spec fn local_patterns(text: Seq<u8>) -> Seq<GlobPattern<Seq<u8>>> {
    listed(text, lex(text, 0), 5 + 2 * (global_patterns(text).len() as int), Token::BraceClose)
}

/// A list that parses holds its patterns in every second place, and gives
/// the set into which they were inserted one after another.
pub proof fn lemma_list_inserts(
    text: Seq<u8>,
    toks: Seq<Lexeme>,
    i: int,
    closer: Token,
    acc: Map<Seq<u8>, bool>,
)
    requires
        list_at(text, toks, i, closer, acc) is Ok,
    ensures
        list_at(text, toks, i, closer, acc)->Ok_0.0 == insert_all(acc, listed(text, toks, i, closer)),
        list_at(text, toks, i, closer, acc)->Ok_0.1 == i + 2 * listed(text, toks, i, closer).len() + 1,
    decreases toks.len() + 2 - i,
{
    let t = expect_at(toks, i, seq![Token::GlobPattern, closer])->Ok_0;
    if t.token != closer {
        let p = parse_pattern(text.subrange(t.start, t.end))->Some_0;
        lemma_list_inserts(text, toks, i + 2, closer, insert_spec(acc, p));
        let rest = listed(text, toks, i + 2, closer);
        assert((seq![p] + rest).drop_first() =~= rest);
    }
}

/// The two sets of a script that parses are those built from the empty set
/// by inserting the patterns of its two lists in the order in which they are
/// written.
pub proof fn lemma_script_builds(text: Seq<u8>)
    requires
        parse_script(text) is Ok,
    ensures
        parse_script(text)->Ok_0.global == build(global_patterns(text)),
        parse_script(text)->Ok_0.local == build(local_patterns(text)),
{
    let toks = lex(text, 0);
    lemma_list_inserts(text, toks, 3, Token::Local, Map::empty());
    let i = list_at(text, toks, 3, Token::Local, Map::empty())->Ok_0.1;
    lemma_list_inserts(text, toks, i + 1, Token::BraceClose, Map::empty());
    lemma_insert_all_builds(global_patterns(text));
    lemma_insert_all_builds(local_patterns(text));
}

/// A script that parses exports a symbol exactly if one of its global
/// patterns matches the symbol.
pub proof fn lemma_exported_is_listed(text: Seq<u8>, symbol: Seq<u8>)
    requires
        parse_script(text) is Ok,
    ensures
        set_matches(parse_script(text)->Ok_0.global, symbol) == naive_match(global_patterns(text), symbol),
{
    lemma_script_builds(text);
    lemma_predecessor_search_is_scan(global_patterns(text), symbol);
}

} // verus!

//! Lexical analysis: bytes in, positioned token records out.
//!
//! The scanner is a deterministic automaton whose states are token kinds. Its
//! rules are the spec function [`transition`]; the table that the scanner
//! consults at run time is proved equal to it. What the scanner returns is
//! pinned down by [`tokens_from`], a longest-match reading of the input.

use vstd::prelude::*;

verus! {

/// The kind of a token; also the state set of the scanner's automaton.
#[derive(Debug, Copy, Clone, PartialEq, Eq, Structural, Default)]
pub enum Token {
    /// Start state of the automaton; never the kind of an emitted record.
    #[default]
    Start,
    Identifier,
    Number,
    String,
    Let,
    Mut,
    Fn,
    Return,
    If,
    Else,
    For,
    While,
    In,
    Match,
    Struct,
    Std,
    Colon,
    DoubleColon,
    Comma,
    Dot,
    Range,
    Arrow,
    LeftParantheses,
    RightParantheses,
    LeftBraces,
    RightBraces,
    LeftSquareBracket,
    RightSquareBracket,
    Assignment,
    Equals,
    Inequal,
    LowerThan,
    GreaterThan,
    LowerEqual,
    GreaterEqual,
    Addition,
    Subtraction,
    Star,
    Division,
    Modulo,
    BwAnd,
    BwOr,
    BwXor,
    BwNot,
    BwShl,
    BwShr,
    And,
    Or,
    /// A run of blanks; scanned and dropped.
    EOT,
    /// The sentinel that ends every token sequence.
    EOF,
    /// Inside a string literal whose closing quote has not been seen.
    OpenString,
    /// After a `!` that still waits for its `=`.
    Bang,
}

/// Number of automaton states, one per token kind.
pub const NUM_STATES: usize = 52;

/// Number of input symbols: every byte value.
pub const ALPHABET_LEN: usize = 256;

/// Longest input the scanner takes: every column must fit in 32 bits even if
/// each byte is a tab.
pub const MAX_INPUT_LEN: usize = 0x3fff_ffff;

/// A place in the source text; rows and columns count from one.
#[derive(Debug, Copy, Clone, PartialEq, Eq, Structural, Default)]
pub struct Position {
    pub row: u32,
    pub col: u32,
}

/// One token record: its kind, its text and where the text starts.
#[derive(Debug, PartialEq, Default)]
pub struct TokenInfo {
    pub token: Token,
    pub lexeme: String,
    pub start_position: Position,
}

/// The mathematical content of a token record.
pub struct TokenView {
    pub token: Token,
    pub lexeme: Seq<char>,
    pub start_position: Position,
}

impl View for TokenInfo {
    type V = TokenView;

    open spec fn view(&self) -> TokenView {
        TokenView { token: self.token, lexeme: self.lexeme@, start_position: self.start_position }
    }
}

impl Clone for TokenInfo {
    fn clone(&self) -> (res: Self)
        ensures
            res@ == self@,
    {
        TokenInfo {
            token: self.token,
            lexeme: self.lexeme.clone(),
            start_position: self.start_position,
        }
    }
}

/// The views of a sequence of token records, in order.
pub open spec fn token_views(tokens: Seq<TokenInfo>) -> Seq<TokenView> {
    tokens.map_values(|t: TokenInfo| t@)
}

/// Why scanning stopped.
#[derive(Debug)]
pub enum Error {
    /// No rule matches the text that starts at the position.
    InvalidPattern(String, Position),
    /// The source could not be read.
    InvalidStream,
    /// The input ended inside the string literal that starts at the position.
    UnclosedString(Position),
}

/// The mathematical content of a scanning error.
pub enum ErrorView {
    InvalidPattern(Seq<char>, Position),
    InvalidStream,
    UnclosedString(Position),
}

impl View for Error {
    type V = ErrorView;

    open spec fn view(&self) -> ErrorView {
        match self {
            Error::InvalidPattern(lexeme, position) => ErrorView::InvalidPattern(
                lexeme@,
                *position,
            ),
            Error::InvalidStream => ErrorView::InvalidStream,
            Error::UnclosedString(position) => ErrorView::UnclosedString(*position),
        }
    }
}

/// The line that reports a scanning error.
pub open spec fn error_message(error: ErrorView) -> Seq<char> {
    match error {
        ErrorView::InvalidPattern(lexeme, position) => "Tokenizer error: invalid pattern "@ + lexeme
            + " on line "@ + crate::text::decimal(position.row as int),
        ErrorView::InvalidStream => "Tokenizer error: invalid stream. Cannot read"@,
        ErrorView::UnclosedString(position) => "Tokenizer error: Unclosed string on line "@
            + crate::text::decimal(position.row as int),
    }
}

impl Error {
    /// The line that reports the error: what went wrong and on which line
    /// of the source.
    pub fn to_string(&self) -> (text: String)
        ensures
            text@ == error_message(self@),
    {
        let mut text = String::new();
        match self {
            Error::InvalidPattern(lexeme, position) => {
                text.append("Tokenizer error: invalid pattern ");
                text.append(lexeme.as_str());
                text.append(" on line ");
                crate::text::write_decimal(&mut text, position.row as i64);
            },
            Error::InvalidStream => {
                text.append("Tokenizer error: invalid stream. Cannot read");
            },
            Error::UnclosedString(position) => {
                text.append("Tokenizer error: Unclosed string on line ");
                crate::text::write_decimal(&mut text, position.row as i64);
            },
        }
        assert(text@ =~= error_message(self@));
        text
    }
}

/// `String::push` of the standard library: the character is appended and
/// nothing else changes.
pub assume_specification[ std::string::String::push ](s: &mut std::string::String, c: char)
    ensures
        final(s)@ == old(s)@.push(c),
;

// ---------------------------------------------------------------------------
// The automaton
// ---------------------------------------------------------------------------

/// Blank, tab or line feed: the bytes that separate tokens.
pub open spec fn is_blank(c: u8) -> bool {
    c == 32 || c == 9 || c == 10
}

/// An ASCII decimal digit.
pub open spec fn is_digit(c: u8) -> bool {
    48 <= c <= 57
}

/// An ASCII letter or the underscore: what an identifier may start with.
pub open spec fn is_identifier_start(c: u8) -> bool {
    (97 <= c <= 122) || (65 <= c <= 90) || c == 95
}

/// The state entered from the start state on one byte; `Start` where no token
/// begins with that byte.
pub open spec fn start_transition(c: u8) -> Token {
    if c == 61 {
        Token::Assignment
    } else if c == 42 {
        Token::Star
    } else if c == 47 {
        Token::Division
    } else if c == 43 {
        Token::Addition
    } else if c == 45 {
        Token::Subtraction
    } else if c == 37 {
        Token::Modulo
    } else if c == 44 {
        Token::Comma
    } else if c == 58 {
        Token::Colon
    } else if c == 46 {
        Token::Dot
    } else if c == 40 {
        Token::LeftParantheses
    } else if c == 41 {
        Token::RightParantheses
    } else if c == 123 {
        Token::LeftBraces
    } else if c == 125 {
        Token::RightBraces
    } else if c == 91 {
        Token::LeftSquareBracket
    } else if c == 93 {
        Token::RightSquareBracket
    } else if c == 60 {
        Token::LowerThan
    } else if c == 62 {
        Token::GreaterThan
    } else if c == 38 {
        Token::BwAnd
    } else if c == 124 {
        Token::BwOr
    } else if c == 94 {
        Token::BwXor
    } else if c == 126 {
        Token::BwNot
    } else if c == 33 {
        Token::Bang
    } else if c == 34 {
        Token::OpenString
    } else if is_digit(c) {
        Token::Number
    } else if is_identifier_start(c) {
        Token::Identifier
    } else if is_blank(c) {
        Token::EOT
    } else {
        Token::Start
    }
}

/// The automaton's rules: the state that follows `state` on byte `c`, or
/// `Start` where `c` does not extend the token being read.
pub open spec fn transition(state: Token, c: u8) -> Token {
    match state {
        Token::Start => start_transition(c),
        Token::Assignment => if c == 61 {
            Token::Equals
        } else if c == 62 {
            Token::Arrow
        } else {
            Token::Start
        },
        Token::Colon => if c == 58 {
            Token::DoubleColon
        } else {
            Token::Start
        },
        Token::Dot => if c == 46 {
            Token::Range
        } else {
            Token::Start
        },
        Token::LowerThan => if c == 60 {
            Token::BwShl
        } else if c == 61 {
            Token::LowerEqual
        } else {
            Token::Start
        },
        Token::GreaterThan => if c == 62 {
            Token::BwShr
        } else if c == 61 {
            Token::GreaterEqual
        } else {
            Token::Start
        },
        Token::BwAnd => if c == 38 {
            Token::And
        } else {
            Token::Start
        },
        Token::BwOr => if c == 124 {
            Token::Or
        } else {
            Token::Start
        },
        Token::Bang => if c == 61 {
            Token::Inequal
        } else {
            Token::Start
        },
        Token::Identifier => if is_identifier_start(c) || is_digit(c) {
            Token::Identifier
        } else {
            Token::Start
        },
        Token::Number => if is_digit(c) {
            Token::Number
        } else {
            Token::Start
        },
        Token::OpenString => if c == 34 {
            Token::String
        } else {
            Token::OpenString
        },
        Token::EOT => if is_blank(c) {
            Token::EOT
        } else {
            Token::Start
        },
        _ => Token::Start,
    }
}

/// Row of a state in the transition table.
pub open spec fn state_index(state: Token) -> int {
    match state {
        Token::Start => 0,
        Token::Identifier => 1,
        Token::Number => 2,
        Token::String => 3,
        Token::Let => 4,
        Token::Mut => 5,
        Token::Fn => 6,
        Token::Return => 7,
        Token::If => 8,
        Token::Else => 9,
        Token::For => 10,
        Token::While => 11,
        Token::In => 12,
        Token::Match => 13,
        Token::Struct => 14,
        Token::Std => 15,
        Token::Colon => 16,
        Token::DoubleColon => 17,
        Token::Comma => 18,
        Token::Dot => 19,
        Token::Range => 20,
        Token::Arrow => 21,
        Token::LeftParantheses => 22,
        Token::RightParantheses => 23,
        Token::LeftBraces => 24,
        Token::RightBraces => 25,
        Token::LeftSquareBracket => 26,
        Token::RightSquareBracket => 27,
        Token::Assignment => 28,
        Token::Equals => 29,
        Token::Inequal => 30,
        Token::LowerThan => 31,
        Token::GreaterThan => 32,
        Token::LowerEqual => 33,
        Token::GreaterEqual => 34,
        Token::Addition => 35,
        Token::Subtraction => 36,
        Token::Star => 37,
        Token::Division => 38,
        Token::Modulo => 39,
        Token::BwAnd => 40,
        Token::BwOr => 41,
        Token::BwXor => 42,
        Token::BwNot => 43,
        Token::BwShl => 44,
        Token::BwShr => 45,
        Token::And => 46,
        Token::Or => 47,
        Token::EOT => 48,
        Token::EOF => 49,
        Token::OpenString => 50,
        Token::Bang => 51,
    }
}

/// A table holds the automaton: one row per state, one column per byte, each
/// cell the state that `transition` gives.
pub open spec fn is_transition_table(table: Seq<Vec<Token>>) -> bool {
    &&& table.len() == NUM_STATES
    &&& forall|s: int| 0 <= s < NUM_STATES ==> (#[trigger] table[s])@.len() == ALPHABET_LEN
    &&& forall|state: Token, c: u8| #[trigger]
        table[state_index(state)]@[c as int] == transition(state, c)
}

fn index_of_state(state: Token) -> (i: usize)
    ensures
        i == state_index(state),
        i < NUM_STATES,
{
    match state {
        Token::Start => 0,
        Token::Identifier => 1,
        Token::Number => 2,
        Token::String => 3,
        Token::Let => 4,
        Token::Mut => 5,
        Token::Fn => 6,
        Token::Return => 7,
        Token::If => 8,
        Token::Else => 9,
        Token::For => 10,
        Token::While => 11,
        Token::In => 12,
        Token::Match => 13,
        Token::Struct => 14,
        Token::Std => 15,
        Token::Colon => 16,
        Token::DoubleColon => 17,
        Token::Comma => 18,
        Token::Dot => 19,
        Token::Range => 20,
        Token::Arrow => 21,
        Token::LeftParantheses => 22,
        Token::RightParantheses => 23,
        Token::LeftBraces => 24,
        Token::RightBraces => 25,
        Token::LeftSquareBracket => 26,
        Token::RightSquareBracket => 27,
        Token::Assignment => 28,
        Token::Equals => 29,
        Token::Inequal => 30,
        Token::LowerThan => 31,
        Token::GreaterThan => 32,
        Token::LowerEqual => 33,
        Token::GreaterEqual => 34,
        Token::Addition => 35,
        Token::Subtraction => 36,
        Token::Star => 37,
        Token::Division => 38,
        Token::Modulo => 39,
        Token::BwAnd => 40,
        Token::BwOr => 41,
        Token::BwXor => 42,
        Token::BwNot => 43,
        Token::BwShl => 44,
        Token::BwShr => 45,
        Token::And => 46,
        Token::Or => 47,
        Token::EOT => 48,
        Token::EOF => 49,
        Token::OpenString => 50,
        Token::Bang => 51,
    }
}

fn state_at_index(i: usize) -> (state: Token)
    requires
        i < NUM_STATES,
    ensures
        state_index(state) == i,
{
    match i {
        0 => Token::Start,
        1 => Token::Identifier,
        2 => Token::Number,
        3 => Token::String,
        4 => Token::Let,
        5 => Token::Mut,
        6 => Token::Fn,
        7 => Token::Return,
        8 => Token::If,
        9 => Token::Else,
        10 => Token::For,
        11 => Token::While,
        12 => Token::In,
        13 => Token::Match,
        14 => Token::Struct,
        15 => Token::Std,
        16 => Token::Colon,
        17 => Token::DoubleColon,
        18 => Token::Comma,
        19 => Token::Dot,
        20 => Token::Range,
        21 => Token::Arrow,
        22 => Token::LeftParantheses,
        23 => Token::RightParantheses,
        24 => Token::LeftBraces,
        25 => Token::RightBraces,
        26 => Token::LeftSquareBracket,
        27 => Token::RightSquareBracket,
        28 => Token::Assignment,
        29 => Token::Equals,
        30 => Token::Inequal,
        31 => Token::LowerThan,
        32 => Token::GreaterThan,
        33 => Token::LowerEqual,
        34 => Token::GreaterEqual,
        35 => Token::Addition,
        36 => Token::Subtraction,
        37 => Token::Star,
        38 => Token::Division,
        39 => Token::Modulo,
        40 => Token::BwAnd,
        41 => Token::BwOr,
        42 => Token::BwXor,
        43 => Token::BwNot,
        44 => Token::BwShl,
        45 => Token::BwShr,
        46 => Token::And,
        47 => Token::Or,
        48 => Token::EOT,
        49 => Token::EOF,
        50 => Token::OpenString,
        _ => Token::Bang,
    }
}

fn start_rule(c: u8) -> (next: Token)
    ensures
        next == start_transition(c),
{
    if c == 61 {
        Token::Assignment
    } else if c == 42 {
        Token::Star
    } else if c == 47 {
        Token::Division
    } else if c == 43 {
        Token::Addition
    } else if c == 45 {
        Token::Subtraction
    } else if c == 37 {
        Token::Modulo
    } else if c == 44 {
        Token::Comma
    } else if c == 58 {
        Token::Colon
    } else if c == 46 {
        Token::Dot
    } else if c == 40 {
        Token::LeftParantheses
    } else if c == 41 {
        Token::RightParantheses
    } else if c == 123 {
        Token::LeftBraces
    } else if c == 125 {
        Token::RightBraces
    } else if c == 91 {
        Token::LeftSquareBracket
    } else if c == 93 {
        Token::RightSquareBracket
    } else if c == 60 {
        Token::LowerThan
    } else if c == 62 {
        Token::GreaterThan
    } else if c == 38 {
        Token::BwAnd
    } else if c == 124 {
        Token::BwOr
    } else if c == 94 {
        Token::BwXor
    } else if c == 126 {
        Token::BwNot
    } else if c == 33 {
        Token::Bang
    } else if c == 34 {
        Token::OpenString
    } else if 48 <= c && c <= 57 {
        Token::Number
    } else if (97 <= c && c <= 122) || (65 <= c && c <= 90) || c == 95 {
        Token::Identifier
    } else if c == 32 || c == 9 || c == 10 {
        Token::EOT
    } else {
        Token::Start
    }
}

fn rule(state: Token, c: u8) -> (next: Token)
    ensures
        next == transition(state, c),
{
    let digit = 48 <= c && c <= 57;
    let word = (97 <= c && c <= 122) || (65 <= c && c <= 90) || c == 95;
    let blank = c == 32 || c == 9 || c == 10;
    match state {
        Token::Start => start_rule(c),
        Token::Assignment => if c == 61 {
            Token::Equals
        } else if c == 62 {
            Token::Arrow
        } else {
            Token::Start
        },
        Token::Colon => if c == 58 {
            Token::DoubleColon
        } else {
            Token::Start
        },
        Token::Dot => if c == 46 {
            Token::Range
        } else {
            Token::Start
        },
        Token::LowerThan => if c == 60 {
            Token::BwShl
        } else if c == 61 {
            Token::LowerEqual
        } else {
            Token::Start
        },
        Token::GreaterThan => if c == 62 {
            Token::BwShr
        } else if c == 61 {
            Token::GreaterEqual
        } else {
            Token::Start
        },
        Token::BwAnd => if c == 38 {
            Token::And
        } else {
            Token::Start
        },
        Token::BwOr => if c == 124 {
            Token::Or
        } else {
            Token::Start
        },
        Token::Bang => if c == 61 {
            Token::Inequal
        } else {
            Token::Start
        },
        Token::Identifier => if word || digit {
            Token::Identifier
        } else {
            Token::Start
        },
        Token::Number => if digit {
            Token::Number
        } else {
            Token::Start
        },
        Token::OpenString => if c == 34 {
            Token::String
        } else {
            Token::OpenString
        },
        Token::EOT => if blank {
            Token::EOT
        } else {
            Token::Start
        },
        _ => Token::Start,
    }
}

fn create_transitions_row(state: Token) -> (row: Vec<Token>)
    ensures
        row@.len() == ALPHABET_LEN,
        forall|c: u8| #[trigger] row@[c as int] == transition(state, c),
{
    let mut row: Vec<Token> = Vec::new();
    let mut c: u8 = 0;
    while row.len() < ALPHABET_LEN
        invariant
            row@.len() <= ALPHABET_LEN,
            row@.len() < ALPHABET_LEN ==> c as int == row@.len(),
            forall|b: u8| (b as int) < row@.len() ==> #[trigger] row@[b as int] == transition(state, b),
        decreases ALPHABET_LEN - row@.len(),
    {
        row.push(rule(state, c));
        if c < 255 {
            c = c + 1;
        }
    }
    row
}

/// Builds the automaton's table from its rules.
fn create_transitions_table() -> (table: Vec<Vec<Token>>)
    ensures
        is_transition_table(table@),
{
    let mut table: Vec<Vec<Token>> = Vec::new();
    while table.len() < NUM_STATES
        invariant
            table@.len() <= NUM_STATES,
            forall|s: int| 0 <= s < table@.len() ==> (#[trigger] table@[s])@.len() == ALPHABET_LEN,
            forall|state: Token, c: u8|
                state_index(state) < table@.len() ==> #[trigger] table@[state_index(state)]@[c as int]
                    == transition(state, c),
        decreases NUM_STATES - table@.len(),
    {
        let state = state_at_index(table.len());
        let row = create_transitions_row(state);
        proof {
            assert forall|other: Token| state_index(other) == state_index(state) implies other
                == state by {}
        }
        table.push(row);
    }
    table
}


// ---------------------------------------------------------------------------
// What scanning means
// ---------------------------------------------------------------------------

/// Row after a byte is read at `row`.
pub open spec fn advance_row(row: int, c: u8) -> int {
    if c == 10 {
        row + 1
    } else {
        row
    }
}

/// Column after a byte is read at `col`: a line feed starts a new line, a tab
/// is four columns wide, any other byte one.
pub open spec fn advance_col(col: int, c: u8) -> int {
    if c == 10 {
        1
    } else if c == 9 {
        col + 4
    } else {
        col + 1
    }
}

/// Row of the byte at offset `n`, counted from one.
pub open spec fn row_at(input: Seq<u8>, n: int) -> int
    decreases n,
{
    if n <= 0 {
        1
    } else {
        advance_row(row_at(input, n - 1), input[n - 1])
    }
}

/// Column of the byte at offset `n`, counted from one.
pub open spec fn col_at(input: Seq<u8>, n: int) -> int
    decreases n,
{
    if n <= 0 {
        1
    } else {
        advance_col(col_at(input, n - 1), input[n - 1])
    }
}

/// Source position of the byte at offset `n`.
pub open spec fn position_at(input: Seq<u8>, n: int) -> Position {
    Position { row: row_at(input, n) as u32, col: col_at(input, n) as u32 }
}

/// The bytes read as characters, one for one.
pub open spec fn chars_of(bytes: Seq<u8>) -> Seq<char> {
    bytes.map_values(|b: u8| b as char)
}

/// Offset at which the automaton, in `state` before the byte at `i`, stops:
/// the first byte that does not extend the token, or the end of the input.
pub open spec fn scan_end(input: Seq<u8>, state: Token, i: int) -> int
    decreases input.len() - i,
{
    if 0 <= i < input.len() && transition(state, input[i]) != Token::Start {
        scan_end(input, transition(state, input[i]), i + 1)
    } else {
        i
    }
}

/// State in which the automaton stops when it starts in `state` before the
/// byte at `i`.
pub open spec fn scan_state(input: Seq<u8>, state: Token, i: int) -> Token
    decreases input.len() - i,
{
    if 0 <= i < input.len() && transition(state, input[i]) != Token::Start {
        scan_state(input, transition(state, input[i]), i + 1)
    } else {
        state
    }
}

/// The keyword that a lexeme spells, if it spells one.
pub open spec fn keyword(lexeme: Seq<char>) -> Option<Token> {
    if lexeme == "let"@ {
        Some(Token::Let)
    } else if lexeme == "mut"@ {
        Some(Token::Mut)
    } else if lexeme == "fn"@ {
        Some(Token::Fn)
    } else if lexeme == "return"@ {
        Some(Token::Return)
    } else if lexeme == "if"@ {
        Some(Token::If)
    } else if lexeme == "else"@ {
        Some(Token::Else)
    } else if lexeme == "for"@ {
        Some(Token::For)
    } else if lexeme == "while"@ {
        Some(Token::While)
    } else if lexeme == "in"@ {
        Some(Token::In)
    } else if lexeme == "match"@ {
        Some(Token::Match)
    } else if lexeme == "struct"@ {
        Some(Token::Struct)
    } else if lexeme == "std"@ {
        Some(Token::Std)
    } else {
        None
    }
}

/// Kind of the record emitted for a lexeme on which the automaton stopped in
/// `state`: an identifier that spells a keyword becomes that keyword.
pub open spec fn classify(state: Token, lexeme: Seq<char>) -> Token {
    if state == Token::Identifier {
        match keyword(lexeme) {
            Some(word) => word,
            None => Token::Identifier,
        }
    } else {
        state
    }
}

/// The record read at offset `i` and the offset after it. At the end of the
/// input this is the `EOF` sentinel; a run of blanks reads as one `EOT`
/// record with no text.
pub open spec fn next_token(input: Seq<u8>, i: int) -> Result<(TokenView, int), ErrorView> {
    let start = position_at(input, i);
    if i >= input.len() {
        Ok((TokenView { token: Token::EOF, lexeme: Seq::empty(), start_position: start }, i))
    } else {
        let state = scan_state(input, Token::Start, i);
        let end = scan_end(input, Token::Start, i);
        let lexeme = chars_of(input.subrange(i, end));
        match state {
            Token::Start => Err(
                ErrorView::InvalidPattern(chars_of(input.subrange(i, i + 1)), start),
            ),
            Token::Bang => Err(ErrorView::InvalidPattern(lexeme, start)),
            Token::OpenString => Err(ErrorView::UnclosedString(start)),
            Token::EOT => Ok(
                (TokenView { token: Token::EOT, lexeme: Seq::empty(), start_position: start }, end),
            ),
            _ => Ok(
                (
                    TokenView {
                        token: classify(state, lexeme),
                        lexeme: lexeme,
                        start_position: start,
                    },
                    end,
                ),
            ),
        }
    }
}

/// `head` put before the records of `tail`; an error stays what it is.
pub open spec fn prepend(head: Seq<TokenView>, tail: Result<Seq<TokenView>, ErrorView>) -> Result<
    Seq<TokenView>,
    ErrorView,
> {
    match tail {
        Ok(rest) => Ok(head + rest),
        Err(e) => Err(e),
    }
}

/// The token sequence of the input from offset `i` on: records in source
/// order, blanks dropped, `EOF` last; or the first error.
pub open spec fn tokens_from(input: Seq<u8>, i: int) -> Result<Seq<TokenView>, ErrorView>
    decreases input.len() - i,
{
    match next_token(input, i) {
        Err(e) => Err(e),
        Ok((token, end)) => {
            if i >= input.len() {
                Ok(seq![token])
            } else {
                proof {
                    lemma_scan_progress(input, Token::Start, i);
                }
                if token.token == Token::EOT {
                    tokens_from(input, end)
                } else {
                    prepend(seq![token], tokens_from(input, end))
                }
            }
        },
    }
}

/// The token sequence of a whole input.
pub open spec fn tokens_of(input: Seq<u8>) -> Result<Seq<TokenView>, ErrorView> {
    tokens_from(input, 0)
}

/// A well-formed token sequence: it ends in an `EOF` record without text, and
/// no record before that has the kind `EOF`.
pub open spec fn is_token_sequence(tokens: Seq<TokenView>) -> bool {
    &&& tokens.len() > 0
    &&& tokens.last().token == Token::EOF
    &&& tokens.last().lexeme.len() == 0
    &&& forall|k: int| 0 <= k < tokens.len() - 1 ==> (#[trigger] tokens[k]).token != Token::EOF
}

/// The automaton never stops before where it starts, and a token that it
/// accepts from the start state has at least one byte.
pub proof fn lemma_scan_progress(input: Seq<u8>, state: Token, i: int)
    ensures
        scan_end(input, state, i) >= i,
        0 <= i ==> scan_end(input, state, i) <= input.len() || scan_end(input, state, i) == i,
        state != Token::Start ==> scan_state(input, state, i) != Token::Start,
        state != Token::EOF ==> scan_state(input, state, i) != Token::EOF,
        scan_state(input, state, i) != state ==> scan_end(input, state, i) > i,
    decreases input.len() - i,
{
    if 0 <= i < input.len() && transition(state, input[i]) != Token::Start {
        lemma_scan_progress(input, transition(state, input[i]), i + 1);
    }
}

/// Rows and columns stay within what the input's length allows.
pub proof fn lemma_position_bounds(input: Seq<u8>, n: int)
    requires
        0 <= n,
    ensures
        1 <= row_at(input, n) <= n + 1,
        1 <= col_at(input, n) <= 4 * n + 1,
    decreases n,
{
    if n > 0 {
        lemma_position_bounds(input, n - 1);
    }
}

// ---------------------------------------------------------------------------
// The scanner
// ---------------------------------------------------------------------------

/// Scanner state: the automaton's table, the offset of the next unread byte
/// and that byte's source position.
struct DFA {
    table: Vec<Vec<Token>>,
    offset: usize,
    position: Position,
}

impl DFA {
    spec fn wf(&self, input: Seq<u8>) -> bool {
        &&& is_transition_table(self.table@)
        &&& self.offset <= input.len() <= MAX_INPUT_LEN
        &&& self.position == position_at(input, self.offset as int)
    }
}

/// The position behind a byte that is read at `position`.
pub fn next_position(position: Position, code: u8) -> (next: Position)
    requires
        position.row < u32::MAX,
        position.col <= u32::MAX - 4,
    ensures
        next.row == advance_row(position.row as int, code),
        next.col == advance_col(position.col as int, code),
{
    let mut pos = position;
    if code == 10 {
        pos.row = pos.row + 1;
        pos.col = 1;
        return pos;
    }
    if code == 9 {
        pos.col = pos.col + 4;
        return pos;
    }
    pos.col = pos.col + 1;
    pos
}

/// The position before a byte that was read up to `position`: the rewind
/// of one byte. It reverses `next_position` for every byte but the line
/// feed, behind which the column of the line before is not known and is
/// given as one.
pub fn prev_position(position: Position, prev_code: u8) -> (prev: Position)
    requires
        prev_code == 10 ==> position.row >= 1,
        prev_code == 9 ==> position.col >= 4,
        prev_code != 10 && prev_code != 9 ==> position.col >= 1,
    ensures
        prev_code == 10 ==> prev.row == position.row - 1 && prev.col == 1,
        prev_code == 9 ==> prev.row == position.row && prev.col == position.col - 4,
        prev_code != 10 && prev_code != 9 ==> prev.row == position.row && prev.col == position.col
            - 1,
        prev_code != 10 ==> advance_row(prev.row as int, prev_code) == position.row
            && advance_col(prev.col as int, prev_code) == position.col,
{
    let mut pos = position;
    if prev_code == 10 {
        pos.row = pos.row - 1;
        pos.col = 1;
        return pos;
    }
    if prev_code == 9 {
        pos.col = pos.col - 4;
        return pos;
    }
    pos.col = pos.col - 1;
    pos
}

fn is_word(lexeme: &String, word: &str) -> (same: bool)
    ensures
        same == (lexeme@ == word@),
{
    let other = String::from_str(word);
    *lexeme == other
}

fn assign_if_reserved_identifier(state: Token, lexeme: &String) -> (kind: Token)
    ensures
        kind == classify(state, lexeme@),
{
    if state != Token::Identifier {
        state
    } else if is_word(lexeme, "let") {
        Token::Let
    } else if is_word(lexeme, "mut") {
        Token::Mut
    } else if is_word(lexeme, "fn") {
        Token::Fn
    } else if is_word(lexeme, "return") {
        Token::Return
    } else if is_word(lexeme, "if") {
        Token::If
    } else if is_word(lexeme, "else") {
        Token::Else
    } else if is_word(lexeme, "for") {
        Token::For
    } else if is_word(lexeme, "while") {
        Token::While
    } else if is_word(lexeme, "in") {
        Token::In
    } else if is_word(lexeme, "match") {
        Token::Match
    } else if is_word(lexeme, "struct") {
        Token::Struct
    } else if is_word(lexeme, "std") {
        Token::Std
    } else {
        Token::Identifier
    }
}

/// Reads one record at the scanner's offset and moves the scanner past it.
fn get_token(input: &[u8], dfa: &mut DFA) -> (res: Result<TokenInfo, Error>)
    requires
        old(dfa).wf(input@),
    ensures
        final(dfa).wf(input@),
        match res {
            Ok(token) => next_token(input@, old(dfa).offset as int) == Ok::<
                (TokenView, int),
                ErrorView,
            >((token@, final(dfa).offset as int)),
            Err(e) => next_token(input@, old(dfa).offset as int) == Err::<
                (TokenView, int),
                ErrorView,
            >(e@),
        },
{
    let start = dfa.position;
    let begin = dfa.offset;
    if begin >= input.len() {
        return Ok(TokenInfo { token: Token::EOF, lexeme: String::new(), start_position: start });
    }
    let mut state = Token::Start;
    let mut lexeme = String::new();
    let mut extends = true;
    while extends && dfa.offset < input.len()
        invariant
            dfa.wf(input@),
            begin <= dfa.offset,
            scan_state(input@, Token::Start, begin as int) == scan_state(
                input@,
                state,
                dfa.offset as int,
            ),
            scan_end(input@, Token::Start, begin as int) == scan_end(
                input@,
                state,
                dfa.offset as int,
            ),
            lexeme@ == chars_of(input@.subrange(begin as int, dfa.offset as int)),
            !extends ==> dfa.offset < input.len() && transition(state, input@[dfa.offset as int])
                == Token::Start,
        decreases input.len() - dfa.offset, (if extends { 1int } else { 0int }),
    {
        let c = input[dfa.offset];
        let next = dfa.table[index_of_state(state)][c as usize];
        assert(next == transition(state, c));
        if next == Token::Start {
            extends = false;
        } else {
            proof {
                lemma_position_bounds(input@, dfa.offset as int);
                assert(input@.subrange(begin as int, dfa.offset + 1) == input@.subrange(
                    begin as int,
                    dfa.offset as int,
                ).push(c));
            }
            state = next;
            lexeme.push(c as char);
            dfa.position = next_position(dfa.position, c);
            dfa.offset = dfa.offset + 1;
            proof {
                lemma_position_bounds(input@, dfa.offset as int);
            }
        }
    }
    match state {
        Token::Start => {
            let mut text = String::new();
            text.push(input[begin] as char);
            assert(chars_of(input@.subrange(begin as int, begin + 1)) == seq![
                input@[begin as int] as char,
            ]);
            Err(Error::InvalidPattern(text, start))
        },
        Token::Bang => Err(Error::InvalidPattern(lexeme, start)),
        Token::OpenString => Err(Error::UnclosedString(start)),
        Token::EOT => Ok(
            TokenInfo { token: Token::EOT, lexeme: String::new(), start_position: start },
        ),
        _ => {
            let kind = assign_if_reserved_identifier(state, &lexeme);
            Ok(TokenInfo { token: kind, lexeme: lexeme, start_position: start })
        },
    }
}

/// Splits the input into token records.
///
/// The result is the longest-match reading of the input, `tokens_of`: the
/// records in source order with blanks dropped and one `EOF` record last, or
/// the error of the first text that no rule matches.
pub fn tokenize(input: &[u8]) -> (res: Result<Vec<TokenInfo>, Error>)
    requires
        input@.len() <= MAX_INPUT_LEN,
    ensures
        match res {
            Ok(tokens) => tokens_of(input@) == Ok::<Seq<TokenView>, ErrorView>(
                token_views(tokens@),
            ) && is_token_sequence(token_views(tokens@)),
            Err(e) => tokens_of(input@) == Err::<Seq<TokenView>, ErrorView>(e@),
        },
{
    let mut dfa = DFA {
        table: create_transitions_table(),
        offset: 0,
        position: Position { row: 1, col: 1 },
    };
    let mut vec: Vec<TokenInfo> = Vec::new();
    let mut done = false;
    while !done
        invariant
            dfa.wf(input@),
            tokens_of(input@) == (if done {
                Ok::<Seq<TokenView>, ErrorView>(token_views(vec@))
            } else {
                prepend(token_views(vec@), tokens_from(input@, dfa.offset as int))
            }),
        decreases input.len() - dfa.offset, (if done { 0int } else { 1int }),
    {
        let ghost before = dfa.offset as int;
        let ghost seen = token_views(vec@);
        proof {
            lemma_scan_progress(input@, Token::Start, before);
        }
        match get_token(input, &mut dfa) {
            Err(e) => {
                return Err(e);
            },
            Ok(token) => {
                if token.token == Token::EOF {
                    vec.push(token);
                    done = true;
                    assert(token_views(vec@) == seen + seq![token@]);
                } else if token.token != Token::EOT {
                    vec.push(token);
                    assert(token_views(vec@) == seen + seq![token@]);
                    assert(prepend(seen, prepend(seq![token@], tokens_from(input@, dfa.offset as int)))
                        == prepend(seen + seq![token@], tokens_from(input@, dfa.offset as int))) by {
                        match tokens_from(input@, dfa.offset as int) {
                            Ok(rest) => {
                                assert(seen + (seq![token@] + rest) == (seen + seq![token@]) + rest);
                            },
                            Err(_) => {},
                        }
                    }
                }
            },
        }
    }
    proof {
        lemma_tokens_well_formed(input@, 0);
    }
    Ok(vec)
}

// ---------------------------------------------------------------------------
// Laws of the token sequence
// ---------------------------------------------------------------------------

/// Every token sequence ends in exactly one `EOF` record, which has no text,
/// and holds no other record of that kind.
pub proof fn lemma_tokens_well_formed(input: Seq<u8>, i: int)
    ensures
        tokens_from(input, i) matches Ok(tokens) ==> is_token_sequence(tokens),
    decreases input.len() - i,
{
    match next_token(input, i) {
        Err(e) => {},
        Ok((token, end)) => {
            lemma_scan_progress(input, Token::Start, i);
            if i >= input.len() {
                assert(seq![token].last() == token);
            } else {
                lemma_tokens_well_formed(input, end);
                if token.token != Token::EOT {
                    if let Ok(rest) = tokens_from(input, end) {
                        let all = seq![token] + rest;
                        assert(all.last() == rest.last());
                        assert forall|k: int| 0 <= k < all.len() - 1 implies (#[trigger] all[k]).token
                            != Token::EOF by {
                            if k > 0 {
                                assert(all[k] == rest[k - 1]);
                            }
                        }
                    }
                }
            }
        },
    }
}

/// The record's text is the input's bytes from `offset` on, and its position
/// is the row and column of that offset.
pub open spec fn stands_at(input: Seq<u8>, token: TokenView, offset: int) -> bool {
    &&& 0 <= offset
    &&& offset + token.lexeme.len() <= input.len()
    &&& token.lexeme == chars_of(input.subrange(offset, offset + token.lexeme.len()))
    &&& token.start_position == position_at(input, offset)
}

/// The record stands in the input at some offset not before `from`.
pub open spec fn stands_from(input: Seq<u8>, token: TokenView, from: int) -> bool {
    exists|offset: int| from <= offset && #[trigger] stands_at(input, token, offset)
}

/// Every record of a token sequence stands in the input: there is an offset
/// at which the input holds the record's text, and the record's position is
/// the row and column of the first byte of that text.
pub proof fn lemma_tokens_stand_in_input(input: Seq<u8>, i: int)
    requires
        0 <= i <= input.len(),
    ensures
        tokens_from(input, i) matches Ok(tokens) ==> forall|k: int|
            0 <= k < tokens.len() ==> stands_from(input, #[trigger] tokens[k], i),
    decreases input.len() - i,
{
    match next_token(input, i) {
        Err(e) => {},
        Ok((token, end)) => {
            lemma_scan_progress(input, Token::Start, i);
            if i >= input.len() {
                assert(chars_of(input.subrange(i, i)) =~= Seq::<char>::empty());
                assert(stands_at(input, token, i));
            } else if let Ok(rest) = tokens_from(input, end) {
                lemma_tokens_stand_in_input(input, end);
                assert forall|k: int| 0 <= k < rest.len() implies stands_from(
                    input,
                    #[trigger] rest[k],
                    i,
                ) by {
                    let record = rest[k];
                    assert(stands_from(input, record, end));
                    let offset = choose|offset: int|
                        end <= offset && #[trigger] stands_at(input, record, offset);
                    assert(i <= offset && stands_at(input, record, offset));
                }
                if token.token != Token::EOT {
                    let all = seq![token] + rest;
                    assert(token.lexeme.len() == end - i);
                    assert(stands_at(input, token, i));
                    assert forall|k: int| 0 <= k < all.len() implies stands_from(
                        input,
                        #[trigger] all[k],
                        i,
                    ) by {
                        if k > 0 {
                            assert(all[k] == rest[k - 1]);
                        } else {
                            assert(all[0] == token);
                        }
                    }
                }
            }
        },
    }
}

/// The record is what the scanner reads at some offset of the input not
/// before `from`.
pub open spec fn read_from(input: Seq<u8>, token: TokenView, from: int) -> bool {
    exists|offset: int|
        from <= offset && (#[trigger] next_token(input, offset) matches Ok(read) && read.0 == token)
}

/// Every record of a token sequence is what the scanner reads at some offset.
pub proof fn lemma_tokens_are_read(input: Seq<u8>, i: int)
    ensures
        tokens_from(input, i) matches Ok(tokens) ==> forall|k: int|
            0 <= k < tokens.len() ==> read_from(input, #[trigger] tokens[k], i),
    decreases input.len() - i,
{
    match next_token(input, i) {
        Err(e) => {},
        Ok((token, end)) => {
            lemma_scan_progress(input, Token::Start, i);
            assert(read_from(input, token, i));
            if i >= input.len() {
            } else if let Ok(rest) = tokens_from(input, end) {
                lemma_tokens_are_read(input, end);
                assert forall|k: int| 0 <= k < rest.len() implies read_from(
                    input,
                    #[trigger] rest[k],
                    i,
                ) by {
                    let record = rest[k];
                    assert(read_from(input, record, end));
                    let offset = choose|offset: int|
                        end <= offset && (#[trigger] next_token(input, offset) matches Ok(read)
                            && read.0 == record);
                    assert(i <= offset);
                }
                if token.token != Token::EOT {
                    let all = seq![token] + rest;
                    assert forall|k: int| 0 <= k < all.len() implies read_from(
                        input,
                        #[trigger] all[k],
                        i,
                    ) by {
                        if k > 0 {
                            assert(all[k] == rest[k - 1]);
                        } else {
                            assert(all[0] == token);
                        }
                    }
                }
            }
        },
    }
}

/// Keywords are reclassified: no record of a token sequence has the kind
/// `Identifier` and a lexeme that spells a keyword.
pub proof fn lemma_keywords_reclassified(input: Seq<u8>)
    ensures
        tokens_of(input) matches Ok(tokens) ==> forall|k: int|
            0 <= k < tokens.len() && (#[trigger] tokens[k]).token == Token::Identifier ==> keyword(
                tokens[k].lexeme,
            ) is None,
{
    lemma_tokens_are_read(input, 0);
    if let Ok(tokens) = tokens_of(input) {
        assert forall|k: int|
            0 <= k < tokens.len() && (#[trigger] tokens[k]).token
                == Token::Identifier implies keyword(tokens[k].lexeme) is None by {
            assert(read_from(input, tokens[k], 0));
        }
    }
}

/// A string literal's text: an opening quote, any characters but the quote,
/// a closing quote.
pub open spec fn is_quoted(lexeme: Seq<char>) -> bool {
    &&& lexeme.len() >= 2
    &&& lexeme[0] == '"'
    &&& lexeme.last() == '"'
    &&& forall|j: int| 0 < j < lexeme.len() - 1 ==> lexeme[j] != '"'
}

proof fn lemma_scan_open_string(input: Seq<u8>, j: int)
    requires
        0 <= j,
    ensures
        scan_state(input, Token::OpenString, j) == Token::String || scan_state(
            input,
            Token::OpenString,
            j,
        ) == Token::OpenString,
        scan_state(input, Token::OpenString, j) == Token::String ==> {
            let end = scan_end(input, Token::OpenString, j);
            &&& j < end <= input.len()
            &&& input[end - 1] == 34
            &&& forall|k: int| j <= k < end - 1 ==> input[k] != 34
        },
    decreases input.len() - j,
{
    if j < input.len() {
        if input[j] == 34 {
            assert(scan_end(input, Token::String, j + 1) == j + 1);
            assert(scan_state(input, Token::String, j + 1) == Token::String);
        } else {
            lemma_scan_open_string(input, j + 1);
        }
    }
}

proof fn lemma_scan_never_string(input: Seq<u8>, state: Token, j: int)
    requires
        state != Token::Start,
        state != Token::OpenString,
        state != Token::String,
    ensures
        scan_state(input, state, j) != Token::String,
    decreases input.len() - j,
{
    if 0 <= j < input.len() && transition(state, input[j]) != Token::Start {
        lemma_scan_never_string(input, transition(state, input[j]), j + 1);
    }
}

/// String literals keep both quotes: every record of the kind `String` in a
/// token sequence starts and ends with a quote and holds no other.
pub proof fn lemma_strings_quoted(input: Seq<u8>)
    ensures
        tokens_of(input) matches Ok(tokens) ==> forall|k: int|
            0 <= k < tokens.len() && (#[trigger] tokens[k]).token == Token::String ==> is_quoted(
                tokens[k].lexeme,
            ),
{
    lemma_tokens_are_read(input, 0);
    if let Ok(tokens) = tokens_of(input) {
        assert forall|k: int|
            0 <= k < tokens.len() && (#[trigger] tokens[k]).token == Token::String implies is_quoted(
            tokens[k].lexeme,
        ) by {
            let record = tokens[k];
            assert(read_from(input, record, 0));
            let i = choose|offset: int|
                0 <= offset && (#[trigger] next_token(input, offset) matches Ok(read) && read.0
                    == record);
            assert(i < input.len());
            let first = start_transition(input[i]);
            assert(scan_state(input, Token::Start, i) == Token::String);
            if first != Token::OpenString {
                if first != Token::Start {
                    lemma_scan_never_string(input, first, i + 1);
                }
            }
            lemma_scan_open_string(input, i + 1);
            let end = scan_end(input, Token::Start, i);
            assert(end == scan_end(input, Token::OpenString, i + 1));
            let lexeme = chars_of(input.subrange(i, end));
            assert(record.lexeme == lexeme);
            assert(lexeme[0] == input[i] as char);
            assert(lexeme.last() == input[end - 1] as char);
            assert forall|j: int| 0 < j < lexeme.len() - 1 implies lexeme[j] != '"' by {
                assert(lexeme[j] == input[i + j] as char);
            }
        }
    }
}

} // verus!

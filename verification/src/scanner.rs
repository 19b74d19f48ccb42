//! The scanner: from source text to tokens, one at a time.

use crate::text::push_char;
use vstd::prelude::*;
use vstd::string::*;

verus! {

/// The lexical categories.
#[derive(Clone, Copy, Debug, PartialEq, Eq, Structural)]
pub enum TokenType {
    // Single-character tokens.
    LeftParen,
    RightParen,
    LeftBrace,
    RightBrace,
    Comma,
    Dot,
    Minus,
    Plus,
    Semicolon,
    Slash,
    Star,
    // One or two character tokens.
    Bang,
    BangEqual,
    Equal,
    EqualEqual,
    Greater,
    GreaterEqual,
    Less,
    LessEqual,
    // Literals.
    Identifier,
    String,
    Number,
    // Keywords.
    And,
    Class,
    Else,
    False,
    For,
    Fun,
    If,
    Nil,
    Or,
    Print,
    Return,
    Super,
    This,
    True,
    Var,
    While,
    // A lexical error, and the end of the input.
    Error,
    EOF,
}

/// What is wrong with the text under an `Error` token.
#[derive(Clone, Copy, Debug, PartialEq, Eq, Structural)]
pub enum LexError {
    /// The input ended inside a string literal.
    UnterminatedString,
    /// A character that starts no token.
    UnexpectedCharacter(char),
}

/// A token: its category, the characters `start..end` of the source that it
/// spans, the line on which it ended and, for an `Error` token, what is
/// wrong.
#[derive(Clone, Copy, Debug, PartialEq, Eq, Structural)]
pub struct Token {
    pub typ: TokenType,
    pub start: usize,
    pub end: usize,
    pub line: usize,
    pub error: Option<LexError>,
}

impl TokenType {
    /// The name of the category: the name of its variant.
    pub open spec fn name(self) -> Seq<char> {
        match self {
            TokenType::LeftParen => "LeftParen"@,
            TokenType::RightParen => "RightParen"@,
            TokenType::LeftBrace => "LeftBrace"@,
            TokenType::RightBrace => "RightBrace"@,
            TokenType::Comma => "Comma"@,
            TokenType::Dot => "Dot"@,
            TokenType::Minus => "Minus"@,
            TokenType::Plus => "Plus"@,
            TokenType::Semicolon => "Semicolon"@,
            TokenType::Slash => "Slash"@,
            TokenType::Star => "Star"@,
            TokenType::Bang => "Bang"@,
            TokenType::BangEqual => "BangEqual"@,
            TokenType::Equal => "Equal"@,
            TokenType::EqualEqual => "EqualEqual"@,
            TokenType::Greater => "Greater"@,
            TokenType::GreaterEqual => "GreaterEqual"@,
            TokenType::Less => "Less"@,
            TokenType::LessEqual => "LessEqual"@,
            TokenType::Identifier => "Identifier"@,
            TokenType::String => "String"@,
            TokenType::Number => "Number"@,
            TokenType::And => "And"@,
            TokenType::Class => "Class"@,
            TokenType::Else => "Else"@,
            TokenType::False => "False"@,
            TokenType::For => "For"@,
            TokenType::Fun => "Fun"@,
            TokenType::If => "If"@,
            TokenType::Nil => "Nil"@,
            TokenType::Or => "Or"@,
            TokenType::Print => "Print"@,
            TokenType::Return => "Return"@,
            TokenType::Super => "Super"@,
            TokenType::This => "This"@,
            TokenType::True => "True"@,
            TokenType::Var => "Var"@,
            TokenType::While => "While"@,
            TokenType::Error => "Error"@,
            TokenType::EOF => "EOF"@,
        }
    }

    /// The name of the category.
    pub fn as_str(self) -> (text: &'static str)
        ensures
            text@ == self.name(),
    {
        match self {
            TokenType::LeftParen => "LeftParen",
            TokenType::RightParen => "RightParen",
            TokenType::LeftBrace => "LeftBrace",
            TokenType::RightBrace => "RightBrace",
            TokenType::Comma => "Comma",
            TokenType::Dot => "Dot",
            TokenType::Minus => "Minus",
            TokenType::Plus => "Plus",
            TokenType::Semicolon => "Semicolon",
            TokenType::Slash => "Slash",
            TokenType::Star => "Star",
            TokenType::Bang => "Bang",
            TokenType::BangEqual => "BangEqual",
            TokenType::Equal => "Equal",
            TokenType::EqualEqual => "EqualEqual",
            TokenType::Greater => "Greater",
            TokenType::GreaterEqual => "GreaterEqual",
            TokenType::Less => "Less",
            TokenType::LessEqual => "LessEqual",
            TokenType::Identifier => "Identifier",
            TokenType::String => "String",
            TokenType::Number => "Number",
            TokenType::And => "And",
            TokenType::Class => "Class",
            TokenType::Else => "Else",
            TokenType::False => "False",
            TokenType::For => "For",
            TokenType::Fun => "Fun",
            TokenType::If => "If",
            TokenType::Nil => "Nil",
            TokenType::Or => "Or",
            TokenType::Print => "Print",
            TokenType::Return => "Return",
            TokenType::Super => "Super",
            TokenType::This => "This",
            TokenType::True => "True",
            TokenType::Var => "Var",
            TokenType::While => "While",
            TokenType::Error => "Error",
            TokenType::EOF => "EOF",
        }
    }
}

impl LexError {
    /// The message that describes the error.
    pub open spec fn text(self) -> Seq<char> {
        match self {
            LexError::UnterminatedString => "unterminated string"@,
            LexError::UnexpectedCharacter(c) => "Unexpected character: "@.push(c),
        }
    }

    /// The message that describes the error.
    pub fn message(&self) -> (message: String)
        ensures
            message@ == self.text(),
    {
        match self {
            LexError::UnterminatedString => "unterminated string".to_owned(),
            LexError::UnexpectedCharacter(c) => {
                let mut message = "Unexpected character: ".to_owned();
                push_char(&mut message, *c);
                message
            },
        }
    }
}

impl Token {
    /// A token that stands for none of the source: an `EOF` of no length on
    /// line zero.
    pub fn new() -> (token: Token)
        ensures
            token == Token::blank(),
    {
        Token { typ: TokenType::EOF, start: 0, end: 0, line: 0, error: None }
    }

    /// The token that `new` makes.
    pub open spec fn blank() -> Token {
        Token { typ: TokenType::EOF, start: 0, end: 0, line: 0, error: None }
    }

    /// The message of an `Error` token; `None` for a token without an error.
    pub fn message(&self) -> (message: Option<String>)
        ensures
            message is Some <==> self.error is Some,
            message matches Some(m) ==> m@ == self.error->0.text(),
    {
        match &self.error {
            Some(error) => Some(error.message()),
            None => None,
        }
    }
}

/// The scanner as contracts see it: the characters of the source, the
/// position of the next character to read and the current line.
pub struct ScannerView {
    pub source: Seq<char>,
    pub current: int,
    pub line: int,
}

impl ScannerView {
    /// What holds of every scanner: the position lies inside the source or
    /// at its end, the line is at least one and at most one more than the
    /// characters read, and the source has fewer than `usize::MAX`
    /// characters.
    pub open spec fn wf(self) -> bool {
        &&& 0 <= self.current <= self.source.len() < usize::MAX
        &&& 1 <= self.line <= self.current + 1
    }

    /// The scanner after it has scanned one token.
    pub open spec fn after_token(self) -> ScannerView {
        ScannerView {
            source: self.source,
            current: next_token(self).current,
            line: next_token(self).line,
        }
    }
}

/// The outcome of scanning one token: the token, and the position and line
/// at which scanning goes on.
pub struct Scanned {
    pub token: Token,
    pub current: int,
    pub line: int,
}

/// The characters that separate tokens. A line feed is one of them, and
/// starts a new line.
pub open spec fn is_blank(c: char) -> bool {
    c == ' ' || c == '\r' || c == '\t' || c == '\n'
}

/// The first position from `pos` on that holds no blank; the end of the
/// source if blanks are all that is left.
pub open spec fn blanks_end(source: Seq<char>, pos: int) -> int
    decreases source.len() - pos,
{
    if 0 <= pos < source.len() && is_blank(source[pos]) {
        blanks_end(source, pos + 1)
    } else {
        pos
    }
}

/// The first position from `pos` on that holds `c`; the end of the source if
/// `c` does not occur again.
pub open spec fn find(source: Seq<char>, pos: int, c: char) -> int
    decreases source.len() - pos,
{
    if 0 <= pos < source.len() && source[pos] != c {
        find(source, pos + 1, c)
    } else {
        pos
    }
}

/// The number of line feeds among the characters `from..to` of the source.
pub open spec fn newlines(source: Seq<char>, from: int, to: int) -> int
    decreases to - from,
{
    if to <= from {
        0
    } else if 0 < to <= source.len() && source[to - 1] == '\n' {
        newlines(source, from, to - 1) + 1
    } else {
        newlines(source, from, to - 1)
    }
}

/// The category of a token that is one punctuation character.
pub open spec fn punctuation(c: char) -> Option<TokenType> {
    if c == '(' {
        Some(TokenType::LeftParen)
    } else if c == ')' {
        Some(TokenType::RightParen)
    } else if c == '{' {
        Some(TokenType::LeftBrace)
    } else if c == '}' {
        Some(TokenType::RightBrace)
    } else if c == ',' {
        Some(TokenType::Comma)
    } else if c == '.' {
        Some(TokenType::Dot)
    } else if c == '-' {
        Some(TokenType::Minus)
    } else if c == '+' {
        Some(TokenType::Plus)
    } else if c == ';' {
        Some(TokenType::Semicolon)
    } else if c == '*' {
        Some(TokenType::Star)
    } else if c == '/' {
        Some(TokenType::Slash)
    } else {
        None
    }
}

/// For a character that an `=` may follow to make one operator of the two:
/// the category of the character alone, and that of the pair.
pub open spec fn operator(c: char) -> Option<(TokenType, TokenType)> {
    if c == '!' {
        Some((TokenType::Bang, TokenType::BangEqual))
    } else if c == '=' {
        Some((TokenType::Equal, TokenType::EqualEqual))
    } else if c == '<' {
        Some((TokenType::Less, TokenType::LessEqual))
    } else if c == '>' {
        Some((TokenType::Greater, TokenType::GreaterEqual))
    } else {
        None
    }
}

/// Whether a `//` comment starts at `pos`.
pub open spec fn comment_at(source: Seq<char>, pos: int) -> bool {
    0 <= pos && pos + 1 < source.len() && source[pos] == '/' && source[pos + 1] == '/'
}

/// A token without an error, spanning `start..end`, after which scanning
/// goes on at `end`.
pub open spec fn plain(typ: TokenType, start: int, end: int, line: int) -> Scanned {
    Scanned {
        token: Token { typ, start: start as usize, end: end as usize, line: line as usize, error: None },
        current: end,
        line,
    }
}

/// An `Error` token spanning `start..end`, after which scanning goes on at
/// `end`.
pub open spec fn failed(error: LexError, start: int, end: int, line: int) -> Scanned {
    Scanned {
        token: Token {
            typ: TokenType::Error,
            start: start as usize,
            end: end as usize,
            line: line as usize,
            error: Some(error),
        },
        current: end,
        line,
    }
}

/// The token that starts at `start`, where the source holds a character that
/// is neither a blank nor the start of a comment.
///
/// A string literal runs from its opening quote to the next quote, and
/// counts the line feeds inside it; without a closing quote it is an error
/// that takes the rest of the input. One of `!`, `=`, `<` and `>` takes a
/// following `=` with it. Any character that starts no token is an error of
/// its own.
pub open spec fn lexeme_at(source: Seq<char>, start: int, line: int) -> Scanned {
    let c = source[start];
    if c == '"' {
        let close = find(source, start + 1, '"');
        let line_after = line + newlines(source, start + 1, close);
        if close >= source.len() {
            failed(LexError::UnterminatedString, start, source.len() as int, line_after)
        } else {
            plain(TokenType::String, start, close + 1, line_after)
        }
    } else if let Some(pair) = operator(c) {
        if start + 1 < source.len() && source[start + 1] == '=' {
            plain(pair.1, start, start + 2, line)
        } else {
            plain(pair.0, start, start + 1, line)
        }
    } else if let Some(typ) = punctuation(c) {
        plain(typ, start, start + 1, line)
    } else {
        failed(LexError::UnexpectedCharacter(c), start, start + 1, line)
    }
}

/// The source is never left behind: from a position inside the source,
/// blanks end inside it or at its end.
pub proof fn lemma_blanks_end(source: Seq<char>, pos: int)
    requires
        0 <= pos <= source.len(),
    ensures
        pos <= blanks_end(source, pos) <= source.len(),
        blanks_end(source, pos) < source.len() ==> !is_blank(source[blanks_end(source, pos)]),
        forall|i: int| pos <= i < blanks_end(source, pos) ==> is_blank(#[trigger] source[i]),
    decreases source.len() - pos,
{
    if pos < source.len() && is_blank(source[pos]) {
        lemma_blanks_end(source, pos + 1);
    }
}

/// `find` gives the first occurrence: it lies at or after `pos`, nothing
/// before it is `c`, and what it points at, if anything, is `c`.
pub proof fn lemma_find(source: Seq<char>, pos: int, c: char)
    requires
        0 <= pos <= source.len(),
    ensures
        pos <= find(source, pos, c) <= source.len(),
        find(source, pos, c) < source.len() ==> source[find(source, pos, c)] == c,
        forall|i: int| pos <= i < find(source, pos, c) ==> #[trigger] source[i] != c,
    decreases source.len() - pos,
{
    if pos < source.len() && source[pos] != c {
        lemma_find(source, pos + 1, c);
    }
}

/// There are no more line feeds than characters.
pub proof fn lemma_newlines(source: Seq<char>, from: int, to: int)
    requires
        from <= to,
    ensures
        0 <= newlines(source, from, to) <= to - from,
    decreases to - from,
{
    if from < to {
        lemma_newlines(source, from, to - 1);
    }
}

/// The next token of the source from the scanner's position on.
///
/// Blanks before the token are skipped, each line feed among them counting
/// one line. At the end of the source the token is `EOF`, of no length. A
/// `//` comment runs up to the end of its line and yields no token: the
/// token is the one that follows it.
pub open spec fn next_token(view: ScannerView) -> Scanned
    decreases view.source.len() - view.current,
{
    let source = view.source;
    let start = blanks_end(source, view.current);
    let line = view.line + newlines(source, view.current, start);
    if 0 <= view.current <= source.len() {
        if start >= source.len() {
            plain(TokenType::EOF, start, start, line)
        } else if comment_at(source, start) {
            proof {
                lemma_blanks_end(source, view.current);
                lemma_find(source, start + 2, '\n');
            }
            next_token(ScannerView { source, current: find(source, start + 2, '\n'), line })
        } else {
            lexeme_at(source, start, line)
        }
    } else {
        plain(TokenType::EOF, view.current, view.current, view.line)
    }
}

/// A scanner over one source text.
#[derive(Debug)]
pub struct Scanner {
    /// The source text, from which lexemes are borrowed.
    source: String,
    /// The characters of `source`, for lookahead in constant time.
    chars: Vec<char>,
    /// Where the token being built starts.
    start: usize,
    /// The next character to read.
    current: usize,
    /// The line of the next character to read, counted from one.
    line: usize,
}

impl View for Scanner {
    type V = ScannerView;

    closed spec fn view(&self) -> ScannerView {
        ScannerView { source: self.chars@, current: self.current as int, line: self.line as int }
    }
}

impl Scanner {
    /// The invariant of a scanner: its position lies inside the source or at
    /// its end, and its line is one more than the line feeds it has read.
    pub closed spec fn wf(&self) -> bool {
        &&& self@.wf()
        &&& self.source@ == self.chars@
        &&& self.start <= self.current
    }

    /// A scanner that meets its invariant has a view that meets its own.
    pub proof fn lemma_wf(&self)
        requires
            self.wf(),
        ensures
            self@.wf(),
    {
    }

    /// A scanner at the start of `source`, on line one.
    pub fn new(source: &str) -> (scanner: Scanner)
        requires
            source@.len() < usize::MAX,
        ensures
            scanner.wf(),
            scanner@ == (ScannerView { source: source@, current: 0, line: 1 }),
    {
        let mut chars: Vec<char> = Vec::new();
        for c in it: source.chars()
            invariant
                chars@ == it.seq().take(it.index()),
                it.seq() == source@,
        {
            chars.push(c);
        }
        assert(chars@ =~= source@);
        Scanner { source: source.to_owned(), chars, start: 0, current: 0, line: 1 }
    }

    /// The line of the next character to read.
    pub fn line(&self) -> (line: usize)
        ensures
            line == self@.line,
    {
        self.line
    }

    /// The text that `token` spans, borrowed from the source; `None` for a
    /// span that does not lie inside the source.
    pub fn lexeme(&self, token: &Token) -> (text: Option<&str>)
        requires
            self.wf(),
        ensures
            text is Some <==> token.start <= token.end <= self@.source.len(),
            text matches Some(t) ==> t@ == self@.source.subrange(
                token.start as int,
                token.end as int,
            ),
    {
        if token.start <= token.end && token.end <= self.chars.len() {
            Some(self.source.as_str().substring_char(token.start, token.end))
        } else {
            None
        }
    }

    /// Whether every character has been read.
    fn is_at_end(&self) -> (at_end: bool)
        requires
            self.wf(),
        ensures
            at_end == (self.current == self.chars@.len()),
    {
        self.current == self.chars.len()
    }

    /// The next character to read, or the null character at the end.
    fn peek(&self) -> (c: char)
        requires
            self.wf(),
        ensures
            c == if self.current < self.chars@.len() {
                self.chars@[self.current as int]
            } else {
                '\0'
            },
    {
        if self.is_at_end() {
            '\0'
        } else {
            self.chars[self.current]
        }
    }

    /// Reads one character.
    fn advance(&mut self) -> (c: char)
        requires
            old(self).wf(),
            old(self).current < old(self).chars@.len(),
        ensures
            final(self).wf(),
            *final(self) == (Scanner { current: (old(self).current + 1) as usize, ..*old(self) }),
            c == old(self).chars@[old(self).current as int],
    {
        self.current += 1;
        self.chars[self.current - 1]
    }

    /// Reads the next character if it is `expected`.
    fn match_char(&mut self, expected: char) -> (matched: bool)
        requires
            old(self).wf(),
        ensures
            final(self).wf(),
            matched == (old(self).current < old(self).chars@.len() && old(self).chars@[old(
                self,
            ).current as int] == expected),
            *final(self) == (Scanner {
                current: if matched {
                    (old(self).current + 1) as usize
                } else {
                    old(self).current
                },
                ..*old(self)
            }),
    {
        if self.is_at_end() {
            return false;
        }
        if self.chars[self.current] != expected {
            return false;
        }
        self.current += 1;
        true
    }

    /// Reads the blanks before the next token, counting the lines.
    fn skip_whitespace(&mut self)
        requires
            old(self).wf(),
        ensures
            final(self).wf(),
            final(self).current == blanks_end(old(self).chars@, old(self).current as int),
            final(self).line == old(self).line + newlines(
                old(self).chars@,
                old(self).current as int,
                final(self).current as int,
            ),
            *final(self) == (Scanner {
                current: final(self).current,
                line: final(self).line,
                ..*old(self)
            }),
    {
        loop
            invariant
                self.wf(),
                old(self).current <= self.current,
                blanks_end(old(self).chars@, old(self).current as int) == blanks_end(
                    self.chars@,
                    self.current as int,
                ),
                self.line == old(self).line + newlines(
                    old(self).chars@,
                    old(self).current as int,
                    self.current as int,
                ),
                *self == (Scanner { current: self.current, line: self.line, ..*old(self) }),
            ensures
                self.wf(),
                self.current == blanks_end(old(self).chars@, old(self).current as int),
                self.line == old(self).line + newlines(
                    old(self).chars@,
                    old(self).current as int,
                    self.current as int,
                ),
                *self == (Scanner { current: self.current, line: self.line, ..*old(self) }),
            decreases self.chars@.len() - self.current,
        {
            let c = self.peek();
            if c == ' ' || c == '\r' || c == '\t' {
                self.current += 1;
            } else if c == '\n' {
                self.current += 1;
                self.line += 1;
            } else {
                break ;
            }
        }
    }

    /// A token of category `typ` that spans what was read since `start`.
    fn make_token(&self, typ: TokenType) -> (token: Token)
        ensures
            token == (Token {
                typ,
                start: self.start,
                end: self.current,
                line: self.line,
                error: None,
            }),
    {
        Token { typ, start: self.start, end: self.current, line: self.line, error: None }
    }

    /// An `Error` token that spans what was read since `start`.
    fn error_token(&self, error: LexError) -> (token: Token)
        ensures
            token == (Token {
                typ: TokenType::Error,
                start: self.start,
                end: self.current,
                line: self.line,
                error: Some(error),
            }),
    {
        Token {
            typ: TokenType::Error,
            start: self.start,
            end: self.current,
            line: self.line,
            error: Some(error),
        }
    }

    /// Reads a string literal whose opening quote has just been read.
    fn string(&mut self) -> (token: Token)
        requires
            old(self).wf(),
            old(self).start + 1 == old(self).current,
        ensures
            final(self).wf(),
            *final(self) == (Scanner {
                current: final(self).current,
                line: final(self).line,
                ..*old(self)
            }),
            ({
                let source = old(self).chars@;
                let close = find(source, old(self).current as int, '"');
                let line = old(self).line + newlines(source, old(self).current as int, close);
                let scanned = if close >= source.len() {
                    failed(
                        LexError::UnterminatedString,
                        old(self).start as int,
                        source.len() as int,
                        line,
                    )
                } else {
                    plain(TokenType::String, old(self).start as int, close + 1, line)
                };
                &&& token == scanned.token
                &&& final(self).current == scanned.current
                &&& final(self).line == scanned.line
            }),
    {
        while !self.is_at_end() && self.peek() != '"'
            invariant
                self.wf(),
                old(self).current <= self.current,
                find(old(self).chars@, old(self).current as int, '"') == find(
                    self.chars@,
                    self.current as int,
                    '"',
                ),
                self.line == old(self).line + newlines(
                    old(self).chars@,
                    old(self).current as int,
                    self.current as int,
                ),
                *self == (Scanner { current: self.current, line: self.line, ..*old(self) }),
            decreases self.chars@.len() - self.current,
        {
            let c = self.advance();
            if c == '\n' {
                self.line += 1;
            }
        }
        if self.is_at_end() {
            return self.error_token(LexError::UnterminatedString);
        }
        // The closing quote.
        self.advance();
        self.make_token(TokenType::String)
    }

    /// Scans the next token.
    ///
    /// The token is the one that `next_token` describes, and the scanner is
    /// left behind it. At the end of the source every call returns `EOF`.
    pub fn scan_token(&mut self) -> (token: Token)
        requires
            old(self).wf(),
        ensures
            final(self).wf(),
            token == next_token(old(self)@).token,
            final(self)@ == old(self)@.after_token(),
        decreases old(self)@.source.len() - old(self)@.current,
    {
        self.skip_whitespace();
        self.start = self.current;
        proof {
            lemma_blanks_end(self.chars@, old(self).current as int);
        }
        if self.is_at_end() {
            return self.make_token(TokenType::EOF);
        }
        let c = self.advance();
        match c {
            '(' => self.make_token(TokenType::LeftParen),
            ')' => self.make_token(TokenType::RightParen),
            '{' => self.make_token(TokenType::LeftBrace),
            '}' => self.make_token(TokenType::RightBrace),
            ',' => self.make_token(TokenType::Comma),
            '.' => self.make_token(TokenType::Dot),
            '-' => self.make_token(TokenType::Minus),
            '+' => self.make_token(TokenType::Plus),
            ';' => self.make_token(TokenType::Semicolon),
            '*' => self.make_token(TokenType::Star),
            '!' => {
                if self.match_char('=') {
                    self.make_token(TokenType::BangEqual)
                } else {
                    self.make_token(TokenType::Bang)
                }
            },
            '=' => {
                if self.match_char('=') {
                    self.make_token(TokenType::EqualEqual)
                } else {
                    self.make_token(TokenType::Equal)
                }
            },
            '<' => {
                if self.match_char('=') {
                    self.make_token(TokenType::LessEqual)
                } else {
                    self.make_token(TokenType::Less)
                }
            },
            '>' => {
                if self.match_char('=') {
                    self.make_token(TokenType::GreaterEqual)
                } else {
                    self.make_token(TokenType::Greater)
                }
            },
            '/' => {
                if self.match_char('/') {
                    let ghost begin = *self;
                    while !self.is_at_end() && self.peek() != '\n'
                        invariant
                            self.wf(),
                            begin.current <= self.current,
                            find(self.chars@, begin.current as int, '\n') == find(
                                self.chars@,
                                self.current as int,
                                '\n',
                            ),
                            *self == (Scanner { current: self.current, ..begin }),
                        decreases self.chars@.len() - self.current,
                    {
                        self.advance();
                    }
                    self.scan_token()
                } else {
                    self.make_token(TokenType::Slash)
                }
            },
            '"' => self.string(),
            other => self.error_token(LexError::UnexpectedCharacter(other)),
        }
    }
}

/// What holds of every token that is scanned.
///
/// The scanner stays inside the source and never goes back, nor does its
/// line count. The token spans text at or after the old position and ends
/// where scanning goes on. An `EOF` token lies at the end of the source and
/// has no length; every other token has at least one character. A token
/// carries an error exactly if it is an `Error` token.
pub proof fn lemma_next_token(view: ScannerView)
    requires
        view.wf(),
    ensures
        view.after_token().wf(),
        ({
            let scanned = next_token(view);
            let token = scanned.token;
            &&& view.current <= token.start <= token.end == scanned.current
            &&& view.line <= scanned.line == token.line
            &&& token.typ == TokenType::EOF ==> scanned == plain(
                TokenType::EOF,
                view.source.len() as int,
                view.source.len() as int,
                scanned.line,
            )
            &&& token.typ != TokenType::EOF ==> token.start < token.end
            &&& token.typ == TokenType::Error <==> token.error is Some
        }),
    decreases view.source.len() - view.current,
{
    let source = view.source;
    let start = blanks_end(source, view.current);
    let line = view.line + newlines(source, view.current, start);
    lemma_blanks_end(source, view.current);
    lemma_newlines(source, view.current, start);
    if start >= source.len() {
    } else if comment_at(source, start) {
        lemma_find(source, start + 2, '\n');
        lemma_next_token(ScannerView { source, current: find(source, start + 2, '\n'), line });
    } else if source[start] == '"' {
        lemma_find(source, start + 1, '"');
        lemma_newlines(source, start + 1, find(source, start + 1, '"'));
    } else {
    }
}

/// At the end of the input the scanner stays: once a call has returned
/// `EOF`, every further call returns the same token and leaves the scanner
/// as it is.
pub proof fn lemma_end_of_input(view: ScannerView)
    requires
        view.wf(),
        next_token(view).token.typ == TokenType::EOF,
    ensures
        next_token(view.after_token()) == next_token(view),
        view.after_token().after_token() == view.after_token(),
{
    lemma_next_token(view);
    let after = view.after_token();
    assert(blanks_end(after.source, after.current) == after.current);
    assert(newlines(after.source, after.current, after.current) == 0);
}

} // verus!

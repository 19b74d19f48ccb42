//! The compiler: from the tokens of a source text to a chunk, or to the
//! diagnostics that say why there is none.

use crate::chunk::{Chunk, ChunkView};
use crate::common::Opcode;
use crate::scanner::{
    lemma_next_token, next_token, Scanner, ScannerView, Token, TokenType,
};
use crate::text::{
    decimal, left_aligned, push_decimal, push_decimal_aligned, push_left_aligned, right_aligned,
};
use vstd::prelude::*;
use vstd::string::*;

verus! {

/// A compilation that failed: the diagnostics that were reported, in the
/// order in which they were.
#[derive(Debug, PartialEq, Eq)]
pub struct CompileError {
    pub diagnostics: Vec<String>,
}

/// The texts of some strings.
pub open spec fn texts(strings: Seq<String>) -> Seq<Seq<char>> {
    strings.map_values(|s: String| s@)
}

/// The text that `token` spans in `source`; nothing for a span that does
/// not lie inside the source.
pub open spec fn lexeme(source: Seq<char>, token: Token) -> Seq<char> {
    if token.start <= token.end <= source.len() {
        source.subrange(token.start as int, token.end as int)
    } else {
        Seq::empty()
    }
}

/// The text of the diagnostic that reports `message` at `token`: the line,
/// where on the line, and the message. The end of the input is named as
/// such, a token is named by its text, and an `Error` token, whose message
/// says it all, is not named.
pub open spec fn diagnostic(source: Seq<char>, token: Token, message: Seq<char>) -> Seq<char> {
    "[line "@ + decimal(token.line as nat) + "] Error"@ + (if token.typ == TokenType::EOF {
        " at end"@
    } else if token.typ == TokenType::Error {
        Seq::empty()
    } else {
        " at '"@ + lexeme(source, token) + "'"@
    }) + ": "@ + message
}

/// The line that shows `token` in a trace of the compiler: the number of its
/// line in a field of four characters, or a bar if the scanner is still on
/// that line; the name of its category in a field of twelve characters;
/// and `text` between quotes.
pub open spec fn token_trace(token: Token, scanner_line: usize, text: Seq<char>) -> Seq<char> {
    (if token.line != scanner_line {
        right_aligned(decimal(token.line as nat), 4, ' ')
    } else {
        "   | "@
    }) + left_aligned(token.typ.name(), 12) + " '"@ + text + "'"@
}

/// The message for a source that does not end where its expression ends.
pub open spec fn expect_end() -> Seq<char> {
    "Expect end of expression."@
}

/// What compiling `source` gives.
///
/// The language has no expressions yet, so a source compiles exactly if its
/// first token is the end of the input, which is to say if it holds nothing
/// but blanks and comments. The chunk is then a single `Return`, written
/// for the line on which the input ends. Any other source fails with one
/// diagnostic about its first token, the message of an `Error` token or
/// else the complaint that the input should have ended: after the first
/// diagnostic the compiler reports no more.
pub open spec fn compiled(source: Seq<char>) -> Result<ChunkView, Seq<Seq<char>>> {
    let token = next_token(ScannerView { source, current: 0, line: 1 }).token;
    if token.typ == TokenType::EOF {
        Ok(ChunkView::empty().write(Opcode::Return.byte(), token.line))
    } else if token.typ == TokenType::Error {
        Err(seq![diagnostic(source, token, token.error->0.text())])
    } else {
        Err(seq![diagnostic(source, token, expect_end())])
    }
}

/// The parser as contracts see it: its scanner, the token it looks at and
/// the one before, whether an error was reported, whether further errors
/// are suppressed, and the diagnostics reported so far.
pub struct ParserView {
    pub scanner: ScannerView,
    pub current: Token,
    pub previous: Token,
    pub had_error: bool,
    pub panic_mode: bool,
    pub reports: Seq<Seq<char>>,
}

impl ParserView {
    /// The parser at the start of `source`.
    pub open spec fn start(source: Seq<char>) -> ParserView {
        ParserView {
            scanner: ScannerView { source, current: 0, line: 1 },
            current: Token::blank(),
            previous: Token::blank(),
            had_error: false,
            panic_mode: false,
            reports: Seq::empty(),
        }
    }

    /// The parser after an error with `message` at `token`: in panic mode
    /// the error is dropped; otherwise it is reported, and panic mode
    /// begins.
    pub open spec fn error_at(self, token: Token, message: Seq<char>) -> ParserView {
        if self.panic_mode {
            self
        } else {
            ParserView {
                had_error: true,
                panic_mode: true,
                reports: self.reports.push(diagnostic(self.scanner.source, token, message)),
                ..self
            }
        }
    }

    /// The parser after it has scanned up to the next token that is no
    /// `Error`, which becomes the current token; each `Error` token on the
    /// way is an error with the token's message.
    pub open spec fn skip_errors(self) -> ParserView
        decreases self.scanner.source.len() - self.scanner.current,
    {
        let token = next_token(self.scanner).token;
        let scanned = ParserView { scanner: self.scanner.after_token(), current: token, ..self };
        if token.typ == TokenType::Error && self.scanner.wf() {
            proof {
                lemma_next_token(self.scanner);
            }
            scanned.error_at(token, token.error->0.text()).skip_errors()
        } else {
            scanned
        }
    }

    /// The parser after it has moved on by one token.
    pub open spec fn advance(self) -> ParserView {
        ParserView { previous: self.current, ..self }.skip_errors()
    }

    /// The parser after it has asked for a token of category `typ`: it
    /// moves on if the current token is one, and has an error with
    /// `message` at the current token if not.
    pub open spec fn consume(self, typ: TokenType, message: Seq<char>) -> ParserView {
        if self.current.typ == typ {
            self.advance()
        } else {
            self.error_at(self.current, message)
        }
    }
}

/// The state of parsing: the scanner, one token of lookahead, and what was
/// reported.
struct Parser {
    scanner: Scanner,
    current: Token,
    previous: Token,
    had_error: bool,
    panic_mode: bool,
    diagnostics: Vec<String>,
}

impl View for Parser {
    type V = ParserView;

    closed spec fn view(&self) -> ParserView {
        ParserView {
            scanner: self.scanner@,
            current: self.current,
            previous: self.previous,
            had_error: self.had_error,
            panic_mode: self.panic_mode,
            reports: texts(self.diagnostics@),
        }
    }
}

impl Parser {
    /// The invariant of a parser: that of its scanner.
    spec fn wf(&self) -> bool {
        self.scanner.wf()
    }

    /// A parser that has read nothing yet.
    fn new(scanner: Scanner) -> (parser: Parser)
        requires
            scanner.wf(),
        ensures
            parser.wf(),
            parser@ == (ParserView {
                scanner: scanner@,
                current: Token::blank(),
                previous: Token::blank(),
                had_error: false,
                panic_mode: false,
                reports: Seq::empty(),
            }),
    {
        let parser = Parser {
            scanner,
            current: Token::new(),
            previous: Token::new(),
            had_error: false,
            panic_mode: false,
            diagnostics: Vec::new(),
        };
        assert(parser@.reports =~= Seq::empty());
        parser
    }

    /// Reports an error at the current token.
    fn error_at_current(&mut self, message: &str)
        requires
            old(self).wf(),
        ensures
            final(self).wf(),
            final(self)@ == old(self)@.error_at(old(self)@.current, message@),
    {
        self.error_at(true, message);
    }

    /// Reports an error at the token before the current one.
    fn error_at_previous(&mut self, message: &str)
        requires
            old(self).wf(),
        ensures
            final(self).wf(),
            final(self)@ == old(self)@.error_at(old(self)@.previous, message@),
    {
        self.error_at(false, message);
    }

    /// Reports an error at the current token, or at the one before it,
    /// unless the parser is in panic mode.
    fn error_at(&mut self, current: bool, message: &str)
        requires
            old(self).wf(),
        ensures
            final(self).wf(),
            final(self)@ == old(self)@.error_at(
                if current {
                    old(self)@.current
                } else {
                    old(self)@.previous
                },
                message@,
            ),
    {
        let token = if current {
            self.current
        } else {
            self.previous
        };
        if self.panic_mode {
            return ;
        }
        self.panic_mode = true;
        let mut report = String::new();
        report.append("[line ");
        push_decimal(&mut report, token.line);
        report.append("] Error");
        if token.typ == TokenType::EOF {
            report.append(" at end");
        } else if token.typ == TokenType::Error {
            // Nothing.
        } else {
            report.append(" at '");
            match self.scanner.lexeme(&token) {
                Some(text) => {
                    report.append(text);
                },
                None => {},
            }
            report.append("'");
        }
        report.append(": ");
        report.append(message);
        proof {
            assert(report@ =~= diagnostic(old(self)@.scanner.source, token, message@));
        }
        self.diagnostics.push(report);
        self.had_error = true;
        proof {
            assert(self@.reports =~= old(self)@.reports.push(report@));
        }
    }

    /// Moves on if the current token is of category `typ`; reports
    /// `message` at the current token if not.
    fn consume(&mut self, typ: TokenType, message: &str)
        requires
            old(self).wf(),
        ensures
            final(self).wf(),
            final(self)@ == old(self)@.consume(typ, message@),
    {
        if self.current.typ == typ {
            self.advance();
            return ;
        }
        self.error_at_current(message);
    }

    /// Moves on by one token, reporting the `Error` tokens on the way.
    fn advance(&mut self)
        requires
            old(self).wf(),
        ensures
            final(self).wf(),
            final(self)@ == old(self)@.advance(),
    {
        self.previous = self.current;
        let ghost begun = self@;
        loop
            invariant_except_break
                self@.skip_errors() == begun.skip_errors(),
            invariant
                self.wf(),
            ensures
                self.wf(),
                self@ == begun.skip_errors(),
            decreases self@.scanner.source.len() - self@.scanner.current,
        {
            proof {
                self.scanner.lemma_wf();
                lemma_next_token(self@.scanner);
            }
            self.current = self.scanner.scan_token();
            if self.current.typ != TokenType::Error {
                break ;
            }
            let message = match self.current.message() {
                Some(message) => message,
                None => String::new(),
            };
            self.error_at_current(message.as_str());
        }
    }
}

/// The compiler of one source text.
pub struct Compiler {
    compiling_chunk: Chunk,
    parser: Parser,
}

impl Compiler {
    /// The invariant of a compiler: those of its chunk and its parser.
    spec fn wf(&self) -> bool {
        self.compiling_chunk.wf() && self.parser.wf()
    }

    /// Compiles `source`: to a chunk, or to the diagnostics that were
    /// reported if any was.
    pub fn compile(source: &str) -> (result: Result<Chunk, CompileError>)
        requires
            source@.len() < usize::MAX,
        ensures
            match result {
                Ok(chunk) => chunk.wf() && compiled(source@) == Ok::<ChunkView, Seq<Seq<char>>>(
                    chunk@,
                ),
                Err(error) => compiled(source@) == Err::<ChunkView, Seq<Seq<char>>>(
                    texts(error.diagnostics@),
                ),
            },
    {
        let scanner = Scanner::new(source);
        let parser = Parser::new(scanner);
        let mut compiler = Compiler { compiling_chunk: Chunk::new(), parser };
        compiler.parser.advance();
        compiler.parser.consume(TokenType::EOF, "Expect end of expression.");
        compiler.end();
        proof {
            lemma_compiled(source@);
        }
        if compiler.parser.had_error {
            Err(CompileError { diagnostics: compiler.parser.diagnostics })
        } else {
            Ok(compiler.compiling_chunk)
        }
    }

    /// Renders the line that shows `token`, whose text is `text`, in a trace
    /// of the compiler.
    pub fn trace(token: &Token, scanner_line: usize, text: &str) -> (out: String)
        ensures
            out@ == token_trace(*token, scanner_line, text@),
    {
        let mut out = String::new();
        if token.line != scanner_line {
            push_decimal_aligned(&mut out, token.line, 4, false);
        } else {
            out.append("   | ");
        }
        push_left_aligned(&mut out, token.typ.as_str(), 12);
        out.append(" '");
        out.append(text);
        out.append("'");
        proof {
            assert(out@ =~= token_trace(*token, scanner_line, text@));
        }
        out
    }

    /// The chunk that is being compiled.
    fn current_chunk(&mut self) -> (chunk: &mut Chunk)
        ensures
            *chunk == old(self).compiling_chunk,
            *final(self) == (Compiler { compiling_chunk: *final(chunk), ..*old(self) }),
    {
        &mut self.compiling_chunk
    }

    /// Appends `byte`, written for the line of the token before the current
    /// one.
    fn emit_byte(&mut self, byte: u8)
        requires
            old(self).wf(),
        ensures
            final(self).wf(),
            final(self).parser == old(self).parser,
            final(self).compiling_chunk@ == old(self).compiling_chunk@.write(
                byte,
                old(self).parser@.previous.line,
            ),
    {
        let line = self.parser.previous.line;
        self.current_chunk().write_byte(byte, line)
    }

    /// Appends two bytes, both written for the line of the token before the
    /// current one.
    fn emit_bytes(&mut self, byte1: u8, byte2: u8)
        requires
            old(self).wf(),
        ensures
            final(self).wf(),
            final(self).parser == old(self).parser,
            final(self).compiling_chunk@ == old(self).compiling_chunk@.write(
                byte1,
                old(self).parser@.previous.line,
            ).write(byte2, old(self).parser@.previous.line),
    {
        self.emit_byte(byte1);
        self.emit_byte(byte2);
    }

    /// Appends a `Return`.
    fn emit_return(&mut self)
        requires
            old(self).wf(),
        ensures
            final(self).wf(),
            final(self).parser == old(self).parser,
            final(self).compiling_chunk@ == old(self).compiling_chunk@.write(
                Opcode::Return.byte(),
                old(self).parser@.previous.line,
            ),
    {
        self.emit_byte(Opcode::Return.to_byte())
    }

    /// Ends the chunk with a `Return`.
    fn end(&mut self)
        requires
            old(self).wf(),
        ensures
            final(self).wf(),
            final(self).parser == old(self).parser,
            final(self).compiling_chunk@ == old(self).compiling_chunk@.write(
                Opcode::Return.byte(),
                old(self).parser@.previous.line,
            ),
    {
        self.emit_return();
    }
}

/// The parser's way through a source comes to what `compiled` says: moving
/// on to the first token and asking for the end of the input leaves an
/// error exactly if that token is not the end, with the one diagnostic
/// about it; without an error the token before the current one is that
/// first token.
proof fn lemma_compiled(source: Seq<char>)
    requires
        source.len() < usize::MAX,
    ensures
        ({
            let parsed = ParserView::start(source).advance().consume(
                TokenType::EOF,
                expect_end(),
            );
            let chunk = ChunkView::empty().write(Opcode::Return.byte(), parsed.previous.line);
            compiled(source) == if parsed.had_error {
                Err::<ChunkView, Seq<Seq<char>>>(parsed.reports)
            } else {
                Ok::<ChunkView, Seq<Seq<char>>>(chunk)
            }
        }),
{
    let begun = ParserView::start(source);
    let first = next_token(begun.scanner).token;
    let advanced = begun.advance();
    assert(advanced == begun.skip_errors());
    lemma_skip_errors(begun);
    lemma_next_token(begun.scanner);
    if advanced.current.typ == TokenType::EOF {
        lemma_skip_errors(ParserView { previous: advanced.current, ..advanced });
    }
    if first.typ == TokenType::Error {
        assert(begun.reports.push(diagnostic(source, first, first.error->0.text())) =~= seq![
            diagnostic(source, first, first.error->0.text()),
        ]);
    } else if first.typ == TokenType::EOF {
        crate::scanner::lemma_end_of_input(begun.scanner);
    } else {
        assert(begun.reports.push(diagnostic(source, first, expect_end())) =~= seq![
            diagnostic(source, first, expect_end()),
        ]);
    }
}

/// What skipping `Error` tokens comes to. The current token is then no
/// `Error`, and the scanner is well-formed as before. If the first token
/// scanned is no `Error`, it is the current token and nothing else has
/// changed. If it is one, it is the only error that can have been reported:
/// the parser is in panic mode from then on.
proof fn lemma_skip_errors(parser: ParserView)
    requires
        parser.scanner.wf(),
    ensures
        ({
            let first = next_token(parser.scanner).token;
            let skipped = parser.skip_errors();
            &&& skipped.scanner.wf()
            &&& skipped.scanner.source == parser.scanner.source
            &&& skipped.previous == parser.previous
            &&& skipped.current.typ != TokenType::Error
            &&& first.typ != TokenType::Error ==> skipped == (ParserView {
                scanner: parser.scanner.after_token(),
                current: first,
                ..parser
            })
            &&& first.typ == TokenType::Error ==> {
                &&& skipped.panic_mode
                &&& skipped.had_error == parser.error_at(first, first.error->0.text()).had_error
                &&& skipped.reports == parser.error_at(first, first.error->0.text()).reports
            }
        }),
    decreases parser.scanner.source.len() - parser.scanner.current,
{
    let first = next_token(parser.scanner).token;
    lemma_next_token(parser.scanner);
    if first.typ == TokenType::Error {
        let scanned = ParserView {
            scanner: parser.scanner.after_token(),
            current: first,
            ..parser
        };
        lemma_skip_errors(scanned.error_at(first, first.error->0.text()));
    }
}

} // verus!

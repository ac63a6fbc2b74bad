use vstd::prelude::*;

use crate::error::Error;
use crate::error::ErrorType;
use crate::error::SpecError;
use crate::error::SpecErrorType;
use crate::position::Position;
use crate::stream::Stream;
use crate::text::alphabetic;
use crate::text::ascii_digit;
use crate::text::ascii_digits;
use crate::text::decimal_value;
use crate::text::is_alphabetic;
use crate::text::is_numeric;
use crate::text::numeric;
use crate::text::parse_i32;
use crate::text::push_char;
use crate::text::text_is;
use crate::token::Keyword;
use crate::token::SpecToken;
use crate::token::SpecTokenType;
use crate::token::Token;
use crate::token::token_views;
use crate::token::TokenType;

verus! {

/// The index of the first character at or after `i` that `p` does not
/// accept (or the length of `s`).
pub open spec fn run_end(s: Seq<char>, i: int, p: spec_fn(char) -> bool) -> int
    decreases s.len() - i,
{
    if 0 <= i < s.len() && p(s[i]) {
        run_end(s, i + 1, p)
    } else {
        i
    }
}

/// Characters that may continue a string literal.
pub open spec fn in_string() -> spec_fn(char) -> bool {
    |c: char| c != '"' && c != '\n'
}

/// Characters other than `until`.
pub open spec fn other_than(until: char) -> spec_fn(char) -> bool {
    |c: char| c != until
}

/// Characters that may continue an identifier or keyword.
pub open spec fn in_word() -> spec_fn(char) -> bool {
    |c: char| alphabetic(c)
}

/// Characters that may continue an integer literal.
pub open spec fn in_number() -> spec_fn(char) -> bool {
    |c: char| ascii_digit(c) || numeric(c)
}

/// Characters that start an integer literal: ASCII digits, and the other
/// numeric characters that are not letters.
pub open spec fn starts_number(c: char) -> bool {
    ascii_digit(c) || (!alphabetic(c) && numeric(c))
}

/// The token for a single character that stands for one by itself.
pub open spec fn single_char_token(c: char) -> Option<SpecTokenType> {
    if c == '=' {
        Some(SpecTokenType::Equals)
    } else if c == '+' {
        Some(SpecTokenType::Plus)
    } else if c == '-' {
        Some(SpecTokenType::Minus)
    } else if c == '*' {
        Some(SpecTokenType::Asterisk)
    } else if c == ':' {
        Some(SpecTokenType::Colon)
    } else if c == '(' {
        Some(SpecTokenType::OpenParenthesis)
    } else if c == ')' {
        Some(SpecTokenType::CloseParenthesis)
    } else if c == ',' {
        Some(SpecTokenType::Comma)
    } else {
        None
    }
}

/// A keyword for `let` and `return`, an identifier for any other word.
pub open spec fn word_token(word: Seq<char>) -> SpecTokenType {
    if word == seq!['l', 'e', 't'] {
        SpecTokenType::Keyword(Keyword::Let)
    } else if word == seq!['r', 'e', 't', 'u', 'r', 'n'] {
        SpecTokenType::Keyword(Keyword::Return)
    } else {
        SpecTokenType::Identifier(word)
    }
}

/// The value of an integer literal's text, if it is all ASCII digits and fits
/// in `i32`.
pub open spec fn literal_value(text: Seq<char>) -> Option<i32> {
    if ascii_digits(text) && decimal_value(text) <= i32::MAX {
        Some(decimal_value(text) as i32)
    } else {
        None
    }
}

/// The position at column `col` of line `line`.
pub open spec fn at(col: int, line: int) -> Position {
    Position { x: col as usize, y: line as usize }
}

/// A token put in front of the tokens that follow it, unless those failed.
pub open spec fn prepend(
    t: SpecToken,
    rest: Result<Seq<SpecToken>, SpecError>,
) -> Result<Seq<SpecToken>, SpecError> {
    match rest {
        Ok(ts) => Ok(seq![t] + ts),
        Err(e) => Err(e),
    }
}

/// Tokens put in front of the tokens that follow them, unless those failed.
pub open spec fn prepend_all(
    ts: Seq<SpecToken>,
    rest: Result<Seq<SpecToken>, SpecError>,
) -> Result<Seq<SpecToken>, SpecError> {
    match rest {
        Ok(more) => Ok(ts + more),
        Err(e) => Err(e),
    }
}

/// The tokens of `s` from index `i` on, where the visual column is `col` and
/// the line is `line`; or the first lexical error. Each token carries the
/// position after its last character.
pub open spec fn lex_from(s: Seq<char>, i: int, col: int, line: int) -> Result<
    Seq<SpecToken>,
    SpecError,
>
    decreases s.len() - i,
    via lex_from_decreases
{
    if i < 0 || i >= s.len() {
        Ok(Seq::empty())
    } else {
        let c = s[i];
        if c == '\n' {
            lex_from(s, i + 1, 0, line + 1)
        } else if c == ' ' {
            lex_from(s, i + 1, col + 1, line)
        } else if single_char_token(c) is Some {
            prepend(
                SpecToken { token_type: single_char_token(c)->0, position: at(col + 1, line) },
                lex_from(s, i + 1, col + 1, line),
            )
        } else if c == '"' {
            let j = run_end(s, i + 1, in_string());
            if j >= s.len() {
                Err(
                    SpecError {
                        error_type: SpecErrorType::ExpectedCharacter('"'),
                        position: at(col + (j - i), line),
                    },
                )
            } else if s[j] == '\n' {
                Err(
                    SpecError {
                        error_type: SpecErrorType::ExpectedCharacter('"'),
                        position: at(col + (j - i) + 1, line),
                    },
                )
            } else {
                prepend(
                    SpecToken {
                        token_type: SpecTokenType::StringLiteral(s.subrange(i + 1, j)),
                        position: at(col + (j - i) + 1, line),
                    },
                    lex_from(s, j + 1, col + (j - i) + 1, line),
                )
            }
        } else if c == '/' {
            if i + 1 < s.len() && s[i + 1] == '/' {
                let j = run_end(s, i + 2, other_than('\n'));
                if j >= s.len() {
                    Ok(Seq::empty())
                } else {
                    lex_from(s, j + 1, 0, line + 1)
                }
            } else {
                prepend(
                    SpecToken { token_type: SpecTokenType::Slash, position: at(col + 1, line) },
                    lex_from(s, i + 1, col + 1, line),
                )
            }
        } else if starts_number(c) {
            let j = run_end(s, i + 1, in_number());
            match literal_value(s.subrange(i, j)) {
                Some(v) => prepend(
                    SpecToken {
                        token_type: SpecTokenType::IntegerLiteral(v),
                        position: at(col + (j - i), line),
                    },
                    lex_from(s, j, col + (j - i), line),
                ),
                None => Err(
                    SpecError {
                        error_type: SpecErrorType::InvalidNumber(s.subrange(i, j)),
                        position: at(col + (j - i), line),
                    },
                ),
            }
        } else if alphabetic(c) {
            let j = run_end(s, i + 1, in_word());
            prepend(
                SpecToken {
                    token_type: word_token(s.subrange(i, j)),
                    position: at(col + (j - i), line),
                },
                lex_from(s, j, col + (j - i), line),
            )
        } else {
            Err(
                SpecError {
                    error_type: SpecErrorType::UnexpectedCharacter(c),
                    position: at(col + 1, line),
                },
            )
        }
    }
}

#[via_fn]
proof fn lex_from_decreases(s: Seq<char>, i: int, col: int, line: int) {
    if 0 <= i < s.len() {
        if s[i] == '"' {
            lemma_run_end(s, i + 1, in_string());
        } else if s[i] == '/' && i + 1 < s.len() && s[i + 1] == '/' {
            lemma_run_end(s, i + 2, other_than('\n'));
        } else {
            lemma_run_end(s, i + 1, in_word());
            lemma_run_end(s, i + 1, in_number());
        }
    }
}

/// The tokens of a whole source text, or its first lexical error.
pub open spec fn lex_spec(s: Seq<char>) -> Result<Seq<SpecToken>, SpecError> {
    lex_from(s, 0, 0, 0)
}

/// The view of the lexer's result.
pub open spec fn tokens_result_view(r: Result<Vec<Token>, Error>) -> Result<
    Seq<SpecToken>,
    SpecError,
> {
    match r {
        Ok(ts) => Ok(token_views(ts@)),
        Err(e) => Err(e@),
    }
}

/// The end of a run lies between its start and the end of the text; every
/// character before it is accepted and the one at it, if any, is not.
pub proof fn lemma_run_end(s: Seq<char>, i: int, p: spec_fn(char) -> bool)
    requires
        0 <= i <= s.len(),
    ensures
        i <= run_end(s, i, p) <= s.len(),
        forall|k: int| i <= k < run_end(s, i, p) ==> p(#[trigger] s[k]),
        run_end(s, i, p) < s.len() ==> !p(s[run_end(s, i, p)]),
    decreases s.len() - i,
{
    if i < s.len() && p(s[i]) {
        lemma_run_end(s, i + 1, p);
    }
}

/// Turns source text into tokens.
pub struct Lexer {
    stream: Stream<char>,
    line: usize,
}

impl Lexer {
    /// The characters being read.
    pub closed spec fn chars(&self) -> Seq<char> {
        self.stream.items()
    }

    /// The index of the next character.
    pub closed spec fn pos(&self) -> int {
        self.stream.pos()
    }

    /// The visual column.
    pub closed spec fn col(&self) -> int {
        self.stream.visual()
    }

    /// The current line.
    pub closed spec fn line(&self) -> int {
        self.line as int
    }

    pub closed spec fn wf(&self) -> bool {
        self.stream.wf() && self.line <= self.stream.pos()
    }

    /// A lexer at the start of `input`.
    pub fn new(input: String) -> (r: Self)
        ensures
            r.wf(),
            r.chars() == input@,
            r.pos() == 0,
            r.col() == 0,
            r.line() == 0,
    {
        let text = input.as_str();
        let n = text.unicode_len();
        let mut chars: Vec<char> = Vec::new();
        let mut i: usize = 0;
        while i < n
            invariant
                n == text@.len(),
                i <= n,
                chars@ == text@.subrange(0, i as int),
            decreases n - i,
        {
            chars.push(text.get_char(i));
            i = i + 1;
        }
        proof {
            assert(chars@ == input@);
        }
        Lexer { stream: Stream::new(chars), line: 0 }
    }
}

/// The tokens before `t`, followed by `t` and the tokens after it.
proof fn lemma_prepend_all_push(
    ts: Seq<SpecToken>,
    t: SpecToken,
    rest: Result<Seq<SpecToken>, SpecError>,
)
    ensures
        prepend_all(ts, prepend(t, rest)) == prepend_all(ts.push(t), rest),
{
    if let Ok(more) = rest {
        assert(ts + (seq![t] + more) =~= ts.push(t) + more);
    }
}

/// A slice grown by the character after it.
proof fn lemma_subrange_push(s: Seq<char>, start: int, p: int)
    requires
        0 <= start <= p < s.len(),
    ensures
        s.subrange(start, p).push(s[p]) == s.subrange(start, p + 1),
{
    assert(s.subrange(start, p).push(s[p]) =~= s.subrange(start, p + 1));
}

impl Lexer {
    fn position(&self) -> (r: Position)
        ensures
            r == at(self.col(), self.line()),
    {
        Position::new(self.stream.visual_index(), self.line)
    }

    fn token(&self, token_type: TokenType) -> (r: Token)
        ensures
            r.token_type == token_type,
            r.position == at(self.col(), self.line()),
    {
        Token::new(token_type, self.position())
    }

    fn error(&self, error_type: ErrorType) -> (r: Error)
        ensures
            r.error_type == error_type,
            r.position == at(self.col(), self.line()),
    {
        Error::new(error_type, self.position())
    }

    /// Reads the rest of a word whose first character was just consumed.
    fn parse_identifier(&mut self, first_char: char) -> (r: Token)
        requires
            old(self).wf(),
            1 <= old(self).pos(),
            old(self).chars()[old(self).pos() - 1] == first_char,
        ensures
            final(self).wf(),
            final(self).chars() == old(self).chars(),
            final(self).line() == old(self).line(),
            final(self).pos() == run_end(old(self).chars(), old(self).pos(), in_word()),
            final(self).col() == old(self).col() + (final(self).pos() - old(self).pos()),
            r@ == (SpecToken {
                token_type: word_token(
                    old(self).chars().subrange(old(self).pos() - 1, final(self).pos()),
                ),
                position: at(final(self).col(), final(self).line()),
            }),
    {
        let ghost s = self.chars();
        let ghost start = self.pos();
        let ghost end = run_end(s, start, in_word());
        let mut identifier = String::new();
        push_char(&mut identifier, first_char);
        proof {
            lemma_run_end(s, start, in_word());
            assert(identifier@ =~= s.subrange(start - 1, start));
        }
        loop
            invariant
                self.wf(),
                s == old(self).chars(),
                start == old(self).pos(),
                1 <= start,
                end == run_end(s, start, in_word()),
                self.chars() == s,
                self.line() == old(self).line(),
                start <= self.pos() <= s.len(),
                run_end(s, self.pos(), in_word()) == end,
                self.col() - self.pos() == old(self).col() - start,
                identifier@ == s.subrange(start - 1, self.pos()),
            ensures
                self.pos() == end,
            decreases s.len() - self.pos(),
        {
            let Some(c) = self.stream.peek() else {
                break;
            };
            if is_alphabetic(c) {
                let ghost p = self.pos();
                self.stream.consume();
                push_char(&mut identifier, c);
                proof {
                    assert(identifier@ =~= s.subrange(start - 1, p + 1));
                }
            } else {
                break;
            }
        }
        proof {
            reveal_strlit("let");
            reveal_strlit("return");
            assert("let"@ =~= seq!['l', 'e', 't']);
            assert("return"@ =~= seq!['r', 'e', 't', 'u', 'r', 'n']);
        }
        let token_type = if text_is(&identifier, "let") {
            TokenType::Keyword(Keyword::Let)
        } else if text_is(&identifier, "return") {
            TokenType::Keyword(Keyword::Return)
        } else {
            TokenType::Identifier(identifier)
        };
        self.token(token_type)
    }

    /// Reads a string literal whose opening quote was just consumed, through
    /// its closing quote.
    fn parse_string(&mut self) -> (r: Result<Token, Error>)
        requires
            old(self).wf(),
        ensures
            final(self).wf(),
            final(self).chars() == old(self).chars(),
            final(self).line() == old(self).line(),
            ({
                let s = old(self).chars();
                let i = old(self).pos();
                let j = run_end(s, i, in_string());
                let c = old(self).col() + (j - i);
                if j >= s.len() {
                    r is Err && r->Err_0@ == SpecError {
                        error_type: SpecErrorType::ExpectedCharacter('"'),
                        position: at(c, old(self).line()),
                    }
                } else if s[j] == '\n' {
                    r is Err && r->Err_0@ == SpecError {
                        error_type: SpecErrorType::ExpectedCharacter('"'),
                        position: at(c + 1, old(self).line()),
                    }
                } else {
                    &&& r is Ok
                    &&& r->Ok_0@ == SpecToken {
                        token_type: SpecTokenType::StringLiteral(s.subrange(i, j)),
                        position: at(c + 1, old(self).line()),
                    }
                    &&& final(self).pos() == j + 1
                    &&& final(self).col() == c + 1
                }
            }),
    {
        let ghost s = self.chars();
        let ghost start = self.pos();
        let ghost end = run_end(s, start, in_string());
        let mut result_string = String::new();
        proof {
            lemma_run_end(s, start, in_string());
            assert(result_string@ =~= s.subrange(start, start));
        }
        loop
            invariant_except_break
                run_end(s, self.pos(), in_string()) == end,
                self.col() - self.pos() == old(self).col() - start,
                result_string@ == s.subrange(start, self.pos()),
            invariant
                self.wf(),
                s == old(self).chars(),
                start == old(self).pos(),
                0 <= start,
                end == run_end(s, start, in_string()),
                self.chars() == s,
                self.line() == old(self).line(),
                start <= self.pos() <= s.len(),
            ensures
                1 <= self.pos() <= s.len(),
                s[self.pos() - 1] == '"',
                end == self.pos() - 1,
                self.col() - self.pos() == old(self).col() - start,
                result_string@ == s.subrange(start, end),
                self.pos() == end + 1,
            decreases s.len() - self.pos(),
        {
            let ghost p = self.pos();
            let Some(c) = self.stream.consume() else {
                return Err(self.error(ErrorType::ExpectedCharacter('"')));
            };
            if c == '\n' {
                return Err(self.error(ErrorType::ExpectedCharacter('"')));
            }
            if c == '"' {
                break;
            } else {
                push_char(&mut result_string, c);
                proof {
                    lemma_subrange_push(s, start, p);
                }
            }
        }
        Ok(self.token(TokenType::StringLiteral(result_string)))
    }

    /// Reads the rest of an integer literal whose first character was just
    /// consumed.
    fn parse_number(&mut self, first_char: char) -> (r: Result<Token, Error>)
        requires
            old(self).wf(),
            1 <= old(self).pos(),
            old(self).chars()[old(self).pos() - 1] == first_char,
            first_char != '+' && first_char != '-',
        ensures
            final(self).wf(),
            final(self).chars() == old(self).chars(),
            final(self).line() == old(self).line(),
            final(self).pos() == run_end(old(self).chars(), old(self).pos(), in_number()),
            final(self).col() == old(self).col() + (final(self).pos() - old(self).pos()),
            ({
                let text = old(self).chars().subrange(old(self).pos() - 1, final(self).pos());
                let p = at(final(self).col(), final(self).line());
                match literal_value(text) {
                    Some(v) => r is Ok && r->Ok_0@ == SpecToken {
                        token_type: SpecTokenType::IntegerLiteral(v),
                        position: p,
                    },
                    None => r is Err && r->Err_0@ == SpecError {
                        error_type: SpecErrorType::InvalidNumber(text),
                        position: p,
                    },
                }
            }),
    {
        let ghost s = self.chars();
        let ghost start = self.pos();
        let ghost end = run_end(s, start, in_number());
        let mut number_string = String::new();
        push_char(&mut number_string, first_char);
        proof {
            lemma_run_end(s, start, in_number());
            assert(number_string@ =~= s.subrange(start - 1, start));
        }
        loop
            invariant
                self.wf(),
                s == old(self).chars(),
                start == old(self).pos(),
                1 <= start,
                end == run_end(s, start, in_number()),
                self.chars() == s,
                self.line() == old(self).line(),
                start <= self.pos() <= s.len(),
                run_end(s, self.pos(), in_number()) == end,
                self.col() - self.pos() == old(self).col() - start,
                number_string@ == s.subrange(start - 1, self.pos()),
            ensures
                self.pos() == end,
            decreases s.len() - self.pos(),
        {
            let Some(c) = self.stream.peek() else {
                break;
            };
            let digit = if '0' <= c && c <= '9' {
                true
            } else {
                is_numeric(c)
            };
            if digit {
                let ghost p = self.pos();
                self.stream.consume();
                push_char(&mut number_string, c);
                proof {
                    assert(number_string@ =~= s.subrange(start - 1, p + 1));
                }
            } else {
                break;
            }
        }
        match parse_i32(number_string.as_str()) {
            Some(value) => Ok(self.token(TokenType::IntegerLiteral(value))),
            None => Err(self.error(ErrorType::InvalidNumber(number_string))),
        }
    }

    /// Consumes characters through the first `until`, or to the end.
    fn skip_until(&mut self, until: char)
        requires
            old(self).wf(),
        ensures
            final(self).wf(),
            final(self).chars() == old(self).chars(),
            final(self).line() == old(self).line(),
            ({
                let j = run_end(old(self).chars(), old(self).pos(), other_than(until));
                final(self).pos() == if j < old(self).chars().len() {
                    j + 1
                } else {
                    j
                }
            }),
    {
        let ghost s = self.chars();
        let ghost end = run_end(s, self.pos(), other_than(until));
        proof {
            lemma_run_end(s, self.pos(), other_than(until));
        }
        loop
            invariant_except_break
                run_end(s, self.pos(), other_than(until)) == end,
            invariant
                self.wf(),
                self.chars() == s,
                s == old(self).chars(),
                end == run_end(s, old(self).pos(), other_than(until)),
                self.line() == old(self).line(),
                old(self).pos() <= self.pos() <= s.len(),
            ensures
                self.pos() == if end < s.len() {
                    end + 1
                } else {
                    end
                },
            decreases s.len() - self.pos(),
        {
            let Some(c) = self.stream.consume() else {
                break;
            };
            if c == until {
                break;
            }
        }
    }

    /// Reads the remaining characters into tokens; stops at the first error.
    #[verifier::rlimit(50)]
    pub fn parse(&mut self) -> (r: Result<Vec<Token>, Error>)
        requires
            old(self).wf(),
        ensures
            final(self).wf(),
            tokens_result_view(r) == lex_from(
                old(self).chars(),
                old(self).pos(),
                old(self).col(),
                old(self).line(),
            ),
    {
        let ghost s = self.chars();
        let ghost goal = lex_from(s, self.pos(), self.col(), self.line());
        let mut tokens: Vec<Token> = Vec::new();
        proof {
            assert(token_views(tokens@) =~= Seq::empty());
            assert(Seq::<SpecToken>::empty() + Seq::empty() =~= Seq::<SpecToken>::empty());
        }
        loop
            invariant
                self.wf(),
                self.chars() == s,
                s == old(self).chars(),
                goal == lex_from(old(self).chars(), old(self).pos(), old(self).col(), old(self).line()),
                goal == prepend_all(
                    token_views(tokens@),
                    lex_from(s, self.pos(), self.col(), self.line()),
                ),
            ensures
                self.pos() >= s.len(),
            decreases s.len() - self.pos(),
        {
            let ghost i = self.pos();
            let ghost col = self.col();
            let ghost line = self.line();
            let Some(c) = self.stream.consume() else {
                break;
            };
            proof {
                lemma_run_end(s, i + 1, in_string());
                lemma_run_end(s, i + 1, in_word());
                lemma_run_end(s, i + 1, in_number());
                lemma_run_end(s, i + 1, other_than('\n'));
            }
            let token = match c {
                '=' => self.token(TokenType::Equals),
                '+' => self.token(TokenType::Plus),
                '-' => self.token(TokenType::Minus),
                '*' => self.token(TokenType::Asterisk),
                ':' => self.token(TokenType::Colon),
                '(' => self.token(TokenType::OpenParenthesis),
                ')' => self.token(TokenType::CloseParenthesis),
                ',' => self.token(TokenType::Comma),
                '\n' => {
                    self.line = self.line + 1;
                    self.stream.reset_visual_index();
                    continue;
                },
                '"' => match self.parse_string() {
                    Ok(token) => token,
                    Err(error) => return Err(error),
                },
                '/' => {
                    if let Some('/') = self.stream.peek() {
                        // A comment runs to the end of the line.
                        self.skip_until('\n');
                        self.line = self.line + 1;
                        self.stream.reset_visual_index();
                        continue;
                    } else {
                        self.token(TokenType::Slash)
                    }
                },
                ' ' => continue,
                _ => {
                    if '0' <= c && c <= '9' {
                        match self.parse_number(c) {
                            Ok(token) => token,
                            Err(error) => return Err(error),
                        }
                    } else if is_alphabetic(c) {
                        self.parse_identifier(c)
                    } else if is_numeric(c) {
                        match self.parse_number(c) {
                            Ok(token) => token,
                            Err(error) => return Err(error),
                        }
                    } else {
                        return Err(self.error(ErrorType::UnexpectedCharacter(c)));
                    }
                },
            };
            proof {
                lemma_prepend_all_push(
                    token_views(tokens@),
                    token@,
                    lex_from(s, self.pos(), self.col(), self.line()),
                );
            }
            let ghost before = tokens@;
            let ghost tv = token@;
            tokens.push(token);
            proof {
                assert(token_views(tokens@) =~= token_views(before).push(tv));
            }
        }
        proof {
            assert(token_views(tokens@) + Seq::empty() =~= token_views(tokens@));
        }
        Ok(tokens)
    }
}

} // verus!

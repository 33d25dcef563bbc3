use vstd::prelude::*;

use crate::error::{InterpErr, SyntaxErrV, SyntaxMsg};
use crate::number::{make, make_exec, Num};
use crate::text::{alphabetic, chars_of, is_alphabetic, text_of};
use crate::parser::tokens_wf;
use crate::token::{KindV, Token, TokenKind, TokenV};

verus! {

pub open spec fn is_digit(c: char) -> bool {
    '0' <= c && c <= '9'
}

/// A character that can begin an identifier: a letter or `_`.
pub open spec fn is_alpha(c: char) -> bool {
    alphabetic(c) || c == '_'
}

pub open spec fn is_alnum(c: char) -> bool {
    is_alpha(c) || is_digit(c)
}

/// The character at `i`, or `'\0'` past either end.
pub open spec fn char_at(src: Seq<char>, i: int) -> char {
    if 0 <= i < src.len() {
        src[i]
    } else {
        '\0'
    }
}

/// First position at or after `i` that does not hold a digit.
pub open spec fn digits_end(src: Seq<char>, i: int) -> int
    decreases src.len() - i,
{
    if 0 <= i < src.len() && is_digit(src[i]) {
        digits_end(src, i + 1)
    } else {
        i
    }
}

/// First position at or after `i` that holds no letter, digit or underscore.
pub open spec fn alnum_end(src: Seq<char>, i: int) -> int
    decreases src.len() - i,
{
    if 0 <= i < src.len() && is_alnum(src[i]) {
        alnum_end(src, i + 1)
    } else {
        i
    }
}

/// First position at or after `i` that holds a newline, or the end.
pub open spec fn line_end(src: Seq<char>, i: int) -> int
    decreases src.len() - i,
{
    if 0 <= i < src.len() && src[i] != '\n' {
        line_end(src, i + 1)
    } else {
        i
    }
}

/// Position of the first `"` at or after `i` (the end if none), with the
/// line counter advanced over the newlines before it.
pub open spec fn string_end(src: Seq<char>, i: int, line: nat) -> (int, nat)
    decreases src.len() - i,
{
    if 0 <= i < src.len() && src[i] != '"' {
        string_end(src, i + 1, if src[i] == '\n' { line + 1 } else { line })
    } else {
        (i, line)
    }
}

pub open spec fn digit_value(c: char) -> int {
    (c as int) - ('0' as int)
}

/// Value of the digits in `src[start..i]`, the decimal point skipped.
pub open spec fn digits_value(src: Seq<char>, start: int, i: int) -> int
    decreases i - start,
{
    if i <= start {
        0
    } else if src[i - 1] == '.' {
        digits_value(src, start, i - 1)
    } else {
        digits_value(src, start, i - 1) * 10 + digit_value(src[i - 1])
    }
}

pub open spec fn pow10(n: nat) -> int
    decreases n,
{
    if n == 0 {
        1
    } else {
        10 * pow10((n - 1) as nat)
    }
}

/// Most fraction digits a number literal keeps; later ones are dropped.
pub const LITERAL_FRACTION_DIGITS: usize = 18;

/// The number written in `src[start..end]`, whose integer part ends at
/// `int_end` (a point and fraction digits follow where `end > int_end`):
/// positive infinity where the integer part exceeds `i64::MAX`, else the
/// fraction of its digits, the fraction digits after
/// `LITERAL_FRACTION_DIGITS` dropped.
pub open spec fn literal_num(src: Seq<char>, start: int, int_end: int, end: int) -> Num {
    if digits_value(src, start, int_end) > i64::MAX {
        Num::inf(1)
    } else {
        let frac = if end > int_end { end - int_end - 1 } else { 0 };
        let f = if frac > LITERAL_FRACTION_DIGITS { LITERAL_FRACTION_DIGITS as int } else { frac };
        let stop = if end > int_end { int_end + 1 + f } else { int_end };
        make(digits_value(src, start, stop), pow10(f as nat))
    }
}

/// The kind of a word: a keyword's own kind, else an identifier.
pub open spec fn keyword_kind(w: Seq<char>) -> TokenKind {
    if w == "and"@ {
        TokenKind::And
    } else if w == "class"@ {
        TokenKind::Class
    } else if w == "else"@ {
        TokenKind::Else
    } else if w == "false"@ {
        TokenKind::False
    } else if w == "fn"@ {
        TokenKind::Fn
    } else if w == "for"@ {
        TokenKind::For
    } else if w == "if"@ {
        TokenKind::If
    } else if w == "null"@ {
        TokenKind::Null
    } else if w == "or"@ {
        TokenKind::Or
    } else if w == "print"@ {
        TokenKind::Print
    } else if w == "return"@ {
        TokenKind::Return
    } else if w == "super"@ {
        TokenKind::Super
    } else if w == "this"@ {
        TokenKind::This
    } else if w == "true"@ {
        TokenKind::True
    } else if w == "let"@ {
        TokenKind::Let
    } else if w == "while"@ {
        TokenKind::While
    } else {
        TokenKind::Identifier
    }
}

/// What one scanning step at `start` does: skip text, yield a token and
/// where scanning resumes, or fail.
pub ghost enum Step {
    Skip(int, nat),
    Tok(TokenV, int),
    Fail(SyntaxErrV),
}

pub open spec fn simple(kind: TokenKind, src: Seq<char>, start: int, next: int, line: nat) -> Step {
    Step::Tok(TokenV { kind: KindV::Other(kind), lexeme: src.subrange(start, next), line }, next)
}

pub open spec fn one_or_two(
    src: Seq<char>,
    start: int,
    line: nat,
    short: TokenKind,
    long: TokenKind,
) -> Step {
    if char_at(src, start + 1) == '=' {
        simple(long, src, start, start + 2, line)
    } else {
        simple(short, src, start, start + 1, line)
    }
}

pub open spec fn scan_string(src: Seq<char>, start: int, line: nat) -> Step {
    let (j, l) = string_end(src, start + 1, line);
    if j >= src.len() {
        Step::Fail(SyntaxErrV { line: l, msg: SyntaxMsg::UnterminatedString, place: Seq::empty() })
    } else {
        Step::Tok(
            TokenV {
                kind: KindV::Str(src.subrange(start + 1, j)),
                lexeme: src.subrange(start, j + 1),
                line: l,
            },
            j + 1,
        )
    }
}

pub open spec fn scan_number(src: Seq<char>, start: int, line: nat) -> Step {
    let i = digits_end(src, start + 1);
    let has_frac = char_at(src, i) == '.' && is_digit(char_at(src, i + 1));
    let k = if has_frac { digits_end(src, i + 2) } else { i };
    simple(TokenKind::Number(literal_num(src, start, i, k)), src, start, k, line)
}

pub open spec fn scan_step(src: Seq<char>, start: int, line: nat) -> Step {
    let c = src[start];
    let n = start + 1;
    if c == '(' {
        simple(TokenKind::LeftParen, src, start, n, line)
    } else if c == ')' {
        simple(TokenKind::RightParen, src, start, n, line)
    } else if c == '{' {
        simple(TokenKind::LeftBrace, src, start, n, line)
    } else if c == '}' {
        simple(TokenKind::RightBrace, src, start, n, line)
    } else if c == ',' {
        simple(TokenKind::Comma, src, start, n, line)
    } else if c == '.' {
        simple(TokenKind::Dot, src, start, n, line)
    } else if c == ';' {
        simple(TokenKind::Semicolon, src, start, n, line)
    } else if c == '+' {
        simple(TokenKind::Plus, src, start, n, line)
    } else if c == '-' {
        simple(TokenKind::Minus, src, start, n, line)
    } else if c == '*' {
        simple(TokenKind::Star, src, start, n, line)
    } else if c == '!' {
        one_or_two(src, start, line, TokenKind::Bang, TokenKind::BangEqual)
    } else if c == '=' {
        one_or_two(src, start, line, TokenKind::Equal, TokenKind::EqualEqual)
    } else if c == '>' {
        one_or_two(src, start, line, TokenKind::Greater, TokenKind::GreaterEqual)
    } else if c == '<' {
        one_or_two(src, start, line, TokenKind::Less, TokenKind::LessEqual)
    } else if c == '/' {
        if char_at(src, n) == '/' {
            Step::Skip(line_end(src, n + 1), line)
        } else {
            simple(TokenKind::Slash, src, start, n, line)
        }
    } else if c == '"' {
        scan_string(src, start, line)
    } else if is_digit(c) {
        scan_number(src, start, line)
    } else if is_alpha(c) {
        let k = alnum_end(src, n);
        simple(keyword_kind(src.subrange(start, k)), src, start, k, line)
    } else if c == ' ' || c == '\r' || c == '\t' {
        Step::Skip(n, line)
    } else if c == '\n' {
        Step::Skip(n, line + 1)
    } else {
        Step::Fail(SyntaxErrV { line, msg: SyntaxMsg::UnexpectedCharacter, place: seq![c] })
    }
}

pub open spec fn eof_token(line: nat) -> TokenV {
    TokenV { kind: KindV::Other(TokenKind::Eof), lexeme: Seq::empty(), line }
}

/// Scanning from `pos` on `line`, after the tokens `acc`: the whole token
/// sequence, closed by one end marker, or the first failure.
pub open spec fn scan_from(src: Seq<char>, pos: int, line: nat, acc: Seq<TokenV>) -> Result<
    Seq<TokenV>,
    SyntaxErrV,
>
    decreases src.len() - pos,
{
    if !(0 <= pos < src.len()) {
        Ok(acc.push(eof_token(line)))
    } else {
        match scan_step(src, pos, line) {
            Step::Skip(n, l) => if pos < n <= src.len() {
                scan_from(src, n, l, acc)
            } else {
                Err(SyntaxErrV { line, msg: SyntaxMsg::UnexpectedCharacter, place: Seq::empty() })
            },
            Step::Tok(t, n) => if pos < n <= src.len() {
                scan_from(src, n, t.line, acc.push(t))
            } else {
                Err(SyntaxErrV { line, msg: SyntaxMsg::UnexpectedCharacter, place: Seq::empty() })
            },
            Step::Fail(e) => Err(e),
        }
    }
}

/// No token but the last is an end marker.
pub open spec fn eof_free(ts: Seq<TokenV>) -> bool {
    forall|i: int| 0 <= i < ts.len() ==> #[trigger] ts[i].kind != KindV::Other(TokenKind::Eof)
}

proof fn lemma_step_not_eof(src: Seq<char>, pos: int, line: nat)
    requires
        0 <= pos < src.len(),
    ensures
        scan_step(src, pos, line) matches Step::Tok(t, _) ==> t.kind != KindV::Other(TokenKind::Eof),
{
}

/// A successful scan ends in exactly one end marker.
pub proof fn lemma_scan_ends(src: Seq<char>, pos: int, line: nat, acc: Seq<TokenV>)
    requires
        eof_free(acc),
    ensures
        scan_from(src, pos, line, acc) matches Ok(ts) ==> ts.len() > 0 && ts.last().kind
            == KindV::Other(TokenKind::Eof) && eof_free(ts.drop_last()),
    decreases src.len() - pos,
{
    if !(0 <= pos < src.len()) {
        let ts = acc.push(eof_token(line));
        assert(ts.drop_last() =~= acc);
    } else {
        lemma_step_not_eof(src, pos, line);
        match scan_step(src, pos, line) {
            Step::Skip(n, l) => if pos < n <= src.len() {
                lemma_scan_ends(src, n, l, acc);
            },
            Step::Tok(t, n) => if pos < n <= src.len() {
                assert(eof_free(acc.push(t))) by {
                    assert forall|i: int| 0 <= i < acc.push(t).len() implies #[trigger] acc.push(t)[i].kind
                        != KindV::Other(TokenKind::Eof) by {
                        if i < acc.len() {
                            assert(acc.push(t)[i] == acc[i]);
                        }
                    }
                }
                lemma_scan_ends(src, n, t.line, acc.push(t));
            },
            Step::Fail(_) => {},
        }
    }
}

/// The tokens of a successful scan are what the parser accepts.
pub proof fn lemma_scan_wf(src: Seq<char>, ts: Seq<Token>)
    requires
        scan(src) == Ok::<Seq<TokenV>, SyntaxErrV>(views(ts)),
        ts.len() < usize::MAX,
    ensures
        tokens_wf(ts),
{
    lemma_scan_ends(src, 0, 1, Seq::empty());
    let vs = views(ts);
    assert(ts.last().kind is Eof) by {
        assert(vs.last() == ts.last()@);
    }
    assert forall|i: int| 0 <= i < ts.len() - 1 implies !(#[trigger] ts[i].kind is Eof) by {
        assert(vs.drop_last()[i] == ts[i]@);
        assert(vs.drop_last()[i].kind != KindV::Other(TokenKind::Eof));
        if ts[i].kind is Eof {
            assert(ts[i].kind@ == KindV::Other(TokenKind::Eof));
        }
    }
}

/// The token sequence of a source text.
pub open spec fn scan(src: Seq<char>) -> Result<Seq<TokenV>, SyntaxErrV> {
    scan_from(src, 0, 1, Seq::empty())
}

pub open spec fn views(ts: Seq<Token>) -> Seq<TokenV> {
    ts.map_values(|t: Token| t@)
}

fn is_digit_char(c: char) -> (r: bool)
    ensures
        r == is_digit(c),
{
    '0' <= c && c <= '9'
}

fn is_alpha_char(c: char) -> (r: bool)
    ensures
        r == is_alpha(c),
{
    c == '_' || is_alphabetic(c)
}

/// Turns source text into tokens in one left-to-right pass.
pub struct Lexer {
    source: Vec<char>,
    tokens: Vec<Token>,
    current: usize,
    line: usize,
}

impl Lexer {
    pub closed spec fn source(&self) -> Seq<char> {
        self.source@
    }

    pub closed spec fn is_fresh(&self) -> bool {
        self.tokens@.len() == 0 && self.current == 0 && self.line == 1
    }

    pub fn new(source: String) -> (r: Lexer)
        ensures
            r.source() == source@,
            r.is_fresh(),
    {
        Lexer { source: chars_of(source.as_str()), tokens: Vec::new(), current: 0, line: 1 }
    }

    /// The whole token sequence, or the first failure.
    pub fn tokenized(&mut self) -> (r: Result<Vec<Token>, InterpErr>)
        requires
            old(self).is_fresh(),
            old(self).source().len() < usize::MAX - 1,
        ensures
            match r {
                Ok(ts) => scan(old(self).source()) == Ok::<Seq<TokenV>, SyntaxErrV>(views(ts@))
                    && ts@.len() <= old(self).source().len() + 1,
                Err(e) => e is SyntaxError && scan(old(self).source()) == Err::<
                    Seq<TokenV>,
                    SyntaxErrV,
                >(e.syntax_view()),
            },
    {
        assert(views(self.tokens@) =~= Seq::<TokenV>::empty());
        while self.current < self.source.len()
            invariant
                self.source@ == old(self).source@,
                self.source@.len() < usize::MAX - 1,
                self.current <= self.source@.len(),
                self.tokens@.len() <= self.current,
                1 <= self.line <= self.current + 1,
                scan_from(self.source@, self.current as int, self.line as nat, views(self.tokens@))
                    == scan(self.source@),
            decreases self.source@.len() - self.current,
        {
            let ghost pos = self.current as int;
            let ghost line = self.line as nat;
            let ghost acc = views(self.tokens@);
            let ghost old_len = self.tokens@.len();
            match self.process_next() {
                Ok(()) => {},
                Err(e) => {
                    return Err(e);
                },
            }
            proof {
                match scan_step(self.source@, pos, line) {
                    Step::Tok(t, n) => {
                        assert(views(self.tokens@) =~= acc.push(t));
                    },
                    _ => {},
                }
                assert(self.tokens@.len() == views(self.tokens@).len());
                assert(acc.len() == old_len);
            }
        }
        let ghost before = views(self.tokens@);
        let eof = Token::new(TokenKind::Eof, String::new(), self.line);
        self.tokens.push(eof);
        assert(views(self.tokens@) =~= before.push(eof_token(self.line as nat)));
        let mut out = Vec::new();
        std::mem::swap(&mut out, &mut self.tokens);
        Ok(out)
    }

    fn push_token(&mut self, kind: TokenKind, start: usize, next: usize)
        requires
            start <= next <= old(self).source@.len(),
        ensures
            final(self).source@ == old(self).source@,
            final(self).current == old(self).current,
            final(self).line == old(self).line,
            views(final(self).tokens@) == views(old(self).tokens@).push(
                TokenV {
                    kind: kind@,
                    lexeme: old(self).source@.subrange(start as int, next as int),
                    line: old(self).line as nat,
                },
            ),
    {
        let lexeme = text_of(&self.source, start, next);
        let t = Token::new(kind, lexeme, self.line);
        self.tokens.push(t);
        assert(views(self.tokens@) =~= views(old(self).tokens@).push(t@));
    }

    fn peek_at(&self, i: usize) -> (c: char)
        ensures
            c == char_at(self.source@, i as int),
    {
        if i < self.source.len() {
            self.source[i]
        } else {
            '\0'
        }
    }

    /// One scanning step at the current position.
    fn process_next(&mut self) -> (r: Result<(), InterpErr>)
        requires
            old(self).current < old(self).source@.len() < usize::MAX,
            1 <= old(self).line <= old(self).current + 1,
        ensures
            final(self).source@ == old(self).source@,
            match scan_step(old(self).source@, old(self).current as int, old(self).line as nat) {
                Step::Skip(n, l) => r is Ok && final(self).current == n && final(self).line == l
                    && views(final(self).tokens@) == views(old(self).tokens@),
                Step::Tok(t, n) => r is Ok && final(self).current == n && final(self).line
                    == t.line && views(final(self).tokens@) == views(old(self).tokens@).push(t),
                Step::Fail(e) => r matches Err(err) && err is SyntaxError && err.syntax_view()
                    == e,
            },
            r is Ok ==> old(self).current < final(self).current <= final(self).source@.len()
                && 1 <= final(self).line <= final(self).current + 1,
    {
        let start = self.current;
        let c = self.source[start];
        let n = start + 1;
        if c == '(' {
            self.push_token(TokenKind::LeftParen, start, n);
        } else if c == ')' {
            self.push_token(TokenKind::RightParen, start, n);
        } else if c == '{' {
            self.push_token(TokenKind::LeftBrace, start, n);
        } else if c == '}' {
            self.push_token(TokenKind::RightBrace, start, n);
        } else if c == ',' {
            self.push_token(TokenKind::Comma, start, n);
        } else if c == '.' {
            self.push_token(TokenKind::Dot, start, n);
        } else if c == ';' {
            self.push_token(TokenKind::Semicolon, start, n);
        } else if c == '+' {
            self.push_token(TokenKind::Plus, start, n);
        } else if c == '-' {
            self.push_token(TokenKind::Minus, start, n);
        } else if c == '*' {
            self.push_token(TokenKind::Star, start, n);
        } else if c == '!' {
            return self.one_or_two(TokenKind::Bang, TokenKind::BangEqual);
        } else if c == '=' {
            return self.one_or_two(TokenKind::Equal, TokenKind::EqualEqual);
        } else if c == '>' {
            return self.one_or_two(TokenKind::Greater, TokenKind::GreaterEqual);
        } else if c == '<' {
            return self.one_or_two(TokenKind::Less, TokenKind::LessEqual);
        } else if c == '/' {
            if self.peek_at(n) == '/' {
                let mut i = n + 1;
                while i < self.source.len() && self.source[i] != '\n'
                    invariant
                        n + 1 <= i <= self.source@.len(),
                        line_end(self.source@, i as int) == line_end(self.source@, n + 1),
                    decreases self.source@.len() - i,
                {
                    i = i + 1;
                }
                self.current = i;
                return Ok(());
            } else {
                self.push_token(TokenKind::Slash, start, n);
            }
        } else if c == '"' {
            return self.string();
        } else if is_digit_char(c) {
            return self.number();
        } else if is_alpha_char(c) {
            return self.identifier();
        } else if c == ' ' || c == '\r' || c == '\t' {
            self.current = n;
            return Ok(());
        } else if c == '\n' {
            self.current = n;
            self.line = self.line + 1;
            return Ok(());
        } else {
            let place = text_of(&self.source, start, n);
            assert(place@ =~= seq![c]);
            return Err(InterpErr::SyntaxError { line: self.line, msg: SyntaxMsg::UnexpectedCharacter, place });
        }
        self.current = n;
        Ok(())
    }

    fn one_or_two(&mut self, short: TokenKind, long: TokenKind) -> (r: Result<(), InterpErr>)
        requires
            !(short is String),
            !(long is String),
            old(self).current < old(self).source@.len() < usize::MAX,
            1 <= old(self).line <= old(self).current + 1,
        ensures
            final(self).source@ == old(self).source@,
            match one_or_two(old(self).source@, old(self).current as int, old(self).line as nat, short, long) {
                Step::Tok(t, n) => r is Ok && final(self).current == n && final(self).line
                    == t.line && views(final(self).tokens@) == views(old(self).tokens@).push(t),
                _ => false,
            },
            old(self).current < final(self).current <= final(self).source@.len(),
            1 <= final(self).line <= final(self).current + 1,
    {
        let start = self.current;
        if self.peek_at(start + 1) == '=' {
            self.push_token(long, start, start + 2);
            self.current = start + 2;
        } else {
            self.push_token(short, start, start + 1);
            self.current = start + 1;
        }
        Ok(())
    }

    fn string(&mut self) -> (r: Result<(), InterpErr>)
        requires
            old(self).current < old(self).source@.len() < usize::MAX,
            1 <= old(self).line <= old(self).current + 1,
        ensures
            final(self).source@ == old(self).source@,
            match scan_string(old(self).source@, old(self).current as int, old(self).line as nat) {
                Step::Tok(t, n) => r is Ok && final(self).current == n && final(self).line
                    == t.line && views(final(self).tokens@) == views(old(self).tokens@).push(t),
                Step::Fail(e) => r matches Err(err) && err is SyntaxError && err.syntax_view()
                    == e,
                _ => false,
            },
            r is Ok ==> old(self).current < final(self).current <= final(self).source@.len()
                && 1 <= final(self).line <= final(self).current + 1,
    {
        let start = self.current;
        let mut i = start + 1;
        let mut line = self.line;
        while i < self.source.len() && self.source[i] != '"'
            invariant
                start + 1 <= i <= self.source@.len() < usize::MAX,
                1 <= line <= i + 1,
                string_end(self.source@, i as int, line as nat) == string_end(
                    self.source@,
                    start + 1,
                    old(self).line as nat,
                ),
            decreases self.source@.len() - i,
        {
            if self.source[i] == '\n' {
                line = line + 1;
            }
            i = i + 1;
        }
        if i >= self.source.len() {
            return Err(InterpErr::SyntaxError { line, msg: SyntaxMsg::UnterminatedString, place: String::new() });
        }
        let value = text_of(&self.source, start + 1, i);
        let lexeme = text_of(&self.source, start, i + 1);
        let t = Token::new(TokenKind::String(value), lexeme, line);
        self.tokens.push(t);
        assert(views(self.tokens@) =~= views(old(self).tokens@).push(t@));
        self.current = i + 1;
        self.line = line;
        Ok(())
    }

    fn digits_end(&self, from: usize) -> (r: usize)
        requires
            from <= self.source@.len(),
        ensures
            r == digits_end(self.source@, from as int),
            from <= r <= self.source@.len(),
    {
        let mut i = from;
        while i < self.source.len() && is_digit_char(self.source[i])
            invariant
                from <= i <= self.source@.len(),
                digits_end(self.source@, i as int) == digits_end(self.source@, from as int),
            decreases self.source@.len() - i,
        {
            i = i + 1;
        }
        i
    }

    fn number(&mut self) -> (r: Result<(), InterpErr>)
        requires
            old(self).current < old(self).source@.len() < usize::MAX,
            1 <= old(self).line <= old(self).current + 1,
            is_digit(old(self).source@[old(self).current as int]),
        ensures
            final(self).source@ == old(self).source@,
            match scan_number(old(self).source@, old(self).current as int, old(self).line as nat) {
                Step::Tok(t, n) => r is Ok && final(self).current == n && final(self).line
                    == t.line && views(final(self).tokens@) == views(old(self).tokens@).push(t),
                _ => false,
            },
            old(self).current < final(self).current <= final(self).source@.len(),
            1 <= final(self).line <= final(self).current + 1,
    {
        let start = self.current;
        let i = self.digits_end(start + 1);
        let has_frac = self.peek_at(i) == '.' && is_digit_char(self.peek_at(i + 1));
        let k = if has_frac { self.digits_end(i + 2) } else { i };
        proof {
            lemma_digits_run(self.source@, start + 1);
            if has_frac {
                lemma_digits_run(self.source@, i + 2);
            }
        }
        let value = self.literal_value(start, i, k);
        self.push_token(TokenKind::Number(value), start, k);
        self.current = k;
        Ok(())
    }

    fn literal_value(&self, start: usize, int_end: usize, end: usize) -> (r: Num)
        requires
            start <= int_end <= end <= self.source@.len(),
            forall|j: int| start <= j < int_end ==> is_digit(#[trigger] self.source@[j]),
            end > int_end ==> self.source@[int_end as int] == '.',
            forall|j: int| int_end < j < end ==> is_digit(#[trigger] self.source@[j]),
        ensures
            r == literal_num(self.source@, start as int, int_end as int, end as int),
    {
        let ghost src = self.source@;
        let mut v: i64 = 0;
        let mut i = start;
        while i < int_end
            invariant
                start <= i <= int_end <= src.len(),
                src == self.source@,
                forall|j: int| start <= j < int_end ==> is_digit(#[trigger] src[j]),
                v == digits_value(src, start as int, i as int),
                v >= 0,
            decreases int_end - i,
        {
            let d = (self.source[i] as u32 - '0' as u32) as i64;
            if v > (i64::MAX - d) / 10 {
                proof {
                    lemma_digits_value_grows(src, start as int, (i + 1) as int, int_end as int);
                }
                return Num::inf_exec(1);
            }
            v = v * 10 + d;
            i = i + 1;
        }
        let frac: usize = if end > int_end { end - int_end - 1 } else { 0 };
        let f: usize = if frac > LITERAL_FRACTION_DIGITS { LITERAL_FRACTION_DIGITS } else { frac };
        let stop: usize = if end > int_end { int_end + 1 + f } else { int_end };
        proof {
            reveal_with_fuel(pow10, 19);
            lemma_pow10_grows(0, 18);
        }
        let mut w: i128 = v as i128;
        if end > int_end {
            let mut j: usize = int_end + 1;
            assert(digits_value(src, start as int, (int_end + 1) as int) == digits_value(src, start as int, int_end as int));
            while j < stop
                invariant
                    src == self.source@,
                    end > int_end,
                    start <= int_end,
                    int_end + 1 <= j <= stop == int_end + 1 + f <= end <= src.len(),
                    f <= 18,
                    forall|q: int| int_end < q < end ==> is_digit(#[trigger] src[q]),
                    w == digits_value(src, start as int, j as int),
                    0 <= w < 0x8000_0000_0000_0000 * pow10((j - int_end - 1) as nat),
                    pow10(18) == 1_000_000_000_000_000_000,
                decreases stop - j,
            {
                let d = (self.source[j] as u32 - '0' as u32) as i128;
                assert(is_digit(src[j as int]));
                assert(d == digit_value(src[j as int]));
                assert(digits_value(src, start as int, (j + 1) as int) == digits_value(src, start as int, j as int) * 10 + digit_value(src[j as int]));
                proof {
                    let c = (j - int_end - 1) as nat;
                    lemma_pow10_grows(c + 1, 18);
                    let p = pow10(c);
                    assert(pow10(c + 1) == 10 * p);
                    assert(10 * w + d < 0x8000_0000_0000_0000 * (10 * p)) by (nonlinear_arith)
                        requires
                            0 <= w < 0x8000_0000_0000_0000 * p,
                            0 <= d <= 9,
                    ;
                    assert(0x8000_0000_0000_0000 * (10 * p) <= 0x8000_0000_0000_0000 * 1_000_000_000_000_000_000) by (nonlinear_arith)
                        requires
                            10 * p <= 1_000_000_000_000_000_000,
                    ;
                }
                w = w * 10 + d;
                j = j + 1;
            }
        }

        let mut den: i64 = 1;
        let mut fc: usize = 0;
        while fc < f
            invariant
                fc <= f <= 18,
                den == pow10(fc as nat),
                pow10(18) == 1_000_000_000_000_000_000,
            decreases f - fc,
        {
            proof {
                lemma_pow10_grows((fc + 1) as nat, 18);
            }
            den = den * 10;
            fc = fc + 1;
        }
        proof {
            lemma_pow10_grows(f as nat, 18);
        }
        make_exec(w, den as i128)
    }

    fn identifier(&mut self) -> (r: Result<(), InterpErr>)
        requires
            old(self).current < old(self).source@.len() < usize::MAX,
            1 <= old(self).line <= old(self).current + 1,
            is_alpha(old(self).source@[old(self).current as int]),
        ensures
            final(self).source@ == old(self).source@,
            ({
                let k = alnum_end(old(self).source@, old(self).current + 1);
                r is Ok && final(self).current == k && final(self).line == old(self).line
                    && views(final(self).tokens@) == views(old(self).tokens@).push(
                    TokenV {
                        kind: KindV::Other(
                            keyword_kind(old(self).source@.subrange(old(self).current as int, k)),
                        ),
                        lexeme: old(self).source@.subrange(old(self).current as int, k),
                        line: old(self).line as nat,
                    },
                )
            }),
            old(self).current < final(self).current <= final(self).source@.len(),
            1 <= final(self).line <= final(self).current + 1,
    {
        let start = self.current;
        let mut i = start + 1;
        while i < self.source.len() && (is_alpha_char(self.source[i]) || is_digit_char(self.source[i]))
            invariant
                start + 1 <= i <= self.source@.len(),
                alnum_end(self.source@, i as int) == alnum_end(self.source@, start + 1),
            decreases self.source@.len() - i,
        {
            i = i + 1;
        }
        let kind = self.keyword(start, i);
        self.push_token(kind, start, i);
        self.current = i;
        Ok(())
    }

    fn is_word(&self, start: usize, end: usize, w: &str) -> (r: bool)
        requires
            start <= end <= self.source@.len(),
        ensures
            r == (self.source@.subrange(start as int, end as int) == w@),
    {
        let n = w.unicode_len();
        if n != end - start {
            return false;
        }
        let mut i: usize = 0;
        while i < n
            invariant
                n == w@.len() == end - start,
                start <= end <= self.source@.len(),
                i <= n,
                forall|j: int| 0 <= j < i ==> self.source@[start + j] == w@[j],
            decreases n - i,
        {
            if self.source[start + i] != w.get_char(i) {
                assert(self.source@.subrange(start as int, end as int)[i as int] != w@[i as int]);
                return false;
            }
            i = i + 1;
        }
        assert(self.source@.subrange(start as int, end as int) =~= w@);
        true
    }

    fn keyword(&self, start: usize, end: usize) -> (r: TokenKind)
        requires
            start <= end <= self.source@.len(),
        ensures
            r == keyword_kind(self.source@.subrange(start as int, end as int)),
    {
        if self.is_word(start, end, "and") {
            TokenKind::And
        } else if self.is_word(start, end, "class") {
            TokenKind::Class
        } else if self.is_word(start, end, "else") {
            TokenKind::Else
        } else if self.is_word(start, end, "false") {
            TokenKind::False
        } else if self.is_word(start, end, "fn") {
            TokenKind::Fn
        } else if self.is_word(start, end, "for") {
            TokenKind::For
        } else if self.is_word(start, end, "if") {
            TokenKind::If
        } else if self.is_word(start, end, "null") {
            TokenKind::Null
        } else if self.is_word(start, end, "or") {
            TokenKind::Or
        } else if self.is_word(start, end, "print") {
            TokenKind::Print
        } else if self.is_word(start, end, "return") {
            TokenKind::Return
        } else if self.is_word(start, end, "super") {
            TokenKind::Super
        } else if self.is_word(start, end, "this") {
            TokenKind::This
        } else if self.is_word(start, end, "true") {
            TokenKind::True
        } else if self.is_word(start, end, "let") {
            TokenKind::Let
        } else if self.is_word(start, end, "while") {
            TokenKind::While
        } else {
            TokenKind::Identifier
        }
    }
}

proof fn lemma_digits_run(src: Seq<char>, i: int)
    requires
        0 <= i <= src.len(),
    ensures
        i <= digits_end(src, i) <= src.len(),
        forall|j: int| i <= j < digits_end(src, i) ==> is_digit(#[trigger] src[j]),
    decreases src.len() - i,
{
    if i < src.len() && is_digit(src[i]) {
        lemma_digits_run(src, i + 1);
    }
}

proof fn lemma_digits_value_grows(src: Seq<char>, start: int, i: int, end: int)
    requires
        start <= i <= end <= src.len(),
        forall|j: int| start <= j < end ==> is_digit(#[trigger] src[j]) || src[j] == '.',
    ensures
        digits_value(src, start, i) <= digits_value(src, start, end),
        digits_value(src, start, i) >= 0,
    decreases end - i,
{
    if i < end {
        lemma_digits_value_grows(src, start, i + 1, end);
        lemma_digits_value_nonneg(src, start, i);
    } else {
        lemma_digits_value_nonneg(src, start, i);
    }
}

proof fn lemma_digits_value_nonneg(src: Seq<char>, start: int, i: int)
    requires
        start <= i <= src.len(),
        forall|j: int| start <= j < i ==> is_digit(#[trigger] src[j]) || src[j] == '.',
    ensures
        digits_value(src, start, i) >= 0,
    decreases i - start,
{
    if i > start {
        lemma_digits_value_nonneg(src, start, i - 1);
    }
}

proof fn lemma_pow10_grows(f: nat, g: nat)
    requires
        f <= g,
    ensures
        pow10(f) <= pow10(g),
        pow10(f) >= 1,
    decreases g - f,
{
    if f < g {
        lemma_pow10_grows(f + 1, g);
    } else {
        lemma_pow10_pos(f);
    }
}

proof fn lemma_pow10_pos(f: nat)
    ensures
        pow10(f) >= 1,
    decreases f,
{
    if f > 0 {
        lemma_pow10_pos((f - 1) as nat);
    }
}

} // verus!

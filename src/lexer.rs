//! Lexical analysis: source text to an ordered sequence of tokens.
use vstd::prelude::*;
use crate::error::Error;
use crate::text::{
    alphabetic, chars_of, is_alphabetic, is_digit, string_of_range, text_is, to_upper, upper_of,
};

verus! {

/// The class of a token, without its text.
#[derive(PartialEq, Eq, Structural, Debug, Clone, Copy)]
pub enum TokenKind {
    Number,
    Str,
    Identifier,
    BinOp,
    RelOp,
    Keyword,
    BuiltIn,
    Punc,
}

/// One lexical unit and its text: the raw digits of a number, the contents of
/// a string literal, a name, an operator lexeme, an upper-case keyword or
/// builtin name, or a punctuation character.
#[derive(Debug)]
pub enum Token {
    Number(String),
    Str(String),
    Identifier(String),
    BinOp(String),
    RelOp(String),
    Keyword(String),
    BuiltIn(String),
    Punc(String),
}

/// A token as a value: its class and its text.
pub type TokenView = (TokenKind, Seq<char>);

impl View for Token {
    type V = TokenView;

    open spec fn view(&self) -> TokenView {
        match self {
            Token::Number(s) => (TokenKind::Number, s@),
            Token::Str(s) => (TokenKind::Str, s@),
            Token::Identifier(s) => (TokenKind::Identifier, s@),
            Token::BinOp(s) => (TokenKind::BinOp, s@),
            Token::RelOp(s) => (TokenKind::RelOp, s@),
            Token::Keyword(s) => (TokenKind::Keyword, s@),
            Token::BuiltIn(s) => (TokenKind::BuiltIn, s@),
            Token::Punc(s) => (TokenKind::Punc, s@),
        }
    }
}

impl Token {
    /// Builds the token of the given class and text.
    pub fn make(kind: TokenKind, text: String) -> (r: Token)
        ensures
            r@ == (kind, text@),
    {
        match kind {
            TokenKind::Number => Token::Number(text),
            TokenKind::Str => Token::Str(text),
            TokenKind::Identifier => Token::Identifier(text),
            TokenKind::BinOp => Token::BinOp(text),
            TokenKind::RelOp => Token::RelOp(text),
            TokenKind::Keyword => Token::Keyword(text),
            TokenKind::BuiltIn => Token::BuiltIn(text),
            TokenKind::Punc => Token::Punc(text),
        }
    }

    pub fn kind(&self) -> (r: TokenKind)
        ensures
            r == self@.0,
    {
        match self {
            Token::Number(_) => TokenKind::Number,
            Token::Str(_) => TokenKind::Str,
            Token::Identifier(_) => TokenKind::Identifier,
            Token::BinOp(_) => TokenKind::BinOp,
            Token::RelOp(_) => TokenKind::RelOp,
            Token::Keyword(_) => TokenKind::Keyword,
            Token::BuiltIn(_) => TokenKind::BuiltIn,
            Token::Punc(_) => TokenKind::Punc,
        }
    }

    pub fn text(&self) -> (r: &String)
        ensures
            r@ == self@.1,
    {
        match self {
            Token::Number(s) => s,
            Token::Str(s) => s,
            Token::Identifier(s) => s,
            Token::BinOp(s) => s,
            Token::RelOp(s) => s,
            Token::Keyword(s) => s,
            Token::BuiltIn(s) => s,
            Token::Punc(s) => s,
        }
    }

    /// Whether this token has the given class and text.
    pub fn is(&self, kind: TokenKind, lit: &str) -> (r: bool)
        ensures
            r == (self@ == (kind, lit@)),
    {
        self.kind() == kind && text_is(self.text(), lit)
    }
}

pub open spec fn token_views(ts: Seq<Token>) -> Seq<TokenView> {
    ts.map_values(|t: Token| t@)
}

pub open spec fn is_keyword(w: Seq<char>) -> bool {
    ||| w == "LET"@
    ||| w == "IF"@
    ||| w == "ELSEIF"@
    ||| w == "ELSE"@
    ||| w == "THEN"@
    ||| w == "PRINT"@
    ||| w == "AND"@
    ||| w == "OR"@
    ||| w == "NOT"@
    ||| w == "INPUT"@
    ||| w == "TRUE"@
    ||| w == "FALSE"@
    ||| w == "FOR"@
    ||| w == "TO"@
    ||| w == "STEP"@
    ||| w == "NEXT"@
}

pub open spec fn is_builtin(w: Seq<char>) -> bool {
    ||| w == "ABS"@
    ||| w == "ATN"@
    ||| w == "COS"@
    ||| w == "EXP"@
    ||| w == "INT"@
    ||| w == "LOG"@
    ||| w == "RND"@
    ||| w == "SIN"@
    ||| w == "SQR"@
    ||| w == "TAN"@
}

/// The token for a word: a keyword or builtin name in upper case, or else
/// an identifier with its casing kept.
pub open spec fn word_token(w: Seq<char>) -> TokenView {
    let u = upper_of(w);
    if is_keyword(u) {
        (TokenKind::Keyword, u)
    } else if is_builtin(u) {
        (TokenKind::BuiltIn, u)
    } else {
        (TokenKind::Identifier, w)
    }
}

/// Characters that start the operator and punctuation scan.
pub open spec fn is_operator_start(c: char) -> bool {
    c == '+' || c == '-' || c == '*' || c == '/' || c == '=' || c == '<' || c == '>' || c == '^'
        || c == '%' || c == '(' || c == ')' || c == ','
}

pub open spec fn is_punc(c: char) -> bool {
    c == '(' || c == ')' || c == ','
}

/// One-character operators.
pub open spec fn is_op1(c: char) -> bool {
    c == '+' || c == '-' || c == '*' || c == '/' || c == '%' || c == '=' || c == '<' || c == '>'
}

/// Two-character operators.
pub open spec fn is_op2(a: char, b: char) -> bool {
    (a == '<' && b == '=') || (a == '>' && b == '=') || (a == '!' && b == '=') || (a == '<' && b
        == '>')
}

/// An operator is relational when it starts with one of `> < = !`.
pub open spec fn op_kind(c: char) -> TokenKind {
    if c == '>' || c == '<' || c == '=' || c == '!' {
        TokenKind::RelOp
    } else {
        TokenKind::BinOp
    }
}

/// End of the longest run from `i` of digits with at most one decimal point
/// (`dot` tells whether one was already taken).
pub open spec fn number_end(s: Seq<char>, i: int, dot: bool) -> int
    decreases s.len() - i,
{
    if 0 <= i < s.len() && (is_digit(s[i]) || (s[i] == '.' && !dot)) {
        number_end(s, i + 1, dot || s[i] == '.')
    } else {
        i
    }
}

/// Index of the first `"` at or after `i`, or the length if there is none.
pub open spec fn quote_end(s: Seq<char>, i: int) -> int
    decreases s.len() - i,
{
    if 0 <= i < s.len() && s[i] != '"' {
        quote_end(s, i + 1)
    } else {
        i
    }
}

/// End of the longest run from `i` of alphabetic characters and underscores.
pub open spec fn word_end(s: Seq<char>, i: int) -> int
    decreases s.len() - i,
{
    if 0 <= i < s.len() && (alphabetic(s[i]) || s[i] == '_') {
        word_end(s, i + 1)
    } else {
        i
    }
}

/// The operator or punctuation token at `i`, and the index after it.
pub open spec fn operator_at(s: Seq<char>, i: int) -> Result<(TokenView, int), Error> {
    let c = s[i];
    if is_punc(c) {
        Ok(((TokenKind::Punc, seq![c]), i + 1))
    } else if i + 1 < s.len() && is_op2(c, s[i + 1]) {
        Ok(((op_kind(c), seq![c, s[i + 1]]), i + 2))
    } else if is_op1(c) {
        Ok(((op_kind(c), seq![c]), i + 1))
    } else {
        Err(Error::UnexpectedOperator)
    }
}

pub open spec fn prepend(t: TokenView, r: Result<Seq<TokenView>, Error>) -> Result<
    Seq<TokenView>,
    Error,
> {
    match r {
        Ok(ts) => Ok(seq![t] + ts),
        Err(e) => Err(e),
    }
}

/// The tokens of `s` from index `i` on, or the first lexical error.
pub open spec fn lex_from(s: Seq<char>, i: int) -> Result<Seq<TokenView>, Error>
    decreases s.len() - i,
{
    if i < 0 || i >= s.len() {
        Ok(Seq::empty())
    } else {
        let c = s[i];
        if is_digit(c) {
            let j = number_end(s, i, false);
            proof {
                lemma_number_end(s, i + 1, false);
            }
            prepend((TokenKind::Number, s.subrange(i, j)), lex_from(s, j))
        } else if c == '"' {
            let j = quote_end(s, i + 1);
            proof {
                lemma_quote_end(s, i + 1);
            }
            if j >= s.len() {
                Err(Error::UnterminatedString)
            } else {
                prepend((TokenKind::Str, s.subrange(i + 1, j)), lex_from(s, j + 1))
            }
        } else if is_operator_start(c) {
            match operator_at(s, i) {
                Ok((t, j)) => prepend(t, lex_from(s, j)),
                Err(e) => Err(e),
            }
        } else if alphabetic(c) {
            let j = word_end(s, i);
            proof {
                lemma_word_end(s, i + 1);
            }
            prepend(word_token(s.subrange(i, j)), lex_from(s, j))
        } else {
            lex_from(s, i + 1)
        }
    }
}

/// The tokens of the whole text, or the first lexical error.
pub open spec fn lex(s: Seq<char>) -> Result<Seq<TokenView>, Error> {
    lex_from(s, 0)
}

pub proof fn lemma_number_end(s: Seq<char>, i: int, dot: bool)
    requires
        0 <= i <= s.len(),
    ensures
        i <= number_end(s, i, dot) <= s.len(),
    decreases s.len() - i,
{
    if i < s.len() && (is_digit(s[i]) || (s[i] == '.' && !dot)) {
        lemma_number_end(s, i + 1, dot || s[i] == '.');
    }
}

pub proof fn lemma_quote_end(s: Seq<char>, i: int)
    requires
        0 <= i <= s.len(),
    ensures
        i <= quote_end(s, i) <= s.len(),
        quote_end(s, i) < s.len() ==> s[quote_end(s, i)] == '"',
    decreases s.len() - i,
{
    if i < s.len() && s[i] != '"' {
        lemma_quote_end(s, i + 1);
    }
}

pub proof fn lemma_word_end(s: Seq<char>, i: int)
    requires
        0 <= i <= s.len(),
    ensures
        i <= word_end(s, i) <= s.len(),
    decreases s.len() - i,
{
    if i < s.len() && (alphabetic(s[i]) || s[i] == '_') {
        lemma_word_end(s, i + 1);
    }
}

/// A cursor over the characters of a source text.
pub struct Lexer {
    source: Vec<char>,
    current: usize,
}

impl Lexer {
    pub closed spec fn chars(&self) -> Seq<char> {
        self.source@
    }

    pub closed spec fn pos(&self) -> int {
        self.current as int
    }

    /// A lexer at the start of `source`.
    pub fn new(source: String) -> (r: Lexer)
        ensures
            r.chars() == source@,
            r.pos() == 0,
    {
        Lexer { source: chars_of(source.as_str()), current: 0 }
    }

    fn advance(&mut self)
        requires
            old(self).pos() < old(self).chars().len(),
        ensures
            final(self).chars() == old(self).chars(),
            final(self).pos() == old(self).pos() + 1,
    {
        if self.current < self.source.len() {
            self.current = self.current + 1;
        }
    }

    /// Scans a number literal: the longest run of digits with at most one
    /// decimal point, kept as text.
    pub fn numeric(&mut self) -> (r: Token)
        requires
            old(self).pos() <= old(self).chars().len(),
        ensures
            final(self).chars() == old(self).chars(),
            final(self).pos() == number_end(old(self).chars(), old(self).pos(), false),
            r@ == (TokenKind::Number, old(self).chars().subrange(old(self).pos(), final(self).pos())),
    {
        let start = self.current;
        let mut has_decimal = false;
        proof {
            lemma_number_end(self.chars(), self.pos(), false);
        }
        while self.current < self.source.len() && (is_digit_char(self.source[self.current]) || (
        self.source[self.current] == '.' && !has_decimal))
            invariant
                self.chars() == old(self).chars(),
                start == old(self).pos(),
                start <= self.pos() <= self.chars().len(),
                number_end(self.chars(), self.pos(), has_decimal) == number_end(
                    self.chars(),
                    start as int,
                    false,
                ),
            decreases self.chars().len() - self.pos(),
        {
            if self.source[self.current] == '.' {
                has_decimal = true;
            }
            self.advance();
        }
        Token::Number(string_of_range(&self.source, start, self.current))
    }

    /// Scans a string literal whose opening quote is at the cursor: its text
    /// runs to the next quote, which must exist.
    pub fn string(&mut self) -> (r: Result<Token, Error>)
        requires
            old(self).pos() < old(self).chars().len(),
            old(self).chars()[old(self).pos()] == '"',
        ensures
            final(self).chars() == old(self).chars(),
            ({
                let s = old(self).chars();
                let j = quote_end(s, old(self).pos() + 1);
                match r {
                    Ok(t) => j < s.len() && t@ == (TokenKind::Str, s.subrange(
                        old(self).pos() + 1,
                        j,
                    )) && final(self).pos() == j + 1,
                    Err(e) => j >= s.len() && e == Error::UnterminatedString,
                }
            }),
    {
        self.advance();
        let start = self.current;
        proof {
            lemma_quote_end(self.chars(), self.pos());
        }
        while self.current < self.source.len() && self.source[self.current] != '"'
            invariant
                self.chars() == old(self).chars(),
                start == old(self).pos() + 1,
                start <= self.pos() <= self.chars().len(),
                quote_end(self.chars(), self.pos()) == quote_end(self.chars(), start as int),
            decreases self.chars().len() - self.pos(),
        {
            self.advance();
        }
        if self.current >= self.source.len() {
            return Err(Error::UnterminatedString);
        }
        let t = Token::Str(string_of_range(&self.source, start, self.current));
        self.advance();
        Ok(t)
    }

    /// Scans a word: a keyword or builtin name (upper-cased), or an identifier.
    pub fn identifier(&mut self) -> (r: Token)
        requires
            old(self).pos() <= old(self).chars().len(),
        ensures
            final(self).chars() == old(self).chars(),
            final(self).pos() == word_end(old(self).chars(), old(self).pos()),
            r@ == word_token(old(self).chars().subrange(old(self).pos(), final(self).pos())),
    {
        let start = self.current;
        proof {
            lemma_word_end(self.chars(), self.pos());
        }
        while self.current < self.source.len() && (is_alphabetic(self.source[self.current])
            || self.source[self.current] == '_')
            invariant
                self.chars() == old(self).chars(),
                start == old(self).pos(),
                start <= self.pos() <= self.chars().len(),
                word_end(self.chars(), self.pos()) == word_end(self.chars(), start as int),
            decreases self.chars().len() - self.pos(),
        {
            self.advance();
        }
        let word = string_of_range(&self.source, start, self.current);
        let upper = to_upper(&word);
        if keyword_text(&upper) {
            Token::Keyword(upper)
        } else if builtin_text(&upper) {
            Token::BuiltIn(upper)
        } else {
            Token::Identifier(word)
        }
    }

    /// Scans punctuation or an operator, preferring a two-character operator.
    pub fn operator(&mut self) -> (r: Result<Token, Error>)
        requires
            old(self).pos() < old(self).chars().len(),
        ensures
            final(self).chars() == old(self).chars(),
            match operator_at(old(self).chars(), old(self).pos()) {
                Ok((t, j)) => r is Ok && r->Ok_0@ == t && final(self).pos() == j,
                Err(e) => r == Err::<Token, Error>(e),
            },
    {
        let c = self.source[self.current];
        if c == '(' || c == ')' || c == ',' {
            self.advance();
            let mut v: Vec<char> = Vec::new();
            v.push(c);
            return Ok(Token::Punc(string_of_range(&v, 0, 1)));
        }
        if self.source.len() - self.current > 1 {
            let d = self.source[self.current + 1];
            if is_two_char_op(c, d) {
                let start = self.current;
                self.advance();
                self.advance();
                let text = string_of_range(&self.source, start, start + 2);
                proof {
                    assert(text@ =~= seq![c, d]);
                }
                return Ok(Token::make(operator_kind(c), text));
            }
        }
        if is_one_char_op(c) {
            let start = self.current;
            self.advance();
            let text = string_of_range(&self.source, start, start + 1);
            proof {
                assert(text@ =~= seq![c]);
            }
            return Ok(Token::make(operator_kind(c), text));
        }
        Err(Error::UnexpectedOperator)
    }

    /// Scans the rest of the text into tokens; whitespace and characters that
    /// start no token are skipped.
    pub fn tokenize(&mut self) -> (r: Result<Vec<Token>, Error>)
        requires
            old(self).pos() <= old(self).chars().len(),
        ensures
            final(self).chars() == old(self).chars(),
            lex_from(old(self).chars(), old(self).pos()) == match r {
                Ok(ts) => Ok(token_views(ts@)),
                Err(e) => Err::<Seq<TokenView>, Error>(e),
            },
    {
        let mut tokens: Vec<Token> = Vec::new();
        let ghost s = self.chars();
        let ghost start = self.pos();
        while self.current < self.source.len()
            invariant
                self.chars() == s,
                s == old(self).chars(),
                start == old(self).pos(),
                0 <= self.pos() <= s.len(),
                lex_from(s, start) == prepend_all(token_views(tokens@), lex_from(s, self.pos())),
            decreases s.len() - self.pos(),
        {
            let c = self.source[self.current];
            let ghost before = token_views(tokens@);
            let ghost p = self.pos();
            let t: Token;
            if is_digit_char(c) {
                t = self.numeric();
                proof {
                    lemma_number_end(s, p + 1, false);
                    assert(number_end(s, p, false) == number_end(s, p + 1, false));
                }
            } else if c == '"' {
                proof {
                    lemma_quote_end(s, p + 1);
                }
                match self.string() {
                    Ok(x) => {
                        t = x;
                    },
                    Err(e) => {
                        return Err(e);
                    },
                }
            } else if c == '+' || c == '-' || c == '*' || c == '/' || c == '=' || c == '<' || c
                == '>' || c == '^' || c == '%' || c == '(' || c == ')' || c == ',' {
                match self.operator() {
                    Ok(x) => {
                        t = x;
                    },
                    Err(e) => {
                        return Err(e);
                    },
                }
            } else if is_alphabetic(c) {
                t = self.identifier();
                proof {
                    lemma_word_end(s, p + 1);
                    assert(word_end(s, p) == word_end(s, p + 1));
                }
            } else {
                self.advance();
                continue;
            }
            tokens.push(t);
            proof {
                lemma_prepend_push(before, t@, lex_from(s, self.pos()));
                assert(token_views(tokens@) =~= before.push(t@));
            }
        }
        Ok(tokens)
    }
}

pub open spec fn prepend_all(ts: Seq<TokenView>, r: Result<Seq<TokenView>, Error>) -> Result<
    Seq<TokenView>,
    Error,
> {
    match r {
        Ok(rest) => Ok(ts + rest),
        Err(e) => Err(e),
    }
}

proof fn lemma_prepend_push(ts: Seq<TokenView>, t: TokenView, r: Result<Seq<TokenView>, Error>)
    ensures
        prepend_all(ts, prepend(t, r)) == prepend_all(ts.push(t), r),
{
    if let Ok(rest) = r {
        assert(ts + (seq![t] + rest) =~= ts.push(t) + rest);
    }
}

fn is_digit_char(c: char) -> (r: bool)
    ensures
        r == is_digit(c),
{
    '0' <= c && c <= '9'
}

fn is_one_char_op(c: char) -> (r: bool)
    ensures
        r == is_op1(c),
{
    c == '+' || c == '-' || c == '*' || c == '/' || c == '%' || c == '=' || c == '<' || c == '>'
}

fn is_two_char_op(a: char, b: char) -> (r: bool)
    ensures
        r == is_op2(a, b),
{
    (a == '<' && b == '=') || (a == '>' && b == '=') || (a == '!' && b == '=') || (a == '<' && b
        == '>')
}

fn operator_kind(c: char) -> (r: TokenKind)
    ensures
        r == op_kind(c),
{
    if c == '>' || c == '<' || c == '=' || c == '!' {
        TokenKind::RelOp
    } else {
        TokenKind::BinOp
    }
}

fn keyword_text(w: &String) -> (r: bool)
    ensures
        r == is_keyword(w@),
{
    text_is(w, "LET") || text_is(w, "IF") || text_is(w, "ELSEIF") || text_is(w, "ELSE")
        || text_is(w, "THEN") || text_is(w, "PRINT") || text_is(w, "AND") || text_is(w, "OR")
        || text_is(w, "NOT") || text_is(w, "INPUT") || text_is(w, "TRUE") || text_is(w, "FALSE")
        || text_is(w, "FOR") || text_is(w, "TO") || text_is(w, "STEP") || text_is(w, "NEXT")
}

fn builtin_text(w: &String) -> (r: bool)
    ensures
        r == is_builtin(w@),
{
    text_is(w, "ABS") || text_is(w, "ATN") || text_is(w, "COS") || text_is(w, "EXP")
        || text_is(w, "INT") || text_is(w, "LOG") || text_is(w, "RND") || text_is(w, "SIN")
        || text_is(w, "SQR") || text_is(w, "TAN")
}

} // verus!

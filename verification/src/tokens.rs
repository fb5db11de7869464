//! Tokens and the token channel: a FIFO queue the lexer fills and the
//! parser drains, with non-consuming lookahead (`peek`, `peek_n`) on top of
//! plain consumption (`next`, `expect_next`).

use vstd::prelude::*;

use crate::span::Span;
use crate::{ParseError, ParseErrorModel};

verus! {

/// One lexical unit of the CSS-like grammar.
#[derive(Debug)]
pub enum CSSToken {
    Ident(String),
    Comment(String),
    /// `#`-prefixed value: an id selector or a hex colour literal. Kept
    /// separate so `#0f5421` is not lexed as a number.
    HashPrefixedValue(String),
    /// e.g. `42`, `.2`, `10.5`
    Number(String),
    /// e.g. `"SF Pro Display"`, without the quotes
    String(String),
    OpenCurly,
    CloseCurly,
    OpenBracket,
    CloseBracket,
    Colon,
    SemiColon,
    Dot,
    CloseAngle,
    Comma,
    Asterisk,
    Percentage,
    /// End of source: the sentinel every token stream terminates with.
    EOS,
}

/// Mathematical image of a [`CSSToken`]: text payloads become `Seq<char>`.
pub enum TokenKindModel {
    Ident(Seq<char>),
    Comment(Seq<char>),
    HashPrefixedValue(Seq<char>),
    Number(Seq<char>),
    StringLit(Seq<char>),
    OpenCurly,
    CloseCurly,
    OpenBracket,
    CloseBracket,
    Colon,
    SemiColon,
    Dot,
    CloseAngle,
    Comma,
    Asterisk,
    Percentage,
    EOS,
}

impl View for CSSToken {
    type V = TokenKindModel;

    open spec fn view(&self) -> TokenKindModel {
        match self {
            CSSToken::Ident(s) => TokenKindModel::Ident(s@),
            CSSToken::Comment(s) => TokenKindModel::Comment(s@),
            CSSToken::HashPrefixedValue(s) => TokenKindModel::HashPrefixedValue(s@),
            CSSToken::Number(s) => TokenKindModel::Number(s@),
            CSSToken::String(s) => TokenKindModel::StringLit(s@),
            CSSToken::OpenCurly => TokenKindModel::OpenCurly,
            CSSToken::CloseCurly => TokenKindModel::CloseCurly,
            CSSToken::OpenBracket => TokenKindModel::OpenBracket,
            CSSToken::CloseBracket => TokenKindModel::CloseBracket,
            CSSToken::Colon => TokenKindModel::Colon,
            CSSToken::SemiColon => TokenKindModel::SemiColon,
            CSSToken::Dot => TokenKindModel::Dot,
            CSSToken::CloseAngle => TokenKindModel::CloseAngle,
            CSSToken::Comma => TokenKindModel::Comma,
            CSSToken::Asterisk => TokenKindModel::Asterisk,
            CSSToken::Percentage => TokenKindModel::Percentage,
            CSSToken::EOS => TokenKindModel::EOS,
        }
    }
}

/// A token: its kind and the source range it covers.
#[derive(Debug)]
pub struct Token {
    pub kind: CSSToken,
    pub span: Span,
}

/// Mathematical image of a [`Token`].
pub struct TokenModel {
    pub kind: TokenKindModel,
    pub span: Span,
}

impl View for Token {
    type V = TokenModel;

    open spec fn view(&self) -> TokenModel {
        TokenModel { kind: self.kind@, span: self.span }
    }
}

/// The name of a token kind, used in "expected X found Y" messages.
pub open spec fn spec_kind_name(k: TokenKindModel) -> Seq<char> {
    match k {
        TokenKindModel::Ident(_) => "Ident"@,
        TokenKindModel::Comment(_) => "Comment"@,
        TokenKindModel::HashPrefixedValue(_) => "HashPrefixedValue"@,
        TokenKindModel::Number(_) => "Number"@,
        TokenKindModel::StringLit(_) => "String"@,
        TokenKindModel::OpenCurly => "OpenCurly"@,
        TokenKindModel::CloseCurly => "CloseCurly"@,
        TokenKindModel::OpenBracket => "OpenBracket"@,
        TokenKindModel::CloseBracket => "CloseBracket"@,
        TokenKindModel::Colon => "Colon"@,
        TokenKindModel::SemiColon => "SemiColon"@,
        TokenKindModel::Dot => "Dot"@,
        TokenKindModel::CloseAngle => "CloseAngle"@,
        TokenKindModel::Comma => "Comma"@,
        TokenKindModel::Asterisk => "Asterisk"@,
        TokenKindModel::Percentage => "Percentage"@,
        TokenKindModel::EOS => "EOS"@,
    }
}

impl CSSToken {
    /// The kind's name, for diagnostics.
    pub fn kind_name(&self) -> (r: &'static str)
        ensures
            r@ == spec_kind_name(self@),
    {
        match self {
            CSSToken::Ident(_) => "Ident",
            CSSToken::Comment(_) => "Comment",
            CSSToken::HashPrefixedValue(_) => "HashPrefixedValue",
            CSSToken::Number(_) => "Number",
            CSSToken::String(_) => "String",
            CSSToken::OpenCurly => "OpenCurly",
            CSSToken::CloseCurly => "CloseCurly",
            CSSToken::OpenBracket => "OpenBracket",
            CSSToken::CloseBracket => "CloseBracket",
            CSSToken::Colon => "Colon",
            CSSToken::SemiColon => "SemiColon",
            CSSToken::Dot => "Dot",
            CSSToken::CloseAngle => "CloseAngle",
            CSSToken::Comma => "Comma",
            CSSToken::Asterisk => "Asterisk",
            CSSToken::Percentage => "Percentage",
            CSSToken::EOS => "EOS",
        }
    }

    /// Structural equality of tokens (text payloads compared by content).
    pub fn same_token(&self, other: &CSSToken) -> (r: bool)
        ensures
            r == (self@ == other@),
    {
        match (self, other) {
            (CSSToken::Ident(a), CSSToken::Ident(b)) => *a == *b,
            (CSSToken::Comment(a), CSSToken::Comment(b)) => *a == *b,
            (CSSToken::HashPrefixedValue(a), CSSToken::HashPrefixedValue(b)) => *a == *b,
            (CSSToken::Number(a), CSSToken::Number(b)) => *a == *b,
            (CSSToken::String(a), CSSToken::String(b)) => *a == *b,
            (CSSToken::OpenCurly, CSSToken::OpenCurly) => true,
            (CSSToken::CloseCurly, CSSToken::CloseCurly) => true,
            (CSSToken::OpenBracket, CSSToken::OpenBracket) => true,
            (CSSToken::CloseBracket, CSSToken::CloseBracket) => true,
            (CSSToken::Colon, CSSToken::Colon) => true,
            (CSSToken::SemiColon, CSSToken::SemiColon) => true,
            (CSSToken::Dot, CSSToken::Dot) => true,
            (CSSToken::CloseAngle, CSSToken::CloseAngle) => true,
            (CSSToken::Comma, CSSToken::Comma) => true,
            (CSSToken::Asterisk, CSSToken::Asterisk) => true,
            (CSSToken::Percentage, CSSToken::Percentage) => true,
            (CSSToken::EOS, CSSToken::EOS) => true,
            _ => false,
        }
    }
}

/// A well-formed token stream: non-empty, terminated by exactly one
/// end-of-source token, which is the last element.
pub open spec fn wf_stream(toks: Seq<TokenModel>) -> bool {
    &&& toks.len() > 0
    &&& toks.last().kind is EOS
    &&& forall|i: int| 0 <= i < toks.len() - 1 ==> !(#[trigger] toks[i].kind is EOS)
}

/// The FIFO token channel between lexer and parser. The lexer `push`es at
/// the back; the parser consumes from the front, looking ahead with `peek`
/// and `peek_n` without consuming.
pub struct TokenQueue {
    tokens: Vec<Token>,
}

impl TokenQueue {
    /// The tokens not yet consumed, oldest first.
    pub closed spec fn toks(&self) -> Seq<TokenModel> {
        self.tokens@.map_values(|t: Token| t@)
    }

    /// An empty channel.
    pub fn new() -> (r: TokenQueue)
        ensures
            r.toks() == Seq::<TokenModel>::empty(),
    {
        let r = TokenQueue { tokens: Vec::new() };
        proof {
            assert(r.toks() =~= Seq::<TokenModel>::empty());
        }
        r
    }

    /// How many tokens remain.
    pub fn len(&self) -> (r: usize)
        ensures
            r == self.toks().len(),
    {
        self.tokens.len()
    }

    /// Appends a token at the back of the channel.
    pub fn push(&mut self, token: Token)
        ensures
            final(self).toks() == old(self).toks().push(token@),
    {
        self.tokens.push(token);
        proof {
            assert(final(self).toks() =~= old(self).toks().push(token@));
        }
    }

    /// The next token, without consuming it.
    pub fn peek(&self) -> (r: &Token)
        requires
            self.toks().len() > 0,
        ensures
            r@ == self.toks()[0],
    {
        &self.tokens[0]
    }

    /// The `n`th upcoming token (zero-based), without consuming anything.
    pub fn peek_n(&self, n: usize) -> (r: &Token)
        requires
            n < self.toks().len(),
        ensures
            r@ == self.toks()[n as int],
    {
        &self.tokens[n]
    }

    /// Consumes and returns the next token.
    pub fn next(&mut self) -> (r: Token)
        requires
            old(self).toks().len() > 0,
        ensures
            r@ == old(self).toks()[0],
            final(self).toks() == old(self).toks().drop_first(),
    {
        let r = self.tokens.remove(0);
        proof {
            assert(final(self).toks() =~= old(self).toks().drop_first());
        }
        r
    }
}

/// What `expect_next` yields on the stream `toks`: the first token's span
/// when its kind and payload equal `expected`, else an "expected X found Y"
/// error at that token.
pub open spec fn spec_expect_next(toks: Seq<TokenModel>, expected: TokenKindModel) -> Result<
    Span,
    ParseErrorModel,
> {
    if toks.len() == 0 {
        Err(ParseErrorModel { reason: Seq::empty(), position: arbitrary() })
    } else if toks[0].kind == expected {
        Ok(toks[0].span)
    } else {
        Err(
            ParseErrorModel {
                reason: "Expected '"@ + spec_kind_name(expected) + "' found '"@ + spec_kind_name(
                    toks[0].kind,
                ) + "'"@,
                position: toks[0].span,
            },
        )
    }
}

impl TokenQueue {
    /// Consumes the next token; fails with a descriptive error if its kind
    /// does not match `expected`. The token is consumed either way.
    pub fn expect_next(&mut self, expected: CSSToken) -> (r: Result<Span, ParseError>)
        requires
            old(self).toks().len() > 0,
        ensures
            final(self).toks() == old(self).toks().drop_first(),
            match spec_expect_next(old(self).toks(), expected@) {
                Ok(sp) => r is Ok && r->Ok_0 == sp,
                Err(e) => r is Err && r->Err_0@ == e,
            },
    {
        let t = self.next();
        if t.kind.same_token(&expected) {
            Ok(t.span)
        } else {
            let mut reason = String::from_str("Expected '");
            reason.append(expected.kind_name());
            reason.append("' found '");
            reason.append(t.kind.kind_name());
            reason.append("'");
            Err(ParseError { reason, position: t.span })
        }
    }
}


/// A placeholder error for spec branches that a well-formed token stream
/// never reaches (the executable parser proves them dead).
pub open spec fn unreachable_parse_error() -> ParseErrorModel {
    ParseErrorModel {
        reason: Seq::empty(),
        position: Span { start: 0, end: 0, source_id: crate::span::SourceId(0) },
    }
}

} // verus!

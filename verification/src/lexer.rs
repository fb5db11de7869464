//! The lexer: one pass over the source characters through a small state
//! machine, pushing one token per state exit into the token channel and
//! ending with exactly one end-of-source token.

use vstd::prelude::*;

use crate::span::{SourceId, Span};
use crate::tokens::{CSSToken, Token, TokenKindModel, TokenModel, TokenQueue};
use crate::{ParseError, ParseErrorModel};

verus! {

/// The lexer's internal state: which token class the current characters are
/// being accumulated into, if any.
#[derive(Clone, Copy, PartialEq, Eq, Structural, Debug)]
pub enum LexState {
    /// Between tokens.
    Idle,
    InIdent,
    InNumber,
    /// After a `.`: a digit makes it a number (`.2`), anything else makes it
    /// a lone dot token followed by an identifier.
    InDot,
    InString { escaped: bool },
    InHashValue,
    InComment { found_asterisk: bool },
}

pub open spec fn spec_is_alpha(c: char) -> bool {
    ('A' <= c && c <= 'Z') || ('a' <= c && c <= 'z')
}

pub open spec fn spec_is_digit(c: char) -> bool {
    '0' <= c && c <= '9'
}

/// Characters that may continue an identifier (or hash value): letters,
/// digits and `-`.
pub open spec fn spec_is_ident_char(c: char) -> bool {
    spec_is_alpha(c) || spec_is_digit(c) || c == '-'
}

/// The Unicode white-space characters.
pub open spec fn spec_is_whitespace(c: char) -> bool {
    let u = c as u32;
    (0x09 <= u && u <= 0x0D) || u == 0x20 || u == 0x85 || u == 0xA0 || u == 0x1680 || (0x2000 <= u
        && u <= 0x200A) || u == 0x2028 || u == 0x2029 || u == 0x202F || u == 0x205F || u == 0x3000
}

/// The single-character punctuation tokens.
pub open spec fn spec_punct(c: char) -> Option<TokenKindModel> {
    if c == '{' {
        Some(TokenKindModel::OpenCurly)
    } else if c == '}' {
        Some(TokenKindModel::CloseCurly)
    } else if c == '(' {
        Some(TokenKindModel::OpenBracket)
    } else if c == ')' {
        Some(TokenKindModel::CloseBracket)
    } else if c == ':' {
        Some(TokenKindModel::Colon)
    } else if c == ';' {
        Some(TokenKindModel::SemiColon)
    } else if c == ',' {
        Some(TokenKindModel::Comma)
    } else if c == '>' {
        Some(TokenKindModel::CloseAngle)
    } else if c == '.' {
        Some(TokenKindModel::Dot)
    } else if c == '*' {
        Some(TokenKindModel::Asterisk)
    } else if c == '%' {
        Some(TokenKindModel::Percentage)
    } else {
        None
    }
}

/// A span over `a..b`, already biased by the caller's offset.
pub open spec fn spec_span(a: int, b: int, sid: SourceId) -> Span {
    Span { start: a as usize, end: b as usize, source_id: sid }
}

pub open spec fn spec_token(k: TokenKindModel, a: int, b: int, sid: SourceId) -> TokenModel {
    TokenModel { kind: k, span: spec_span(a, b, sid) }
}

/// Ranks states for termination: a flush re-examines the current character
/// from the `Idle` state, which must therefore rank lowest.
pub open spec fn lex_rank(state: LexState) -> int {
    if state is Idle {
        0
    } else {
        1
    }
}

/// Prepends a token to the result of lexing the rest.
pub open spec fn lex_cons(t: TokenModel, rest: Result<Seq<TokenModel>, ParseErrorModel>) -> Result<
    Seq<TokenModel>,
    ParseErrorModel,
> {
    match rest {
        Ok(ts) => Ok(seq![t] + ts),
        Err(e) => Err(e),
    }
}

/// What the lexer emits at end of input, given its final state: the pending
/// token (if any) and the end-of-source token, or the error for a construct
/// left open.
pub open spec fn spec_lex_flush(
    s: Seq<char>,
    off: int,
    sid: SourceId,
    state: LexState,
    start: int,
) -> Result<Seq<TokenModel>, ParseErrorModel> {
    let n = s.len() as int;
    let eos = spec_token(TokenKindModel::EOS, off + n, off + n, sid);
    match state {
        LexState::Idle => Ok(seq![eos]),
        LexState::InIdent => Ok(
            seq![
                spec_token(TokenKindModel::Ident(s.subrange(start, n)), off + start, off + n, sid),
                eos,
            ],
        ),
        LexState::InNumber => Ok(
            seq![
                spec_token(TokenKindModel::Number(s.subrange(start, n)), off + start, off + n, sid),
                eos,
            ],
        ),
        LexState::InHashValue => Ok(
            seq![
                spec_token(
                    TokenKindModel::HashPrefixedValue(s.subrange(start + 1, n)),
                    off + start,
                    off + n,
                    sid,
                ),
                eos,
            ],
        ),
        LexState::InComment { found_asterisk } => Err(
            ParseErrorModel {
                reason: "Could not find end to comment"@,
                position: spec_span(off + start, off + n, sid),
            },
        ),
        LexState::InString { escaped } => Err(
            ParseErrorModel {
                reason: "Could not find end to string"@,
                position: spec_span(off + start, off + n, sid),
            },
        ),
        LexState::InDot => Err(
            ParseErrorModel {
                reason: "Found trailing \".\""@,
                position: spec_span(off + start, off + n, sid),
            },
        ),
    }
}

/// The tokens lexed from position `i` onward, given the machine's state and
/// the start position of the token being accumulated. One token is flushed
/// at each state exit; a flush re-examines the same character from `Idle`.
pub open spec fn spec_lex_from(
    s: Seq<char>,
    off: int,
    sid: SourceId,
    i: int,
    state: LexState,
    start: int,
) -> Result<Seq<TokenModel>, ParseErrorModel>
    decreases s.len() - i, lex_rank(state),
    when 0 <= i
{
    if i >= s.len() {
        spec_lex_flush(s, off, sid, state, start)
    } else {
        let c = s[i];
        match state {
            LexState::InIdent => {
                if spec_is_ident_char(c) {
                    spec_lex_from(s, off, sid, i + 1, state, start)
                } else {
                    lex_cons(
                        spec_token(
                            TokenKindModel::Ident(s.subrange(start, i)),
                            off + start,
                            off + i,
                            sid,
                        ),
                        spec_lex_from(s, off, sid, i, LexState::Idle, i),
                    )
                }
            },
            LexState::InHashValue => {
                if spec_is_ident_char(c) {
                    spec_lex_from(s, off, sid, i + 1, state, start)
                } else {
                    lex_cons(
                        spec_token(
                            TokenKindModel::HashPrefixedValue(s.subrange(start + 1, i)),
                            off + start,
                            off + i,
                            sid,
                        ),
                        spec_lex_from(s, off, sid, i, LexState::Idle, i),
                    )
                }
            },
            LexState::InDot => {
                if spec_is_digit(c) {
                    spec_lex_from(s, off, sid, i + 1, LexState::InNumber, start)
                } else {
                    lex_cons(
                        spec_token(TokenKindModel::Dot, off + start, off + i, sid),
                        spec_lex_from(s, off, sid, i + 1, LexState::InIdent, i),
                    )
                }
            },
            LexState::InNumber => {
                if spec_is_digit(c) || c == '.' {
                    spec_lex_from(s, off, sid, i + 1, state, start)
                } else {
                    lex_cons(
                        spec_token(
                            TokenKindModel::Number(s.subrange(start, i)),
                            off + start,
                            off + i,
                            sid,
                        ),
                        spec_lex_from(s, off, sid, i, LexState::Idle, i),
                    )
                }
            },
            LexState::InString { escaped } => {
                if c == '\\' {
                    spec_lex_from(s, off, sid, i + 1, LexState::InString { escaped: true }, start)
                } else if c == '"' && !escaped {
                    lex_cons(
                        spec_token(
                            TokenKindModel::StringLit(s.subrange(start + 1, i)),
                            off + start,
                            off + i + 1,
                            sid,
                        ),
                        spec_lex_from(s, off, sid, i + 1, LexState::Idle, i),
                    )
                } else {
                    spec_lex_from(s, off, sid, i + 1, LexState::InString { escaped: false }, start)
                }
            },
            LexState::InComment { found_asterisk } => {
                if c == '/' && found_asterisk && i >= start + 3 {
                    lex_cons(
                        spec_token(
                            TokenKindModel::Comment(s.subrange(start + 2, i - 1)),
                            off + start,
                            off + i + 1,
                            sid,
                        ),
                        spec_lex_from(s, off, sid, i + 1, LexState::Idle, i),
                    )
                } else {
                    spec_lex_from(
                        s,
                        off,
                        sid,
                        i + 1,
                        LexState::InComment { found_asterisk: c == '*' },
                        start,
                    )
                }
            },
            LexState::Idle => {
                if spec_is_alpha(c) {
                    spec_lex_from(s, off, sid, i + 1, LexState::InIdent, i)
                } else if c == '/' {
                    spec_lex_from(
                        s,
                        off,
                        sid,
                        i + 1,
                        LexState::InComment { found_asterisk: false },
                        i,
                    )
                } else if c == '.' {
                    spec_lex_from(s, off, sid, i + 1, LexState::InDot, i)
                } else if c == '"' {
                    spec_lex_from(s, off, sid, i + 1, LexState::InString { escaped: false }, i)
                } else if c == '#' {
                    spec_lex_from(s, off, sid, i + 1, LexState::InHashValue, i)
                } else if spec_is_digit(c) {
                    spec_lex_from(s, off, sid, i + 1, LexState::InNumber, i)
                } else if spec_is_whitespace(c) {
                    spec_lex_from(s, off, sid, i + 1, LexState::Idle, start)
                } else {
                    match spec_punct(c) {
                        Some(k) => lex_cons(
                            spec_token(k, off + i, off + i + 1, sid),
                            spec_lex_from(s, off, sid, i + 1, LexState::Idle, i),
                        ),
                        None => Err(
                            ParseErrorModel {
                                reason: "Invalid character"@,
                                position: spec_span(off + i, off + i + 1, sid),
                            },
                        ),
                    }
                }
            },
        }
    }
}

/// The full token sequence (ending in the end-of-source token) lexed from
/// `s`, or the first lexical error.
pub open spec fn spec_lex(s: Seq<char>, off: int, sid: SourceId) -> Result<
    Seq<TokenModel>,
    ParseErrorModel,
> {
    spec_lex_from(s, off, sid, 0, LexState::Idle, 0)
}

fn is_alpha(c: char) -> (r: bool)
    ensures
        r == spec_is_alpha(c),
{
    ('A' <= c && c <= 'Z') || ('a' <= c && c <= 'z')
}

fn is_digit(c: char) -> (r: bool)
    ensures
        r == spec_is_digit(c),
{
    '0' <= c && c <= '9'
}

fn is_ident_char(c: char) -> (r: bool)
    ensures
        r == spec_is_ident_char(c),
{
    is_alpha(c) || is_digit(c) || c == '-'
}

fn is_whitespace(c: char) -> (r: bool)
    ensures
        r == spec_is_whitespace(c),
{
    let u = c as u32;
    (0x09 <= u && u <= 0x0D) || u == 0x20 || u == 0x85 || u == 0xA0 || u == 0x1680 || (0x2000 <= u
        && u <= 0x200A) || u == 0x2028 || u == 0x2029 || u == 0x202F || u == 0x205F || u == 0x3000
}

fn punct_token(c: char) -> (r: Option<CSSToken>)
    ensures
        match spec_punct(c) {
            Some(k) => r is Some && r->0@ == k,
            None => r is None,
        },
{
    match c {
        '{' => Some(CSSToken::OpenCurly),
        '}' => Some(CSSToken::CloseCurly),
        '(' => Some(CSSToken::OpenBracket),
        ')' => Some(CSSToken::CloseBracket),
        ':' => Some(CSSToken::Colon),
        ';' => Some(CSSToken::SemiColon),
        ',' => Some(CSSToken::Comma),
        '>' => Some(CSSToken::CloseAngle),
        '.' => Some(CSSToken::Dot),
        '*' => Some(CSSToken::Asterisk),
        '%' => Some(CSSToken::Percentage),
        _ => None,
    }
}

/// Lexes `source`, pushing every token into `sender`, spans biased by
/// `start_offset` and tagged with `source_id`. On success the channel has
/// gained exactly the token sequence of [`spec_lex`], ending with the
/// end-of-source token; on failure the returned error is the one
/// [`spec_lex`] names.
/// One push step of the lexer against the spec: if the spec at the old
/// machine state emits `t` and continues at the new state, then after
/// pushing `t` the composition invariant holds at the new state.
proof fn lemma_push_compose(
    s: Seq<char>,
    off: int,
    sid: SourceId,
    q0: Seq<TokenModel>,
    pre: Seq<TokenModel>,
    post: Seq<TokenModel>,
    oi: int,
    ostate: LexState,
    ostart: int,
    ni: int,
    nstate: LexState,
    nstart: int,
    t: TokenModel,
)
    requires
        q0.len() <= pre.len(),
        pre.take(q0.len() as int) == q0,
        !(t.kind is EOS),
        forall|j: int| q0.len() <= j < pre.len() ==> !((#[trigger] pre[j]).kind is EOS),
        post == pre.push(t),
        spec_lex_from(s, off, sid, oi, ostate, ostart) == lex_cons(
            t,
            spec_lex_from(s, off, sid, ni, nstate, nstart),
        ),
        match spec_lex_from(s, off, sid, oi, ostate, ostart) {
            Ok(rest) => spec_lex(s, off, sid) is Ok && spec_lex(s, off, sid)->Ok_0 == pre.skip(
                q0.len() as int,
            ) + rest,
            Err(e) => spec_lex(s, off, sid) is Err && spec_lex(s, off, sid)->Err_0 == e,
        },
    ensures
        q0.len() <= post.len(),
        post.take(q0.len() as int) == q0,
        forall|j: int| q0.len() <= j < post.len() ==> !((#[trigger] post[j]).kind is EOS),
        match spec_lex_from(s, off, sid, ni, nstate, nstart) {
            Ok(rest) => spec_lex(s, off, sid) is Ok && spec_lex(s, off, sid)->Ok_0 == post.skip(
                q0.len() as int,
            ) + rest,
            Err(e) => spec_lex(s, off, sid) is Err && spec_lex(s, off, sid)->Err_0 == e,
        },
{
    assert(post.take(q0.len() as int) =~= q0);
    assert(post.skip(q0.len() as int) =~= pre.skip(q0.len() as int) + seq![t]);
    match spec_lex_from(s, off, sid, ni, nstate, nstart) {
        Ok(rest) => {
            assert(pre.skip(q0.len() as int) + (seq![t] + rest) =~= (pre.skip(q0.len() as int)
                + seq![t]) + rest);
        },
        Err(e) => {},
    }
}

/// Lexes `source`, pushing every token into `sender`, spans biased by
/// `start_offset` and tagged with `source_id`. On success the channel has
/// gained exactly the token sequence of [`spec_lex`], ending with the
/// end-of-source token; on failure the returned error is the one
/// [`spec_lex`] names, what the channel already held is preserved, and
/// nothing pushed before the failure is an end-of-source token — a failed
/// lex cannot pass for a complete, truncated stream.
pub fn lex_source(
    source: &str,
    sender: &mut TokenQueue,
    source_id: SourceId,
    start_offset: Option<usize>,
) -> (r: Result<(), ParseError>)
    requires
        (match start_offset {
            Some(o) => o as int,
            None => 0,
        }) + source@.len() <= usize::MAX,
    ensures
        ({
            let off = match start_offset {
                Some(o) => o as int,
                None => 0,
            };
            match spec_lex(source@, off, source_id) {
                Ok(toks) => r is Ok && final(sender).toks() == old(sender).toks() + toks,
                Err(e) => ({
                    let gained = final(sender).toks();
                    let kept = old(sender).toks().len() as int;
                    r is Err && r->Err_0@ == e && kept <= gained.len() && gained.take(kept) == old(
                        sender,
                    ).toks() && (forall|j: int|
                        kept <= j < gained.len() ==> !((#[trigger] gained[j]).kind is EOS))
                }),
            }
        }),
{
    let ghost s = source@;
    let off: usize = match start_offset {
        Some(o) => o,
        None => 0,
    };
    let n = source.unicode_len();
    let mut i: usize = 0;
    let mut state: LexState = LexState::Idle;
    let mut start: usize = 0;
    let ghost q0 = sender.toks();
    proof {
        assert(q0.take(q0.len() as int) =~= q0);
        let full = spec_lex(s, off as int, source_id);
        if full is Ok {
            assert(q0.skip(q0.len() as int) + full->Ok_0 =~= full->Ok_0);
        }
    }
    while i < n
        invariant
            off == (match start_offset {
                Some(o) => o as int,
                None => 0,
            }),
            q0 == old(sender).toks(),
            n == s.len(),
            source@ == s,
            off + n <= usize::MAX,
            i <= n,
            start <= i,
            !(state is Idle) ==> start < i,
            q0.len() <= sender.toks().len(),
            sender.toks().take(q0.len() as int) == q0,
            forall|j: int|
                q0.len() <= j < sender.toks().len() ==> !((#[trigger] sender.toks()[j]).kind
                    is EOS),
            match spec_lex_from(s, off as int, source_id, i as int, state, start as int) {
                Ok(rest) => spec_lex(s, off as int, source_id) is Ok && spec_lex(
                    s,
                    off as int,
                    source_id,
                )->Ok_0 == sender.toks().skip(q0.len() as int) + rest,
                Err(e) => spec_lex(s, off as int, source_id) is Err && spec_lex(
                    s,
                    off as int,
                    source_id,
                )->Err_0 == e,
            },
        decreases n - i, lex_rank(state),
    {
        let c = source.get_char(i);
        let ghost pre = sender.toks();
        let ghost oi = i as int;
        let ghost ostate = state;
        let ghost ostart = start as int;
        match state {
            LexState::InIdent => {
                if is_ident_char(c) {
                    i = i + 1;
                } else {
                    let text = source.substring_char(start, i).to_owned();
                    let tok = Token {
                        kind: CSSToken::Ident(text),
                        span: Span { start: off + start, end: off + i, source_id },
                    };
                    let ghost tm = tok@;
                    sender.push(tok);
                    state = LexState::Idle;
                    start = i;
                    proof {
                        lemma_push_compose(
                            s,
                            off as int,
                            source_id,
                            q0,
                            pre,
                            sender.toks(),
                            oi,
                            ostate,
                            ostart,
                            i as int,
                            state,
                            start as int,
                            tm,
                        );
                    }
                }
            },
            LexState::InHashValue => {
                if is_ident_char(c) {
                    i = i + 1;
                } else {
                    let text = source.substring_char(start + 1, i).to_owned();
                    let tok = Token {
                        kind: CSSToken::HashPrefixedValue(text),
                        span: Span { start: off + start, end: off + i, source_id },
                    };
                    let ghost tm = tok@;
                    sender.push(tok);
                    state = LexState::Idle;
                    start = i;
                    proof {
                        lemma_push_compose(
                            s,
                            off as int,
                            source_id,
                            q0,
                            pre,
                            sender.toks(),
                            oi,
                            ostate,
                            ostart,
                            i as int,
                            state,
                            start as int,
                            tm,
                        );
                    }
                }
            },
            LexState::InDot => {
                if is_digit(c) {
                    state = LexState::InNumber;
                    i = i + 1;
                } else {
                    let tok = Token {
                        kind: CSSToken::Dot,
                        span: Span { start: off + start, end: off + i, source_id },
                    };
                    let ghost tm = tok@;
                    sender.push(tok);
                    state = LexState::InIdent;
                    start = i;
                    i = i + 1;
                    proof {
                        lemma_push_compose(
                            s,
                            off as int,
                            source_id,
                            q0,
                            pre,
                            sender.toks(),
                            oi,
                            ostate,
                            ostart,
                            i as int,
                            state,
                            start as int,
                            tm,
                        );
                    }
                }
            },
            LexState::InNumber => {
                if is_digit(c) || c == '.' {
                    i = i + 1;
                } else {
                    let text = source.substring_char(start, i).to_owned();
                    let tok = Token {
                        kind: CSSToken::Number(text),
                        span: Span { start: off + start, end: off + i, source_id },
                    };
                    let ghost tm = tok@;
                    sender.push(tok);
                    state = LexState::Idle;
                    start = i;
                    proof {
                        lemma_push_compose(
                            s,
                            off as int,
                            source_id,
                            q0,
                            pre,
                            sender.toks(),
                            oi,
                            ostate,
                            ostart,
                            i as int,
                            state,
                            start as int,
                            tm,
                        );
                    }
                }
            },
            LexState::InString { escaped } => {
                if c == '\\' {
                    state = LexState::InString { escaped: true };
                    i = i + 1;
                } else if c == '"' && !escaped {
                    let text = source.substring_char(start + 1, i).to_owned();
                    let tok = Token {
                        kind: CSSToken::String(text),
                        span: Span { start: off + start, end: off + i + 1, source_id },
                    };
                    let ghost tm = tok@;
                    sender.push(tok);
                    state = LexState::Idle;
                    start = i;
                    i = i + 1;
                    proof {
                        lemma_push_compose(
                            s,
                            off as int,
                            source_id,
                            q0,
                            pre,
                            sender.toks(),
                            oi,
                            ostate,
                            ostart,
                            i as int,
                            state,
                            start as int,
                            tm,
                        );
                    }
                } else {
                    state = LexState::InString { escaped: false };
                    i = i + 1;
                }
            },
            LexState::InComment { found_asterisk } => {
                if c == '/' && found_asterisk && i - start >= 3 {
                    let text = source.substring_char(start + 2, i - 1).to_owned();
                    let tok = Token {
                        kind: CSSToken::Comment(text),
                        span: Span { start: off + start, end: off + i + 1, source_id },
                    };
                    let ghost tm = tok@;
                    sender.push(tok);
                    state = LexState::Idle;
                    start = i;
                    i = i + 1;
                    proof {
                        lemma_push_compose(
                            s,
                            off as int,
                            source_id,
                            q0,
                            pre,
                            sender.toks(),
                            oi,
                            ostate,
                            ostart,
                            i as int,
                            state,
                            start as int,
                            tm,
                        );
                    }
                } else {
                    state = LexState::InComment { found_asterisk: c == '*' };
                    i = i + 1;
                }
            },
            LexState::Idle => {
                if is_alpha(c) {
                    state = LexState::InIdent;
                    start = i;
                    i = i + 1;
                } else if c == '/' {
                    state = LexState::InComment { found_asterisk: false };
                    start = i;
                    i = i + 1;
                } else if c == '.' {
                    state = LexState::InDot;
                    start = i;
                    i = i + 1;
                } else if c == '"' {
                    state = LexState::InString { escaped: false };
                    start = i;
                    i = i + 1;
                } else if c == '#' {
                    state = LexState::InHashValue;
                    start = i;
                    i = i + 1;
                } else if is_digit(c) {
                    state = LexState::InNumber;
                    start = i;
                    i = i + 1;
                } else if is_whitespace(c) {
                    i = i + 1;
                } else {
                    match punct_token(c) {
                        Some(kind) => {
                            start = i;
                            let tok = Token {
                                kind,
                                span: Span { start: off + i, end: off + i + 1, source_id },
                            };
                            let ghost tm = tok@;
                            sender.push(tok);
                            i = i + 1;
                            proof {
                                lemma_push_compose(
                                    s,
                                    off as int,
                                    source_id,
                                    q0,
                                    pre,
                                    sender.toks(),
                                    oi,
                                    ostate,
                                    ostart,
                                    i as int,
                                    state,
                                    start as int,
                                    tm,
                                );
                            }
                        },
                        None => {
                            return Err(
                                ParseError {
                                    reason: String::from_str("Invalid character"),
                                    position: Span { start: off + i, end: off + i + 1, source_id },
                                },
                            );
                        },
                    }
                }
            },
        }
    }
    let ghost pre = sender.toks();
    let ghost fstate = state;
    let ghost fstart = start as int;
    match state {
        LexState::Idle => {},
        LexState::InIdent => {
            let text = source.substring_char(start, n).to_owned();
            sender.push(
                Token {
                    kind: CSSToken::Ident(text),
                    span: Span { start: off + start, end: off + n, source_id },
                },
            );
        },
        LexState::InNumber => {
            let text = source.substring_char(start, n).to_owned();
            sender.push(
                Token {
                    kind: CSSToken::Number(text),
                    span: Span { start: off + start, end: off + n, source_id },
                },
            );
        },
        LexState::InHashValue => {
            let text = source.substring_char(start + 1, n).to_owned();
            sender.push(
                Token {
                    kind: CSSToken::HashPrefixedValue(text),
                    span: Span { start: off + start, end: off + n, source_id },
                },
            );
        },
        LexState::InComment { found_asterisk: _ } => {
            return Err(
                ParseError {
                    reason: String::from_str("Could not find end to comment"),
                    position: Span { start: off + start, end: off + n, source_id },
                },
            );
        },
        LexState::InString { escaped: _ } => {
            return Err(
                ParseError {
                    reason: String::from_str("Could not find end to string"),
                    position: Span { start: off + start, end: off + n, source_id },
                },
            );
        },
        LexState::InDot => {
            return Err(
                ParseError {
                    reason: String::from_str("Found trailing \".\""),
                    position: Span { start: off + start, end: off + n, source_id },
                },
            );
        },
    }
    sender.push(
        Token { kind: CSSToken::EOS, span: Span { start: off + n, end: off + n, source_id } },
    );
    proof {
        let full = spec_lex(s, off as int, source_id);
        let flushed = spec_lex_flush(s, off as int, source_id, fstate, fstart);
        assert(full is Ok && full->Ok_0 == pre.skip(q0.len() as int) + flushed->Ok_0);
        assert(sender.toks() =~= q0 + full->Ok_0);
    }
    Ok(())
}


/// Prepending a non-end-of-source token to a well-formed stream keeps it
/// well-formed.
proof fn lemma_wf_cons(t: TokenModel, ts: Seq<TokenModel>)
    requires
        crate::tokens::wf_stream(ts),
        !(t.kind is EOS),
    ensures
        crate::tokens::wf_stream(seq![t] + ts),
{
    let all = seq![t] + ts;
    assert(all.last() == ts.last());
    assert forall|i: int| 0 <= i < all.len() - 1 implies !(#[trigger] all[i].kind is EOS) by {
        if i > 0 {
            assert(all[i] == ts[i - 1]);
        }
    }
}

/// What the lexer emits is a well-formed stream: non-empty, ended by the
/// one end-of-source token.
pub proof fn lemma_lex_wf(
    s: Seq<char>,
    off: int,
    sid: SourceId,
    i: int,
    state: LexState,
    start: int,
)
    requires
        0 <= i,
    ensures
        spec_lex_from(s, off, sid, i, state, start) matches Ok(ts) ==> crate::tokens::wf_stream(
            ts,
        ),
    decreases s.len() - i, lex_rank(state),
{
    if i >= s.len() {
        let r = spec_lex_flush(s, off, sid, state, start);
        if r is Ok {
            assert(crate::tokens::wf_stream(r->Ok_0));
        }
    } else {
        let c = s[i];
        match state {
            LexState::InIdent => {
                if spec_is_ident_char(c) {
                    lemma_lex_wf(s, off, sid, i + 1, state, start);
                } else {
                    lemma_lex_wf(s, off, sid, i, LexState::Idle, i);
                    let rest = spec_lex_from(s, off, sid, i, LexState::Idle, i);
                    if rest is Ok {
                        lemma_wf_cons(
                            spec_token(
                                TokenKindModel::Ident(s.subrange(start, i)),
                                off + start,
                                off + i,
                                sid,
                            ),
                            rest->Ok_0,
                        );
                    }
                }
            },
            LexState::InHashValue => {
                if spec_is_ident_char(c) {
                    lemma_lex_wf(s, off, sid, i + 1, state, start);
                } else {
                    lemma_lex_wf(s, off, sid, i, LexState::Idle, i);
                    let rest = spec_lex_from(s, off, sid, i, LexState::Idle, i);
                    if rest is Ok {
                        lemma_wf_cons(
                            spec_token(
                                TokenKindModel::HashPrefixedValue(s.subrange(start + 1, i)),
                                off + start,
                                off + i,
                                sid,
                            ),
                            rest->Ok_0,
                        );
                    }
                }
            },
            LexState::InDot => {
                if spec_is_digit(c) {
                    lemma_lex_wf(s, off, sid, i + 1, LexState::InNumber, start);
                } else {
                    lemma_lex_wf(s, off, sid, i + 1, LexState::InIdent, i);
                    let rest = spec_lex_from(s, off, sid, i + 1, LexState::InIdent, i);
                    if rest is Ok {
                        lemma_wf_cons(
                            spec_token(TokenKindModel::Dot, off + start, off + i, sid),
                            rest->Ok_0,
                        );
                    }
                }
            },
            LexState::InNumber => {
                if spec_is_digit(c) || c == '.' {
                    lemma_lex_wf(s, off, sid, i + 1, state, start);
                } else {
                    lemma_lex_wf(s, off, sid, i, LexState::Idle, i);
                    let rest = spec_lex_from(s, off, sid, i, LexState::Idle, i);
                    if rest is Ok {
                        lemma_wf_cons(
                            spec_token(
                                TokenKindModel::Number(s.subrange(start, i)),
                                off + start,
                                off + i,
                                sid,
                            ),
                            rest->Ok_0,
                        );
                    }
                }
            },
            LexState::InString { escaped } => {
                if c == '\\' {
                    lemma_lex_wf(s, off, sid, i + 1, LexState::InString { escaped: true }, start);
                } else if c == '"' && !escaped {
                    lemma_lex_wf(s, off, sid, i + 1, LexState::Idle, i);
                    let rest = spec_lex_from(s, off, sid, i + 1, LexState::Idle, i);
                    if rest is Ok {
                        lemma_wf_cons(
                            spec_token(
                                TokenKindModel::StringLit(s.subrange(start + 1, i)),
                                off + start,
                                off + i + 1,
                                sid,
                            ),
                            rest->Ok_0,
                        );
                    }
                } else {
                    lemma_lex_wf(s, off, sid, i + 1, LexState::InString { escaped: false }, start);
                }
            },
            LexState::InComment { found_asterisk } => {
                if c == '/' && found_asterisk && i >= start + 3 {
                    lemma_lex_wf(s, off, sid, i + 1, LexState::Idle, i);
                    let rest = spec_lex_from(s, off, sid, i + 1, LexState::Idle, i);
                    if rest is Ok {
                        lemma_wf_cons(
                            spec_token(
                                TokenKindModel::Comment(s.subrange(start + 2, i - 1)),
                                off + start,
                                off + i + 1,
                                sid,
                            ),
                            rest->Ok_0,
                        );
                    }
                } else {
                    lemma_lex_wf(
                        s,
                        off,
                        sid,
                        i + 1,
                        LexState::InComment { found_asterisk: c == '*' },
                        start,
                    );
                }
            },
            LexState::Idle => {
                if spec_is_alpha(c) {
                    lemma_lex_wf(s, off, sid, i + 1, LexState::InIdent, i);
                } else if c == '/' {
                    lemma_lex_wf(
                        s,
                        off,
                        sid,
                        i + 1,
                        LexState::InComment { found_asterisk: false },
                        i,
                    );
                } else if c == '.' {
                    lemma_lex_wf(s, off, sid, i + 1, LexState::InDot, i);
                } else if c == '"' {
                    lemma_lex_wf(s, off, sid, i + 1, LexState::InString { escaped: false }, i);
                } else if c == '#' {
                    lemma_lex_wf(s, off, sid, i + 1, LexState::InHashValue, i);
                } else if spec_is_digit(c) {
                    lemma_lex_wf(s, off, sid, i + 1, LexState::InNumber, i);
                } else if spec_is_whitespace(c) {
                    lemma_lex_wf(s, off, sid, i + 1, LexState::Idle, start);
                } else {
                    match spec_punct(c) {
                        Some(k) => {
                            lemma_lex_wf(s, off, sid, i + 1, LexState::Idle, i);
                            let rest = spec_lex_from(s, off, sid, i + 1, LexState::Idle, i);
                            if rest is Ok {
                                lemma_wf_cons(spec_token(k, off + i, off + i + 1, sid), rest->Ok_0);
                            }
                        },
                        None => {},
                    }
                }
            },
        }
    }
}

} // verus!

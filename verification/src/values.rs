//! CSS values: keywords, colours, strings, numbers with and without units,
//! percentages and space- or comma-separated lists, with their parser.

use vstd::prelude::*;

use crate::lexer::{lemma_lex_wf, lex_source, spec_lex, LexState};
use crate::render::{
    rb_push, rb_push_str, rb_wf, RenderBuffer, RenderState,
};
use crate::span::{spec_adjacent, SourceId};
use crate::tokens::{
    spec_kind_name, unreachable_parse_error, wf_stream, CSSToken, TokenKindModel, TokenModel,
    TokenQueue,
};
use crate::{ParseError, ParseErrorModel, SettingsModel, ToStringSettings};

verus! {

/// A number kept as its literal text, so rendering is lossless (`.2` stays
/// `.2`, leading zeros survive).
#[derive(Debug, PartialEq, Eq)]
pub struct Number(pub String);

/// One CSS declaration value.
#[derive(Debug, PartialEq, Eq)]
pub enum CSSValue {
    Keyword(String),
    Function(String, Vec<CSSValue>),
    StringLiteral(String),
    Number(Number),
    NumberWithUnit(Number, String),
    Percentage(Number),
    Color(String),
    /// Space-separated values, e.g. `2px solid #00ff00`; order-significant.
    List(Vec<CSSValue>),
    /// Comma-separated values; order-significant.
    CommaSeparatedList(Vec<CSSValue>),
}

/// Mathematical image of a [`CSSValue`].
pub enum ValueModel {
    Keyword(Seq<char>),
    Function(Seq<char>, Seq<ValueModel>),
    StringLiteral(Seq<char>),
    Number(Seq<char>),
    NumberWithUnit(Seq<char>, Seq<char>),
    Percentage(Seq<char>),
    Color(Seq<char>),
    List(Seq<ValueModel>),
    CommaSeparatedList(Seq<ValueModel>),
}

/// The images of a sequence of values.
pub open spec fn view_values(vs: Seq<CSSValue>) -> Seq<ValueModel>
    decreases vs,
{
    if vs.len() == 0 {
        Seq::empty()
    } else {
        seq![vs.first()@] + view_values(vs.drop_first())
    }
}

impl View for CSSValue {
    type V = ValueModel;

    open spec fn view(&self) -> ValueModel
        decreases self,
    {
        match self {
            CSSValue::Keyword(s) => ValueModel::Keyword(s@),
            CSSValue::Function(name, args) => ValueModel::Function(name@, view_values(args@)),
            CSSValue::StringLiteral(s) => ValueModel::StringLiteral(s@),
            CSSValue::Number(n) => ValueModel::Number(n.0@),
            CSSValue::NumberWithUnit(n, u) => ValueModel::NumberWithUnit(n.0@, u@),
            CSSValue::Percentage(n) => ValueModel::Percentage(n.0@),
            CSSValue::Color(s) => ValueModel::Color(s@),
            CSSValue::List(vs) => ValueModel::List(view_values(vs@)),
            CSSValue::CommaSeparatedList(vs) => ValueModel::CommaSeparatedList(view_values(vs@)),
        }
    }
}

/// `view_values` is the element-wise image.
pub proof fn lemma_view_values(vs: Seq<CSSValue>)
    ensures
        view_values(vs).len() == vs.len(),
        forall|i: int| 0 <= i < vs.len() ==> view_values(vs)[i] == #[trigger] vs[i]@,
    decreases vs.len(),
{
    if vs.len() == 0 {
        assert(view_values(vs).len() == 0);
    } else {
        lemma_view_values(vs.drop_first());
        assert(view_values(vs) == seq![vs.first()@] + view_values(vs.drop_first()));
        assert forall|i: int| 0 <= i < vs.len() implies view_values(vs)[i] == #[trigger] vs[i]@ by {
            if i == 0 {
                assert(view_values(vs)[0] == vs.first()@);
            } else {
                assert(view_values(vs)[i] == view_values(vs.drop_first())[i - 1]);
                assert(vs.drop_first()[i - 1] == vs[i]);
            }
        }
    }
}

/// Appending a value appends its image.
pub proof fn lemma_view_values_push(vs: Seq<CSSValue>, v: CSSValue)
    ensures
        view_values(vs.push(v)) == view_values(vs).push(v@),
    decreases vs.len(),
{
    lemma_view_values(vs.push(v));
    lemma_view_values(vs);
    assert forall|i: int| 0 <= i < vs.len() + 1 implies view_values(vs.push(v))[i] == view_values(
        vs,
    ).push(v@)[i] by {
        assert(view_values(vs.push(v))[i] == vs.push(v)[i]@);
        if i < vs.len() {
            assert(vs.push(v)[i] == vs[i]);
            assert(view_values(vs)[i] == vs[i]@);
        } else {
            assert(vs.push(v)[i] == v);
        }
    }
    assert(view_values(vs.push(v)) =~= view_values(vs).push(v@));
}

/// Whether the value being parsed has reached its end: a `;`, a `}` or the
/// end of source follows.
pub open spec fn spec_value_has_ended(toks: Seq<TokenModel>) -> bool {
    toks.len() == 0 || toks[0].kind is EOS || toks[0].kind is SemiColon
        || toks[0].kind is CloseCurly
}

/// Parses one single value: a keyword, a colour, a string literal, or a
/// number — which, when the next token is lexically adjacent, absorbs a `%`
/// into a percentage or an identifier into a unit. A `(` adjacent to an
/// identifier announces a function value, which this grammar does not
/// support.
pub open spec fn spec_parse_single_value(toks: Seq<TokenModel>) -> Result<
    (ValueModel, Seq<TokenModel>),
    ParseErrorModel,
> {
    if toks.len() == 0 {
        Err(unreachable_parse_error())
    } else {
        let t = toks[0];
        let rest = toks.drop_first();
        match t.kind {
            TokenKindModel::Ident(name) => {
                if rest.len() == 0 {
                    Err(unreachable_parse_error())
                } else if rest[0].kind is OpenBracket && spec_adjacent(t.span, rest[0].span) {
                    Err(
                        ParseErrorModel {
                            reason: "Function values are not supported"@,
                            position: rest[0].span,
                        },
                    )
                } else {
                    Ok((ValueModel::Keyword(name), rest))
                }
            },
            TokenKindModel::HashPrefixedValue(c) => Ok((ValueModel::Color(c), rest)),
            TokenKindModel::Number(num) => {
                if rest.len() == 0 {
                    Err(unreachable_parse_error())
                } else if spec_adjacent(t.span, rest[0].span) && !(rest[0].kind is EOS) && !(
                rest[0].kind is SemiColon) {
                    match rest[0].kind {
                        TokenKindModel::Percentage => Ok(
                            (ValueModel::Percentage(num), rest.drop_first()),
                        ),
                        TokenKindModel::Ident(unit) => Ok(
                            (ValueModel::NumberWithUnit(num, unit), rest.drop_first()),
                        ),
                        _ => Ok((ValueModel::Number(num), rest)),
                    }
                } else {
                    Ok((ValueModel::Number(num), rest))
                }
            },
            TokenKindModel::StringLit(sv) => Ok((ValueModel::StringLiteral(sv), rest)),
            _ => Err(
                ParseErrorModel {
                    reason: "Expected value, found "@ + spec_kind_name(t.kind),
                    position: t.span,
                },
            ),
        }
    }
}

/// Accumulates further single values into a space-separated list until the
/// value ends.
pub open spec fn spec_value_list(toks: Seq<TokenModel>, acc: Seq<ValueModel>) -> Result<
    (ValueModel, Seq<TokenModel>),
    ParseErrorModel,
>
    decreases toks.len(),
{
    if spec_value_has_ended(toks) {
        Ok((ValueModel::List(acc), toks))
    } else {
        match spec_parse_single_value(toks) {
            Err(e) => Err(e),
            Ok((v, rest)) => if rest.len() < toks.len() {
                spec_value_list(rest, acc.push(v))
            } else {
                Err(unreachable_parse_error())
            },
        }
    }
}

/// Parses one declaration value: a single value, or — when more follows
/// before `;`, `}` or the end of source — a space-separated list of them.
pub open spec fn spec_parse_value(toks: Seq<TokenModel>) -> Result<
    (ValueModel, Seq<TokenModel>),
    ParseErrorModel,
> {
    match spec_parse_single_value(toks) {
        Err(e) => Err(e),
        Ok((v, rest)) => if spec_value_has_ended(rest) {
            Ok((v, rest))
        } else if rest.len() < toks.len() {
            spec_value_list(rest, seq![v])
        } else {
            Err(unreachable_parse_error())
        },
    }
}

impl CSSValue {
    /// Consumes one single value from the channel; see
    /// [`spec_parse_single_value`] for exactly what is returned on which
    /// streams.
    pub fn single_value_from_reader(reader: &mut TokenQueue) -> (r: Result<CSSValue, ParseError>)
        requires
            wf_stream(old(reader).toks()),
        ensures
            match spec_parse_single_value(old(reader).toks()) {
                Ok((v, rest)) => r is Ok && r->Ok_0@ == v && final(reader).toks() == rest
                    && wf_stream(rest) && rest.len() < old(reader).toks().len(),
                Err(e) => r is Err && r->Err_0@ == e,
            },
    {
        let t = reader.next();
        match t.kind {
            CSSToken::Ident(name) => {
                let p = reader.peek();
                let bracket = matches!(p.kind, CSSToken::OpenBracket);
                if bracket && t.span.is_adjacent_to(&p.span) {
                    Err(
                        ParseError {
                            reason: String::from_str("Function values are not supported"),
                            position: p.span,
                        },
                    )
                } else {
                    Ok(CSSValue::Keyword(name))
                }
            },
            CSSToken::HashPrefixedValue(c) => Ok(CSSValue::Color(c)),
            CSSToken::Number(num) => {
                let p = reader.peek();
                let excluded = matches!(p.kind, CSSToken::EOS | CSSToken::SemiColon);
                if t.span.is_adjacent_to(&p.span) && !excluded {
                    if matches!(p.kind, CSSToken::Percentage) {
                        let _ = reader.next();
                        Ok(CSSValue::Percentage(Number(num)))
                    } else if matches!(p.kind, CSSToken::Ident(_)) {
                        let u = reader.next();
                        match u.kind {
                            CSSToken::Ident(unit) => Ok(
                                CSSValue::NumberWithUnit(Number(num), unit),
                            ),
                            _ => Err(
                                ParseError {
                                    reason: String::from_str("Expected value, found "),
                                    position: u.span,
                                },
                            ),
                        }
                    } else {
                        Ok(CSSValue::Number(Number(num)))
                    }
                } else {
                    Ok(CSSValue::Number(Number(num)))
                }
            },
            CSSToken::String(sv) => Ok(CSSValue::StringLiteral(sv)),
            _ => {
                let mut reason = String::from_str("Expected value, found ");
                reason.append(t.kind.kind_name());
                Err(ParseError { reason, position: t.span })
            },
        }
    }

    /// True when the upcoming token closes the value being parsed.
    fn value_has_ended(reader: &TokenQueue) -> (r: bool)
        requires
            reader.toks().len() > 0,
        ensures
            r == spec_value_has_ended(reader.toks()),
    {
        let p = reader.peek();
        matches!(p.kind, CSSToken::EOS | CSSToken::SemiColon | CSSToken::CloseCurly)
    }

    /// Consumes one declaration value from the channel; see
    /// [`spec_parse_value`] for exactly what is returned on which streams.
    pub fn from_reader(reader: &mut TokenQueue) -> (r: Result<CSSValue, ParseError>)
        requires
            wf_stream(old(reader).toks()),
        ensures
            match spec_parse_value(old(reader).toks()) {
                Ok((v, rest)) => r is Ok && r->Ok_0@ == v && final(reader).toks() == rest
                    && wf_stream(rest) && rest.len() < old(reader).toks().len(),
                Err(e) => r is Err && r->Err_0@ == e,
            },
    {
        let ghost t0 = old(reader).toks();
        let first = match Self::single_value_from_reader(reader) {
            Ok(v) => v,
            Err(e) => {
                return Err(e);
            },
        };
        if Self::value_has_ended(reader) {
            return Ok(first);
        }
        let mut values: Vec<CSSValue> = Vec::new();
        values.push(first);
        proof {
            lemma_view_values(values@);
            assert(view_values(values@) =~= seq![values@[0]@]);
        }
        while !Self::value_has_ended(reader)
            invariant
                t0 == old(reader).toks(),
                wf_stream(reader.toks()),
                reader.toks().len() < t0.len(),
                spec_parse_value(t0) == spec_value_list(reader.toks(), view_values(values@)),
            decreases reader.toks().len(),
        {
            let v = match Self::single_value_from_reader(reader) {
                Ok(v) => v,
                Err(e) => {
                    return Err(e);
                },
            };
            proof {
                lemma_view_values_push(values@, v);
            }
            values.push(v);
        }
        Ok(CSSValue::List(values))
    }
}


/// What parsing a whole source text as one value yields: the lexed stream,
/// one value, and the end of source.
pub open spec fn spec_value_from_string(s: Seq<char>, sid: SourceId, off: int) -> Result<
    ValueModel,
    ParseErrorModel,
> {
    match spec_lex(s, off, sid) {
        Err(e) => Err(e),
        Ok(toks) => match spec_parse_value(toks) {
            Err(e) => Err(e),
            Ok((v, rest)) => match crate::tokens::spec_expect_next(rest, TokenKindModel::EOS) {
                Err(e) => Err(e),
                Ok(_) => Ok(v),
            },
        },
    }
}

impl CSSValue {
    /// Parses one value from source text, expecting nothing but the end of
    /// source after it; spans are biased by `offset`. Returns exactly what
    /// [`spec_value_from_string`] names.
    pub fn from_string(string: String, source_id: SourceId, offset: Option<usize>) -> (r: Result<
        CSSValue,
        ParseError,
    >)
        requires
            (match offset {
                Some(o) => o as int,
                None => 0,
            }) + string@.len() <= usize::MAX,
        ensures
            match spec_value_from_string(
                string@,
                source_id,
                match offset {
                    Some(o) => o as int,
                    None => 0,
                },
            ) {
                Ok(v) => r is Ok && r->Ok_0@ == v,
                Err(e) => r is Err && r->Err_0@ == e,
            },
    {
        let ghost off = match offset {
            Some(o) => o as int,
            None => 0,
        };
        let mut reader = TokenQueue::new();
        match lex_source(string.as_str(), &mut reader, source_id, offset) {
            Ok(_) => {},
            Err(e) => {
                return Err(e);
            },
        }
        proof {
            lemma_lex_wf(string@, off, source_id, 0, LexState::Idle, 0);
            assert(Seq::<TokenModel>::empty() + spec_lex(string@, off, source_id)->Ok_0
                =~= spec_lex(string@, off, source_id)->Ok_0);
        }
        let value = match Self::from_reader(&mut reader) {
            Ok(v) => v,
            Err(e) => {
                return Err(e);
            },
        };
        match reader.expect_next(CSSToken::EOS) {
            Ok(_) => {},
            Err(e) => {
                return Err(e);
            },
        }
        Ok(value)
    }
}

/// Rendering one value into the buffer: keywords, numbers and their
/// decorations verbatim; lists joined by single spaces or by commas.
pub open spec fn spec_render_value(
    v: ValueModel,
    st: RenderState,
    settings: SettingsModel,
) -> RenderState
    decreases v, 0int,
{
    match v {
        ValueModel::Keyword(k) => rb_push_str(st, k),
        ValueModel::Color(c) => rb_push_str(rb_push(st, '#'), c),
        ValueModel::StringLiteral(s) => rb_push(rb_push_str(rb_push(st, '"'), s), '"'),
        ValueModel::Percentage(n) => rb_push(rb_push_str(st, n), '%'),
        ValueModel::Number(n) => rb_push_str(st, n),
        ValueModel::NumberWithUnit(n, u) => rb_push_str(rb_push_str(st, n), u),
        ValueModel::List(vs) => spec_render_values_spaced(vs, 0, st, settings),
        ValueModel::CommaSeparatedList(vs) => spec_render_values_comma(vs, 0, st, settings),
        ValueModel::Function(name, args) => rb_push(
            spec_render_values_comma(args, 0, rb_push(rb_push_str(st, name), '('), settings),
            ')',
        ),
    }
}

/// The values of a space-separated list from index `i` on, one space
/// between neighbours. The space carries structure — without it adjacent
/// items would re-lex as one token — so minifying keeps it.
pub open spec fn spec_render_values_spaced(
    vs: Seq<ValueModel>,
    i: int,
    st: RenderState,
    settings: SettingsModel,
) -> RenderState
    decreases vs, vs.len() - i,
{
    if i < 0 || i >= vs.len() {
        st
    } else {
        let st1 = spec_render_value(vs[i], st, settings);
        let st2 = if i + 1 < vs.len() {
            rb_push(st1, ' ')
        } else {
            st1
        };
        spec_render_values_spaced(vs, i + 1, st2, settings)
    }
}

/// The values of a comma-separated list from index `i` on, a comma (and,
/// outside minify mode, a space) between neighbours.
pub open spec fn spec_render_values_comma(
    vs: Seq<ValueModel>,
    i: int,
    st: RenderState,
    settings: SettingsModel,
) -> RenderState
    decreases vs, vs.len() - i,
{
    if i < 0 || i >= vs.len() {
        st
    } else {
        let st1 = spec_render_value(vs[i], st, settings);
        let st2 = if i + 1 < vs.len() {
            if settings.minify {
                rb_push(st1, ',')
            } else {
                rb_push(rb_push(st1, ','), ' ')
            }
        } else {
            st1
        };
        spec_render_values_comma(vs, i + 1, st2, settings)
    }
}

fn render_values_spaced(
    vs: &Vec<CSSValue>,
    buf: &mut RenderBuffer,
    settings: &ToStringSettings,
    depth: u8,
)
    requires
        rb_wf(old(buf)@),
    ensures
        final(buf)@ == spec_render_values_spaced(view_values(vs@), 0, old(buf)@, settings@),
        rb_wf(final(buf)@),
    decreases vs@, usize::MAX as int,
{
    let ghost vsv = view_values(vs@);
    let n = vs.len();
    proof {
        lemma_view_values(vs@);
    }
    let mut j: usize = 0;
    while j < n
        invariant
            n == vs@.len(),
            j <= n,
            vsv == view_values(vs@),
            vsv.len() == n,
            forall|k: int| 0 <= k < n ==> vsv[k] == #[trigger] vs@[k]@,
            rb_wf(buf@),
            spec_render_values_spaced(vsv, 0, old(buf)@, settings@) == spec_render_values_spaced(
                vsv,
                j as int,
                buf@,
                settings@,
            ),
        decreases n - j,
    {
        vs[j].to_string_from_buffer(buf, settings, depth);
        if j + 1 < n {
            buf.push(' ');
        }
        j = j + 1;
    }
}

fn render_values_comma(
    vs: &Vec<CSSValue>,
    buf: &mut RenderBuffer,
    settings: &ToStringSettings,
    depth: u8,
)
    requires
        rb_wf(old(buf)@),
    ensures
        final(buf)@ == spec_render_values_comma(view_values(vs@), 0, old(buf)@, settings@),
        rb_wf(final(buf)@),
    decreases vs@, usize::MAX as int,
{
    let ghost vsv = view_values(vs@);
    let n = vs.len();
    proof {
        lemma_view_values(vs@);
    }
    let mut j: usize = 0;
    while j < n
        invariant
            n == vs@.len(),
            j <= n,
            vsv == view_values(vs@),
            vsv.len() == n,
            forall|k: int| 0 <= k < n ==> vsv[k] == #[trigger] vs@[k]@,
            rb_wf(buf@),
            spec_render_values_comma(vsv, 0, old(buf)@, settings@) == spec_render_values_comma(
                vsv,
                j as int,
                buf@,
                settings@,
            ),
        decreases n - j,
    {
        vs[j].to_string_from_buffer(buf, settings, depth);
        if j + 1 < n {
            buf.push(',');
            if !settings.minify {
                buf.push(' ');
            }
        }
        j = j + 1;
    }
}

impl CSSValue {
    /// Renders this value into the buffer; see [`spec_render_value`] for
    /// exactly what is appended.
    pub fn to_string_from_buffer(
        &self,
        buf: &mut RenderBuffer,
        settings: &ToStringSettings,
        depth: u8,
    )
        requires
            rb_wf(old(buf)@),
        ensures
            final(buf)@ == spec_render_value(self@, old(buf)@, settings@),
            rb_wf(final(buf)@),
        decreases *self, 0int,
    {
        match self {
            CSSValue::Keyword(k) => {
                buf.push_str(k.as_str());
            },
            CSSValue::Color(c) => {
                buf.push('#');
                buf.push_str(c.as_str());
            },
            CSSValue::StringLiteral(s) => {
                buf.push('"');
                buf.push_str(s.as_str());
                buf.push('"');
            },
            CSSValue::Percentage(n) => {
                buf.push_str(n.0.as_str());
                buf.push('%');
            },
            CSSValue::Number(n) => {
                buf.push_str(n.0.as_str());
            },
            CSSValue::NumberWithUnit(n, u) => {
                buf.push_str(n.0.as_str());
                buf.push_str(u.as_str());
            },
            CSSValue::List(vs) => {
                render_values_spaced(vs, buf, settings, depth);
            },
            CSSValue::CommaSeparatedList(vs) => {
                render_values_comma(vs, buf, settings, depth);
            },
            CSSValue::Function(name, args) => {
                buf.push_str(name.as_str());
                buf.push('(');
                render_values_comma(args, buf, settings, depth);
                buf.push(')');
            },
        }
    }
}

} // verus!

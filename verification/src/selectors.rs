//! CSS selectors: an optional tag name (`*` for universal), an optional id,
//! class names, and at most one of a descendant (space) or child (`>`)
//! sub-selector — a linear chain — with their parser and the composition
//! used by the nesting transform.

use vstd::prelude::*;

use crate::lexer::{lemma_lex_wf, lex_source, spec_lex, LexState};
use crate::render::{rb_add_mapping, rb_push, rb_push_str, rb_wf, RenderBuffer, RenderState};
use crate::span::{spec_adjacent, spec_union, SourceId, Span};
use crate::tokens::{
    spec_kind_name, unreachable_parse_error, wf_stream, CSSToken, TokenKindModel, TokenModel,
    TokenQueue,
};
use crate::{ParseError, ParseErrorModel, SettingsModel, ToStringSettings};

verus! {

/// A [CSS selector](https://developer.mozilla.org/en-US/docs/Web/CSS/CSS_Selectors):
/// one compound selector plus at most one combinator continuing the chain.
#[derive(Debug, PartialEq, Eq)]
pub struct Selector {
    /// Tag name; `*` for the universal selector.
    pub tag_name: Option<String>,
    /// `#...` id.
    pub identifier: Option<String>,
    /// `.x.y.z` class names, in source order.
    pub class_names: Option<Vec<String>>,
    /// `div h1`: anywhere under.
    pub descendant: Option<Box<Selector>>,
    /// `div > h1`: direct child.
    pub child: Option<Box<Selector>>,
    /// Where the compound selector was parsed from.
    pub position: Option<Span>,
}

/// Mathematical image of a [`Selector`].
pub struct SelectorModel {
    pub tag_name: Option<Seq<char>>,
    pub identifier: Option<Seq<char>>,
    pub class_names: Option<Seq<Seq<char>>>,
    pub descendant: Option<Box<SelectorModel>>,
    pub child: Option<Box<SelectorModel>>,
    pub position: Option<Span>,
}

impl View for Selector {
    type V = SelectorModel;

    open spec fn view(&self) -> SelectorModel
        decreases self,
    {
        SelectorModel {
            tag_name: match self.tag_name {
                Some(s) => Some(s@),
                None => None,
            },
            identifier: match self.identifier {
                Some(s) => Some(s@),
                None => None,
            },
            class_names: match self.class_names {
                Some(v) => Some(v@.map_values(|s: String| s@)),
                None => None,
            },
            descendant: match self.descendant {
                Some(b) => Some(Box::new((*b)@)),
                None => None,
            },
            child: match self.child {
                Some(b) => Some(Box::new((*b)@)),
                None => None,
            },
            position: self.position,
        }
    }
}

/// The selector with nothing in it, as parsing starts from it.
pub open spec fn spec_empty_selector() -> SelectorModel {
    SelectorModel {
        tag_name: None,
        identifier: None,
        class_names: None,
        descendant: None,
        child: None,
        position: None,
    }
}

/// Adjacency of the compound selector parsed so far to the next token:
/// false when nothing was parsed yet.
pub open spec fn spec_adjacent_opt(p: Option<Span>, s: Span) -> bool {
    match p {
        Some(x) => spec_adjacent(x, s),
        None => false,
    }
}

/// Whether the selector ends after the fragment just parsed: a `{` or the
/// end of source follows.
pub open spec fn spec_frag_done(rest: Seq<TokenModel>) -> bool {
    rest.len() == 0 || rest[0].kind is OpenCurly || rest[0].kind is EOS
}

/// Consumes one simple-selector fragment into `acc`: a tag name or `*`
/// (error when one was already given), `.class`, `#id` (error when one was
/// already given), or `>` followed by the child selector (which terminates
/// the chain). Returns the grown selector, the remaining stream, and
/// whether the selector is finished.
pub open spec fn spec_sel_fragment(toks: Seq<TokenModel>, acc: SelectorModel) -> Result<
    (SelectorModel, Seq<TokenModel>, bool),
    ParseErrorModel,
>
    decreases toks.len(), 0int,
{
    if toks.len() == 0 {
        Err(unreachable_parse_error())
    } else {
        let t = toks[0];
        let rest = toks.drop_first();
        match t.kind {
            TokenKindModel::Ident(name) => {
                if acc.tag_name is Some {
                    Err(ParseErrorModel { reason: "Tag name specified twice"@, position: t.span })
                } else {
                    Ok(
                        (
                            SelectorModel { tag_name: Some(name), position: Some(t.span), ..acc },
                            rest,
                            spec_frag_done(rest),
                        ),
                    )
                }
            },
            TokenKindModel::Asterisk => {
                if acc.tag_name is Some {
                    Err(ParseErrorModel { reason: "Tag name specified twice"@, position: t.span })
                } else {
                    Ok(
                        (
                            SelectorModel { tag_name: Some("*"@), position: Some(t.span), ..acc },
                            rest,
                            spec_frag_done(rest),
                        ),
                    )
                }
            },
            TokenKindModel::Dot => {
                if rest.len() == 0 {
                    Err(unreachable_parse_error())
                } else {
                    let t2 = rest[0];
                    match t2.kind {
                        TokenKindModel::Ident(cls) => {
                            let rest2 = rest.drop_first();
                            let classes = match acc.class_names {
                                Some(cs) => cs.push(cls),
                                None => seq![cls],
                            };
                            let pos = match acc.position {
                                Some(p) => spec_union(p, t2.span),
                                None => spec_union(t.span, t2.span),
                            };
                            Ok(
                                (
                                    SelectorModel {
                                        class_names: Some(classes),
                                        position: Some(pos),
                                        ..acc
                                    },
                                    rest2,
                                    spec_frag_done(rest2),
                                ),
                            )
                        },
                        _ => Err(
                            ParseErrorModel {
                                reason: "Expected ident found '"@ + spec_kind_name(t2.kind) + "'"@,
                                position: t2.span,
                            },
                        ),
                    }
                }
            },
            TokenKindModel::HashPrefixedValue(id) => {
                if acc.identifier is Some {
                    Err(
                        ParseErrorModel {
                            reason: "Cannot specify to id selectors"@,
                            position: t.span,
                        },
                    )
                } else {
                    let pos = match acc.position {
                        Some(p) => spec_union(p, t.span),
                        None => t.span,
                    };
                    Ok(
                        (
                            SelectorModel { identifier: Some(id), position: Some(pos), ..acc },
                            rest,
                            spec_frag_done(rest),
                        ),
                    )
                }
            },
            TokenKindModel::CloseAngle => {
                match spec_parse_selector(rest) {
                    Err(e) => Err(e),
                    Ok((child, rest2)) => match acc.position {
                        None => Err(
                            ParseErrorModel {
                                reason: "Expected selector start, found '>'"@,
                                position: t.span,
                            },
                        ),
                        Some(p) => Ok(
                            (
                                SelectorModel {
                                    child: Some(Box::new(child)),
                                    position: Some(spec_union(p, t.span)),
                                    ..acc
                                },
                                rest2,
                                true,
                            ),
                        ),
                    },
                }
            },
            _ => Err(
                ParseErrorModel {
                    reason: "Expected valid selector found '"@ + spec_kind_name(t.kind) + "'"@,
                    position: t.span,
                },
            ),
        }
    }
}

/// Parses one selector: an immediate `,` yields the empty selector without
/// consuming anything; otherwise fragments accumulate until the selector is
/// finished.
pub open spec fn spec_parse_selector(toks: Seq<TokenModel>) -> Result<
    (SelectorModel, Seq<TokenModel>),
    ParseErrorModel,
>
    decreases toks.len(), 1int,
{
    if toks.len() == 0 {
        Err(unreachable_parse_error())
    } else if toks[0].kind is Comma {
        Ok((spec_empty_selector(), toks))
    } else {
        match spec_sel_fragment(toks, spec_empty_selector()) {
            Err(e) => Err(e),
            Ok((acc, rest, done)) => if done {
                Ok((acc, rest))
            } else if rest.len() < toks.len() {
                spec_sel_loop(rest, acc)
            } else {
                Err(unreachable_parse_error())
            },
        }
    }
}

/// Continues a selector after its first fragment: a `,` ends it; a token
/// neither adjacent to the compound parsed so far nor a `>` starts a
/// descendant selector; anything else is a further fragment.
pub open spec fn spec_sel_loop(toks: Seq<TokenModel>, acc: SelectorModel) -> Result<
    (SelectorModel, Seq<TokenModel>),
    ParseErrorModel,
>
    decreases toks.len(), 2int,
{
    if toks.len() == 0 {
        Err(unreachable_parse_error())
    } else if toks[0].kind is Comma {
        Ok((acc, toks))
    } else if !(toks[0].kind is CloseAngle) && !spec_adjacent_opt(acc.position, toks[0].span) {
        match spec_parse_selector(toks) {
            Err(e) => Err(e),
            Ok(
                (d, rest),
            ) => Ok((SelectorModel { descendant: Some(Box::new(d)), ..acc }, rest)),
        }
    } else {
        match spec_sel_fragment(toks, acc) {
            Err(e) => Err(e),
            Ok((acc2, rest, done)) => if done {
                Ok((acc2, rest))
            } else if rest.len() < toks.len() {
                spec_sel_loop(rest, acc2)
            } else {
                Err(unreachable_parse_error())
            },
        }
    }
}

impl Selector {
    /// True when the upcoming token finishes the selector.
    fn frag_done(reader: &TokenQueue) -> (r: bool)
        requires
            reader.toks().len() > 0,
        ensures
            r == spec_frag_done(reader.toks()),
    {
        let p = reader.peek();
        matches!(p.kind, CSSToken::OpenCurly | CSSToken::EOS)
    }

    /// Consumes one simple-selector fragment; see [`spec_sel_fragment`].
    fn fragment(reader: &mut TokenQueue, sel: Selector) -> (r: Result<(Selector, bool), ParseError>)
        requires
            wf_stream(old(reader).toks()),
        ensures
            match spec_sel_fragment(old(reader).toks(), sel@) {
                Ok((acc2, rest, done)) => r is Ok && r->Ok_0.0@ == acc2 && r->Ok_0.1 == done
                    && final(reader).toks() == rest && wf_stream(rest) && rest.len() < old(
                    reader,
                ).toks().len() && acc2.position is Some,
                Err(e) => r is Err && r->Err_0@ == e,
            },
        decreases old(reader).toks().len(), 0int,
    {
        let t = reader.next();
        match t.kind {
            CSSToken::Ident(name) => {
                if sel.tag_name.is_some() {
                    Err(
                        ParseError {
                            reason: String::from_str("Tag name specified twice"),
                            position: t.span,
                        },
                    )
                } else {
                    let done = Self::frag_done(reader);
                    Ok((Selector { tag_name: Some(name), position: Some(t.span), ..sel }, done))
                }
            },
            CSSToken::Asterisk => {
                if sel.tag_name.is_some() {
                    Err(
                        ParseError {
                            reason: String::from_str("Tag name specified twice"),
                            position: t.span,
                        },
                    )
                } else {
                    let done = Self::frag_done(reader);
                    Ok(
                        (
                            Selector {
                                tag_name: Some(String::from_str("*")),
                                position: Some(t.span),
                                ..sel
                            },
                            done,
                        ),
                    )
                }
            },
            CSSToken::Dot => {
                let t2 = reader.next();
                match t2.kind {
                    CSSToken::Ident(cls) => {
                        let classes = match sel.class_names {
                            Some(mut cs) => {
                                let ghost oldcs = cs@;
                                cs.push(cls);
                                proof {
                                    assert(cs@.map_values(|s: String| s@) =~= oldcs.map_values(
                                        |s: String| s@,
                                    ).push(cs@.last()@));
                                }
                                cs
                            },
                            None => {
                                let mut cs: Vec<String> = Vec::new();
                                cs.push(cls);
                                proof {
                                    assert(cs@.map_values(|s: String| s@) =~= seq![cs@[0]@]);
                                }
                                cs
                            },
                        };
                        let pos = match sel.position {
                            Some(p) => p.union(&t2.span),
                            None => t.span.union(&t2.span),
                        };
                        let sel2 = Selector {
                            class_names: Some(classes),
                            position: Some(pos),
                            ..sel
                        };
                        let done = Self::frag_done(reader);
                        Ok((sel2, done))
                    },
                    _ => {
                        let mut reason = String::from_str("Expected ident found '");
                        reason.append(t2.kind.kind_name());
                        reason.append("'");
                        Err(ParseError { reason, position: t2.span })
                    },
                }
            },
            CSSToken::HashPrefixedValue(id) => {
                if sel.identifier.is_some() {
                    Err(
                        ParseError {
                            reason: String::from_str("Cannot specify to id selectors"),
                            position: t.span,
                        },
                    )
                } else {
                    let pos = match sel.position {
                        Some(p) => p.union(&t.span),
                        None => t.span,
                    };
                    let done = Self::frag_done(reader);
                    Ok((Selector { identifier: Some(id), position: Some(pos), ..sel }, done))
                }
            },
            CSSToken::CloseAngle => {
                let child = match Self::from_reader(reader) {
                    Ok(c) => c,
                    Err(e) => {
                        return Err(e);
                    },
                };
                match sel.position {
                    None => Err(
                        ParseError {
                            reason: String::from_str("Expected selector start, found '>'"),
                            position: t.span,
                        },
                    ),
                    Some(p) => Ok(
                        (
                            Selector {
                                child: Some(Box::new(child)),
                                position: Some(p.union(&t.span)),
                                ..sel
                            },
                            true,
                        ),
                    ),
                }
            },
            _ => {
                let mut reason = String::from_str("Expected valid selector found '");
                reason.append(t.kind.kind_name());
                reason.append("'");
                Err(ParseError { reason, position: t.span })
            },
        }
    }

    /// Consumes one selector from the channel; see [`spec_parse_selector`]
    /// for exactly what is returned on which streams.
    pub fn from_reader(reader: &mut TokenQueue) -> (r: Result<Selector, ParseError>)
        requires
            wf_stream(old(reader).toks()),
        ensures
            match spec_parse_selector(old(reader).toks()) {
                Ok((sv, rest)) => r is Ok && r->Ok_0@ == sv && final(reader).toks() == rest
                    && wf_stream(rest) && rest.len() <= old(reader).toks().len() && (
                sv.position is Some ==> rest.len() < old(reader).toks().len()) && (
                sv.position is None ==> rest == old(reader).toks()),
                Err(e) => r is Err && r->Err_0@ == e,
            },
        decreases old(reader).toks().len(), 1int,
    {
        let ghost t0 = old(reader).toks();
        let comma = {
            let p = reader.peek();
            matches!(p.kind, CSSToken::Comma)
        };
        if comma {
            return Ok(
                Selector {
                    tag_name: None,
                    identifier: None,
                    class_names: None,
                    descendant: None,
                    child: None,
                    position: None,
                },
            );
        }
        let empty = Selector {
            tag_name: None,
            identifier: None,
            class_names: None,
            descendant: None,
            child: None,
            position: None,
        };
        let (mut sel, mut done) = match Self::fragment(reader, empty) {
            Ok(x) => x,
            Err(e) => {
                return Err(e);
            },
        };
        while !done
            invariant
                t0 == old(reader).toks(),
                wf_stream(reader.toks()),
                reader.toks().len() < t0.len(),
                sel.position is Some,
                sel@.position is Some,
                !done ==> spec_parse_selector(t0) == spec_sel_loop(reader.toks(), sel@),
                done ==> spec_parse_selector(t0) == Ok::<(SelectorModel, Seq<TokenModel>), ParseErrorModel>((sel@, reader.toks())),
            decreases reader.toks().len(),
        {
            let (pspan, is_angle, is_comma) = {
                let p = reader.peek();
                (p.span, matches!(p.kind, CSSToken::CloseAngle), matches!(p.kind, CSSToken::Comma))
            };
            if is_comma {
                return Ok(sel);
            }
            let adjacent = if let Some(sp) = sel.position {
                sp.is_adjacent_to(&pspan)
            } else {
                false
            };
            if !is_angle && !adjacent {
                let d = match Self::from_reader(reader) {
                    Ok(d) => d,
                    Err(e) => {
                        return Err(e);
                    },
                };
                sel.descendant = Some(Box::new(d));
                return Ok(sel);
            }
            let (s2, d2) = match Self::fragment(reader, sel) {
                Ok(x) => x,
                Err(e) => {
                    return Err(e);
                },
            };
            sel = s2;
            done = d2;
        }
        Ok(sel)
    }
}

/// Appending `other` at the tail of `s`'s combinator chain: the result of
/// [`Selector::nest_selector`].
pub open spec fn spec_nest(s: SelectorModel, o: SelectorModel) -> SelectorModel
    decreases s,
{
    match s.descendant {
        Some(d) => SelectorModel { descendant: Some(Box::new(spec_nest(*d, o))), ..s },
        None => match s.child {
            Some(c) => SelectorModel { child: Some(Box::new(spec_nest(*c, o))), ..s },
            None => SelectorModel { descendant: Some(Box::new(o)), ..s },
        },
    }
}

fn dup_opt_string(o: &Option<String>) -> (r: Option<String>)
    ensures
        (r is Some <==> o is Some),
        r is Some ==> r->0 == o->0,
{
    match o {
        Some(s) => Some(s.clone()),
        None => None,
    }
}

fn dup_string_vec(v: &Vec<String>) -> (r: Vec<String>)
    ensures
        r@ == v@,
{
    let mut r: Vec<String> = Vec::new();
    let n = v.len();
    for i in 0..n
        invariant
            n == v@.len(),
            r@.len() == i,
            forall|j: int| 0 <= j < i ==> r@[j] == v@[j],
    {
        r.push(v[i].clone());
    }
    proof {
        assert(r@ =~= v@);
    }
    r
}

impl Selector {
    /// The span this selector was parsed from, as it was parsed; the
    /// nesting transform builds selectors that carry their originals'
    /// spans.
    pub fn get_position(&self) -> (r: Option<&Span>)
        ensures
            (r is Some <==> self.position is Some),
            r is Some ==> *r->0 == self.position->0,
    {
        self.position.as_ref()
    }

    /// A structurally equal copy.
    pub fn duplicate(&self) -> (r: Selector)
        ensures
            r@ == self@,
        decreases *self,
    {
        let r = Selector {
            tag_name: dup_opt_string(&self.tag_name),
            identifier: dup_opt_string(&self.identifier),
            class_names: match &self.class_names {
                Some(v) => Some(dup_string_vec(v)),
                None => None,
            },
            descendant: match &self.descendant {
                Some(b) => Some(Box::new(b.duplicate())),
                None => None,
            },
            child: match &self.child {
                Some(b) => Some(Box::new(b.duplicate())),
                None => None,
            },
            position: self.position,
        };
        r
    }

    /// Returns `other` nested under `self`: a copy of `self` whose chain of
    /// descendant/child links is walked to its tail, where `other` is
    /// attached as the descendant (CSS descendant-combinator semantics for
    /// flattened output).
    pub fn nest_selector(&self, other: Selector) -> (r: Selector)
        ensures
            r@ == spec_nest(self@, other@),
        decreases *self,
    {
        if let Some(d) = &self.descendant {
            Selector {
                tag_name: dup_opt_string(&self.tag_name),
                identifier: dup_opt_string(&self.identifier),
                class_names: match &self.class_names {
                    Some(v) => Some(dup_string_vec(v)),
                    None => None,
                },
                descendant: Some(Box::new(d.nest_selector(other))),
                child: match &self.child {
                    Some(b) => Some(Box::new(b.duplicate())),
                    None => None,
                },
                position: self.position,
            }
        } else if let Some(c) = &self.child {
            Selector {
                tag_name: dup_opt_string(&self.tag_name),
                identifier: dup_opt_string(&self.identifier),
                class_names: match &self.class_names {
                    Some(v) => Some(dup_string_vec(v)),
                    None => None,
                },
                descendant: None,
                child: Some(Box::new(c.nest_selector(other))),
                position: self.position,
            }
        } else {
            Selector {
                tag_name: dup_opt_string(&self.tag_name),
                identifier: dup_opt_string(&self.identifier),
                class_names: match &self.class_names {
                    Some(v) => Some(dup_string_vec(v)),
                    None => None,
                },
                descendant: Some(Box::new(other)),
                child: None,
                position: self.position,
            }
        }
    }
}


/// What parsing a whole source text as one selector yields: the lexed
/// stream, one selector, and the end of source.
pub open spec fn spec_selector_from_string(s: Seq<char>, sid: SourceId, off: int) -> Result<
    SelectorModel,
    ParseErrorModel,
> {
    match spec_lex(s, off, sid) {
        Err(e) => Err(e),
        Ok(toks) => match spec_parse_selector(toks) {
            Err(e) => Err(e),
            Ok((sv, rest)) => match crate::tokens::spec_expect_next(rest, TokenKindModel::EOS) {
                Err(e) => Err(e),
                Ok(_) => Ok(sv),
            },
        },
    }
}

impl Selector {
    /// Parses one selector from source text, expecting nothing but the end
    /// of source after it; spans are biased by `offset`. Returns exactly
    /// what [`spec_selector_from_string`] names.
    pub fn from_string(string: String, source_id: SourceId, offset: Option<usize>) -> (r: Result<
        Selector,
        ParseError,
    >)
        requires
            (match offset {
                Some(o) => o as int,
                None => 0,
            }) + string@.len() <= usize::MAX,
        ensures
            match spec_selector_from_string(
                string@,
                source_id,
                match offset {
                    Some(o) => o as int,
                    None => 0,
                },
            ) {
                Ok(sv) => r is Ok && r->Ok_0@ == sv,
                Err(e) => r is Err && r->Err_0@ == e,
            },
    {
        let ghost off = match offset {
            Some(o) => o as int,
            None => 0,
        };
        let mut reader = TokenQueue::new();
        match lex_source(string.as_str(), &mut reader, source_id, offset) {
            Ok(_) => {},
            Err(e) => {
                return Err(e);
            },
        }
        proof {
            lemma_lex_wf(string@, off, source_id, 0, LexState::Idle, 0);
            assert(Seq::<TokenModel>::empty() + spec_lex(string@, off, source_id)->Ok_0
                =~= spec_lex(string@, off, source_id)->Ok_0);
        }
        let sel = match Self::from_reader(&mut reader) {
            Ok(s) => s,
            Err(e) => {
                return Err(e);
            },
        };
        match reader.expect_next(CSSToken::EOS) {
            Ok(_) => {},
            Err(e) => {
                return Err(e);
            },
        }
        Ok(sel)
    }
}

/// Rendering one selector into the buffer: first a source mapping for its
/// span, then tag name, `#id` and `.class` fragments, then the descendant
/// (after a space) or child (after `>`, spaced unless minifying) selector.
pub open spec fn spec_render_selector(
    sel: SelectorModel,
    st: RenderState,
    settings: SettingsModel,
) -> RenderState
    decreases sel,
{
    let st0 = match sel.position {
        Some(p) => rb_add_mapping(st, p),
        None => st,
    };
    let st1 = match sel.tag_name {
        Some(t) => rb_push_str(st0, t),
        None => st0,
    };
    let st2 = match sel.identifier {
        Some(id) => rb_push_str(rb_push(st1, '#'), id),
        None => st1,
    };
    let st3 = match sel.class_names {
        Some(cs) => spec_render_classes(cs, 0, st2),
        None => st2,
    };
    match sel.descendant {
        Some(d) => spec_render_selector(*d, rb_push(st3, ' '), settings),
        None => match sel.child {
            Some(c) => {
                let a = if !settings.minify {
                    rb_push(st3, ' ')
                } else {
                    st3
                };
                let b = rb_push(a, '>');
                let cc = if !settings.minify {
                    rb_push(b, ' ')
                } else {
                    b
                };
                spec_render_selector(*c, cc, settings)
            },
            None => st3,
        },
    }
}

/// The `.class` fragments from index `i` on.
pub open spec fn spec_render_classes(cs: Seq<Seq<char>>, i: int, st: RenderState) -> RenderState
    decreases cs.len() - i,
{
    if i < 0 || i >= cs.len() {
        st
    } else {
        spec_render_classes(cs, i + 1, rb_push_str(rb_push(st, '.'), cs[i]))
    }
}

fn render_classes(cs: &Vec<String>, buf: &mut RenderBuffer)
    requires
        rb_wf(old(buf)@),
    ensures
        final(buf)@ == spec_render_classes(cs@.map_values(|s: String| s@), 0, old(buf)@),
        rb_wf(final(buf)@),
{
    let ghost csv = cs@.map_values(|s: String| s@);
    let n = cs.len();
    let mut j: usize = 0;
    while j < n
        invariant
            n == cs@.len(),
            j <= n,
            csv == cs@.map_values(|s: String| s@),
            rb_wf(buf@),
            spec_render_classes(csv, 0, old(buf)@) == spec_render_classes(csv, j as int, buf@),
        decreases n - j,
    {
        buf.push('.');
        buf.push_str(cs[j].as_str());
        j = j + 1;
    }
}

impl Selector {
    /// Renders this selector into the buffer; see [`spec_render_selector`]
    /// for exactly what is appended.
    pub fn to_string_from_buffer(
        &self,
        buf: &mut RenderBuffer,
        settings: &ToStringSettings,
        depth: u8,
    )
        requires
            rb_wf(old(buf)@),
        ensures
            final(buf)@ == spec_render_selector(self@, old(buf)@, settings@),
            rb_wf(final(buf)@),
        decreases *self,
    {
        match &self.position {
            Some(p) => {
                buf.add_mapping(p);
            },
            None => {},
        }
        match &self.tag_name {
            Some(t) => {
                buf.push_str(t.as_str());
            },
            None => {},
        }
        match &self.identifier {
            Some(id) => {
                buf.push('#');
                buf.push_str(id.as_str());
            },
            None => {},
        }
        match &self.class_names {
            Some(cs) => {
                render_classes(cs, buf);
            },
            None => {},
        }
        match &self.descendant {
            Some(d) => {
                buf.push(' ');
                d.to_string_from_buffer(buf, settings, depth);
            },
            None => {
                match &self.child {
                    Some(c) => {
                        if !settings.minify {
                            buf.push(' ');
                        }
                        buf.push('>');
                        if !settings.minify {
                            buf.push(' ');
                        }
                        c.to_string_from_buffer(buf, settings, depth);
                    },
                    None => {},
                }
            },
        }
    }
}

} // verus!

//! CSS rules: a comma-separated selector list sharing one block of
//! declarations and (before the nesting transform) nested rules, with the
//! parser that tells declarations and nested rules apart by scanning ahead
//! for `:` versus `{`.

use vstd::prelude::*;

use crate::render::{rb_new_line, rb_push, rb_push_repeat, rb_push_str, rb_wf, RenderBuffer, RenderState};
use crate::selectors::{spec_parse_selector, spec_render_selector, Selector, SelectorModel};
use crate::span::{spec_union, Span};
use crate::tokens::{
    spec_expect_next, spec_kind_name, unreachable_parse_error, wf_stream, CSSToken, TokenKindModel,
    TokenModel, TokenQueue,
};
use crate::values::{spec_parse_value, spec_render_value, CSSValue, ValueModel};
use crate::{ParseError, ParseErrorModel, SettingsModel, ToStringSettings};

verus! {

/// A rule: selectors sharing a block of declarations, plus the rules nested
/// in that block (present only before the nesting transform). The span runs
/// from the first selector token to the closing brace.
#[derive(Debug)]
pub struct Rule {
    pub selectors: Vec<Selector>,
    pub nested_rules: Option<Vec<Rule>>,
    pub declarations: Vec<(String, CSSValue)>,
    pub position: Option<Span>,
}

/// Mathematical image of a [`Rule`].
pub struct RuleModel {
    pub selectors: Seq<SelectorModel>,
    pub nested_rules: Option<Seq<RuleModel>>,
    pub declarations: Seq<(Seq<char>, ValueModel)>,
    pub position: Option<Span>,
}

/// The images of a sequence of selectors.
pub open spec fn view_selectors(ss: Seq<Selector>) -> Seq<SelectorModel> {
    ss.map_values(|s: Selector| s@)
}

/// The images of a sequence of declarations.
pub open spec fn view_decls(ds: Seq<(String, CSSValue)>) -> Seq<(Seq<char>, ValueModel)> {
    ds.map_values(|d: (String, CSSValue)| (d.0@, d.1@))
}

/// The images of a sequence of rules.
pub open spec fn view_rules(rs: Seq<Rule>) -> Seq<RuleModel>
    decreases rs,
{
    if rs.len() == 0 {
        Seq::empty()
    } else {
        seq![rs.first()@] + view_rules(rs.drop_first())
    }
}

/// The image of an optional list of nested rules.
pub open spec fn view_nested(o: Option<Vec<Rule>>) -> Option<Seq<RuleModel>>
    decreases o,
{
    match o {
        Some(v) => Some(view_rules(v@)),
        None => None,
    }
}

impl View for Rule {
    type V = RuleModel;

    open spec fn view(&self) -> RuleModel
        decreases self,
    {
        RuleModel {
            selectors: view_selectors(self.selectors@),
            nested_rules: view_nested(self.nested_rules),
            declarations: view_decls(self.declarations@),
            position: self.position,
        }
    }
}

/// `view_rules` is the element-wise image.
pub proof fn lemma_view_rules(rs: Seq<Rule>)
    ensures
        view_rules(rs).len() == rs.len(),
        forall|i: int| 0 <= i < rs.len() ==> view_rules(rs)[i] == #[trigger] rs[i]@,
    decreases rs.len(),
{
    if rs.len() == 0 {
        assert(view_rules(rs).len() == 0);
    } else {
        lemma_view_rules(rs.drop_first());
        assert(view_rules(rs) == seq![rs.first()@] + view_rules(rs.drop_first()));
        assert forall|i: int| 0 <= i < rs.len() implies view_rules(rs)[i] == #[trigger] rs[i]@ by {
            if i == 0 {
                assert(view_rules(rs)[0] == rs.first()@);
            } else {
                assert(view_rules(rs)[i] == view_rules(rs.drop_first())[i - 1]);
                assert(rs.drop_first()[i - 1] == rs[i]);
            }
        }
    }
}

/// Appending a rule appends its image.
pub proof fn lemma_view_rules_push(rs: Seq<Rule>, r: Rule)
    ensures
        view_rules(rs.push(r)) == view_rules(rs).push(r@),
{
    lemma_view_rules(rs.push(r));
    lemma_view_rules(rs);
    assert forall|i: int| 0 <= i < rs.len() + 1 implies view_rules(rs.push(r))[i] == view_rules(
        rs,
    ).push(r@)[i] by {
        assert(view_rules(rs.push(r))[i] == rs.push(r)[i]@);
        if i < rs.len() {
            assert(rs.push(r)[i] == rs[i]);
            assert(view_rules(rs)[i] == rs[i]@);
        } else {
            assert(rs.push(r)[i] == r);
        }
    }
    assert(view_rules(rs.push(r)) =~= view_rules(rs).push(r@));
}

/// The rule-versus-declaration lookahead: among the upcoming tokens, the
/// first `:`, `{` or `}` decides — `{` announces a nested rule, `:` or `}`
/// a declaration; so does finding none of them.
pub open spec fn spec_scan_is_rule(toks: Seq<TokenModel>) -> bool
    decreases toks.len(),
{
    if toks.len() == 0 {
        false
    } else {
        match toks[0].kind {
            TokenKindModel::OpenCurly => true,
            TokenKindModel::Colon => false,
            TokenKindModel::CloseCurly => false,
            _ => spec_scan_is_rule(toks.drop_first()),
        }
    }
}

/// Consumes `, selector` pairs into `acc` until the next token is no comma.
pub open spec fn spec_sel_list(toks: Seq<TokenModel>, acc: Seq<SelectorModel>) -> Result<
    (Seq<SelectorModel>, Seq<TokenModel>),
    ParseErrorModel,
>
    decreases toks.len(),
{
    if toks.len() == 0 {
        Err(unreachable_parse_error())
    } else if toks[0].kind is Comma {
        let rest = toks.drop_first();
        match spec_parse_selector(rest) {
            Err(e) => Err(e),
            Ok((s, rest2)) => if rest2.len() < toks.len() {
                spec_sel_list(rest2, acc.push(s))
            } else {
                Err(unreachable_parse_error())
            },
        }
    } else {
        Ok((acc, toks))
    }
}

/// Parses the block body: declarations (`name: value;`, the `;` optional
/// before `}`) and nested rules, until the closing `}`, whose span is
/// returned for the rule's own span.
pub open spec fn spec_rule_body(
    toks: Seq<TokenModel>,
    decls: Seq<(Seq<char>, ValueModel)>,
    nested: Option<Seq<RuleModel>>,
) -> Result<
    (Seq<(Seq<char>, ValueModel)>, Option<Seq<RuleModel>>, Span, Seq<TokenModel>),
    ParseErrorModel,
>
    decreases toks.len(), 1int,
{
    if toks.len() == 0 {
        Err(unreachable_parse_error())
    } else if toks[0].kind is CloseCurly {
        Ok((decls, nested, toks[0].span, toks.drop_first()))
    } else if spec_scan_is_rule(toks) {
        match spec_parse_rule(toks) {
            Err(e) => Err(e),
            Ok((r, t2)) => {
                let nested2 = match nested {
                    Some(ns) => Some(ns.push(r)),
                    None => Some(seq![r]),
                };
                if t2.len() < toks.len() {
                    spec_rule_body(t2, decls, nested2)
                } else {
                    Err(unreachable_parse_error())
                }
            },
        }
    } else {
        let t = toks[0];
        match t.kind {
            TokenKindModel::Ident(name) => {
                let t1 = toks.drop_first();
                match spec_expect_next(t1, TokenKindModel::Colon) {
                    Err(e) => Err(e),
                    Ok(_) => {
                        let t2 = t1.drop_first();
                        match spec_parse_value(t2) {
                            Err(e) => Err(e),
                            Ok((v, t3)) => {
                                let decls2 = decls.push((name, v));
                                if t3.len() == 0 {
                                    Err(unreachable_parse_error())
                                } else {
                                    let nt = t3[0];
                                    if nt.kind is CloseCurly {
                                        Ok((decls2, nested, nt.span, t3.drop_first()))
                                    } else if nt.kind is SemiColon {
                                        if t3.drop_first().len() < toks.len() {
                                            spec_rule_body(t3.drop_first(), decls2, nested)
                                        } else {
                                            Err(unreachable_parse_error())
                                        }
                                    } else {
                                        Err(
                                            ParseErrorModel {
                                                reason: "Expected 'SemiColon' found '"@
                                                    + spec_kind_name(nt.kind) + "'"@,
                                                position: nt.span,
                                            },
                                        )
                                    }
                                }
                            },
                        }
                    },
                }
            },
            _ => Err(
                ParseErrorModel {
                    reason: "Expected ident found '"@ + spec_kind_name(t.kind) + "'"@,
                    position: t.span,
                },
            ),
        }
    }
}

/// Parses one rule: one or more comma-separated selectors, `{`, the block
/// body, `}`. The rule's span is the union of the first selector's span and
/// the closing brace's.
pub open spec fn spec_parse_rule(toks: Seq<TokenModel>) -> Result<
    (RuleModel, Seq<TokenModel>),
    ParseErrorModel,
>
    decreases toks.len(), 0int,
{
    match spec_parse_selector(toks) {
        Err(e) => Err(e),
        Ok((s0, t1)) => {
            if s0.position is None {
                Err(ParseErrorModel { reason: "Expected selector"@, position: toks[0].span })
            } else {
                let first_span = s0.position->0;
                match spec_sel_list(t1, seq![s0]) {
                    Err(e) => Err(e),
                    Ok((sels, t2)) => match spec_expect_next(t2, TokenKindModel::OpenCurly) {
                        Err(e) => Err(e),
                        Ok(_) => {
                            let t3 = t2.drop_first();
                            if t3.len() < toks.len() {
                                match spec_rule_body(t3, Seq::empty(), None) {
                                    Err(e) => Err(e),
                                    Ok((decls, nested, last_span, t4)) => Ok(
                                        (
                                            RuleModel {
                                                selectors: sels,
                                                nested_rules: nested,
                                                declarations: decls,
                                                position: Some(spec_union(first_span, last_span)),
                                            },
                                            t4,
                                        ),
                                    ),
                                }
                            } else {
                                Err(unreachable_parse_error())
                            }
                        },
                    },
                }
            }
        },
    }
}

/// The executable rule-versus-declaration lookahead; see
/// [`spec_scan_is_rule`]. Only a read cursor advances: nothing is consumed.
fn scan_is_rule(reader: &TokenQueue) -> (r: bool)
    ensures
        r == spec_scan_is_rule(reader.toks()),
{
    let n = reader.len();
    let mut j: usize = 0;
    proof {
        assert(reader.toks().skip(0) =~= reader.toks());
    }
    while j < n
        invariant
            n == reader.toks().len(),
            j <= n,
            spec_scan_is_rule(reader.toks()) == spec_scan_is_rule(reader.toks().skip(j as int)),
        decreases n - j,
    {
        let t = reader.peek_n(j);
        proof {
            assert(reader.toks().skip(j as int)[0] == reader.toks()[j as int]);
            assert(reader.toks().skip(j as int).drop_first() =~= reader.toks().skip(j as int + 1));
        }
        match t.kind {
            CSSToken::OpenCurly => {
                return true;
            },
            CSSToken::Colon => {
                return false;
            },
            CSSToken::CloseCurly => {
                return false;
            },
            _ => {
                j = j + 1;
            },
        }
    }
    proof {
        assert(reader.toks().skip(n as int) =~= Seq::<TokenModel>::empty());
    }
    false
}

/// True when the next token is a comma.
fn peek_is_comma(reader: &TokenQueue) -> (r: bool)
    requires
        reader.toks().len() > 0,
    ensures
        r == (reader.toks()[0].kind is Comma),
{
    let p = reader.peek();
    matches!(p.kind, CSSToken::Comma)
}

/// True when the next token closes the block.
fn peek_is_close_curly(reader: &TokenQueue) -> (r: bool)
    requires
        reader.toks().len() > 0,
    ensures
        r == (reader.toks()[0].kind is CloseCurly),
{
    let p = reader.peek();
    matches!(p.kind, CSSToken::CloseCurly)
}

impl Rule {
    /// Consumes one rule from the channel; see [`spec_parse_rule`] for
    /// exactly what is returned on which streams.
    pub fn from_reader(reader: &mut TokenQueue) -> (r: Result<Rule, ParseError>)
        requires
            wf_stream(old(reader).toks()),
        ensures
            match spec_parse_rule(old(reader).toks()) {
                Ok((rv, rest)) => r is Ok && r->Ok_0@ == rv && final(reader).toks() == rest
                    && wf_stream(rest) && rest.len() < old(reader).toks().len(),
                Err(e) => r is Err && r->Err_0@ == e,
            },
        decreases old(reader).toks().len(),
    {
        let ghost t0 = old(reader).toks();
        let s0 = match Selector::from_reader(reader) {
            Ok(s) => s,
            Err(e) => {
                return Err(e);
            },
        };
        let first_span = match s0.position {
            Some(p) => p,
            None => {
                let p = reader.peek();
                return Err(
                    ParseError { reason: String::from_str("Expected selector"), position: p.span },
                );
            },
        };
        let mut selectors: Vec<Selector> = Vec::new();
        let ghost s0v = s0@;
        selectors.push(s0);
        let ghost t1 = reader.toks();
        let ghost slr = spec_sel_list(t1, seq![s0v]);
        proof {
            assert(view_selectors(selectors@) =~= seq![s0v]);
        }
        while peek_is_comma(reader)
            invariant
                t0 == old(reader).toks(),
                wf_stream(reader.toks()),
                reader.toks().len() < t0.len(),
                t0.len() > 0,
                spec_parse_selector(t0) == Ok::<(SelectorModel, Seq<TokenModel>), ParseErrorModel>(
                    (s0v, t1),
                ),
                s0v.position == Some(first_span),
                slr == spec_sel_list(t1, seq![s0v]),
                slr == spec_sel_list(reader.toks(), view_selectors(selectors@)),
            decreases reader.toks().len(),
        {
            let ghost pre = reader.toks();
            let ghost preacc = view_selectors(selectors@);
            let _ = reader.next();
            let s = match Selector::from_reader(reader) {
                Ok(s) => s,
                Err(e) => {
                    proof {
                        assert(slr is Err && slr->Err_0 == e@);
                        assert(spec_parse_rule(t0) is Err && spec_parse_rule(t0)->Err_0 == e@);
                    }
                    return Err(e);
                },
            };
            proof {
                assert(view_selectors(selectors@.push(s)) =~= preacc.push(s@));
            }
            selectors.push(s);
        }
        let last = match reader.expect_next(CSSToken::OpenCurly) {
            Ok(sp) => sp,
            Err(e) => {
                return Err(e);
            },
        };
        let ghost t3 = reader.toks();
        let ghost rbr = spec_rule_body(t3, Seq::empty(), None);
        let mut declarations: Vec<(String, CSSValue)> = Vec::new();
        let mut nested_rules: Option<Vec<Rule>> = None;
        proof {
            assert(view_decls(declarations@) =~= Seq::<(Seq<char>, ValueModel)>::empty());
        }
        while !peek_is_close_curly(reader)
            invariant
                t0 == old(reader).toks(),
                wf_stream(reader.toks()),
                reader.toks().len() < t0.len(),
                t0.len() > 0,
                spec_parse_rule(t0) matches Ok((rv, rest)) ==> rv.selectors == view_selectors(
                    selectors@,
                ) && rv.position == Some(spec_union(first_span, spec_rb_span(rbr))) && Ok::<
                    _,
                    ParseErrorModel,
                >((rv.declarations, rv.nested_rules, spec_rb_span(rbr), rest)) == rbr,
                spec_parse_rule(t0) is Err ==> rbr is Err && spec_parse_rule(t0)->Err_0
                    == rbr->Err_0,
                rbr == spec_rule_body(
                    reader.toks(),
                    view_decls(declarations@),
                    view_nested(nested_rules),
                ),
            decreases reader.toks().len(),
        {
            let ghost pre = reader.toks();
            if scan_is_rule(reader) {
                let nested = match Rule::from_reader(reader) {
                    Ok(x) => x,
                    Err(e) => {
                        return Err(e);
                    },
                };
                nested_rules = match nested_rules {
                    Some(mut ns) => {
                        let ghost oldns = ns@;
                        ns.push(nested);
                        proof {
                            lemma_view_rules_push(oldns, ns@.last());
                        }
                        Some(ns)
                    },
                    None => {
                        let mut ns: Vec<Rule> = Vec::new();
                        ns.push(nested);
                        proof {
                            lemma_view_rules(ns@);
                            assert(view_rules(ns@) =~= seq![ns@[0]@]);
                        }
                        Some(ns)
                    },
                };
            } else {
                let t = reader.next();
                let name = match t.kind {
                    CSSToken::Ident(name) => name,
                    _ => {
                        let mut reason = String::from_str("Expected ident found '");
                        reason.append(t.kind.kind_name());
                        reason.append("'");
                        return Err(ParseError { reason, position: t.span });
                    },
                };
                match reader.expect_next(CSSToken::Colon) {
                    Ok(_) => {},
                    Err(e) => {
                        return Err(e);
                    },
                };
                let value = match CSSValue::from_reader(reader) {
                    Ok(v) => v,
                    Err(e) => {
                        return Err(e);
                    },
                };
                let ghost predecls = view_decls(declarations@);
                let ghost namev = name@;
                let ghost valuev = value@;
                declarations.push((name, value));
                proof {
                    assert(view_decls(declarations@) =~= predecls.push((namev, valuev)));
                }
                let nt = reader.next();
                match nt.kind {
                    CSSToken::CloseCurly => {
                        return Ok(
                            Rule {
                                selectors,
                                nested_rules,
                                declarations,
                                position: Some(first_span.union(&nt.span)),
                            },
                        );
                    },
                    CSSToken::SemiColon => {},
                    _ => {
                        let mut reason = String::from_str("Expected 'SemiColon' found '");
                        reason.append(nt.kind.kind_name());
                        reason.append("'");
                        return Err(ParseError { reason, position: nt.span });
                    },
                }
            }
        }
        let last_span = match reader.expect_next(CSSToken::CloseCurly) {
            Ok(sp) => sp,
            Err(e) => {
                proof {
                    // dead: the loop exited on a peeked closing brace
                    assert(false);
                }
                return Err(e);
            },
        };
        Ok(
            Rule {
                selectors,
                nested_rules,
                declarations,
                position: Some(first_span.union(&last_span)),
            },
        )
    }
}

/// The closing-brace span inside a successful block-body result.
pub open spec fn spec_rb_span(
    r: Result<
        (Seq<(Seq<char>, ValueModel)>, Option<Seq<RuleModel>>, Span, Seq<TokenModel>),
        ParseErrorModel,
    >,
) -> Span {
    r->Ok_0.2
}


/// Rendering one rule into the buffer: the selector list (comma-joined,
/// spaced unless minifying), the `{`, each declaration on its own indented
/// line (or run together when minifying, each closed by `;`), and the `}`.
pub open spec fn spec_render_rule(
    r: RuleModel,
    st: RenderState,
    settings: SettingsModel,
    depth: int,
) -> RenderState {
    let st1 = spec_render_rule_sels(r.selectors, 0, st, settings);
    let st2 = if !settings.minify {
        rb_push(st1, ' ')
    } else {
        st1
    };
    let st3 = rb_push(st2, '{');
    let st4 = spec_render_decls(r.declarations, 0, st3, settings, depth);
    rb_push(st4, '}')
}

/// The selector list from index `i` on.
pub open spec fn spec_render_rule_sels(
    sels: Seq<SelectorModel>,
    i: int,
    st: RenderState,
    settings: SettingsModel,
) -> RenderState
    decreases sels.len() - i,
{
    if i < 0 || i >= sels.len() {
        st
    } else {
        let st1 = spec_render_selector(sels[i], st, settings);
        let st2 = if i + 1 < sels.len() {
            if settings.minify {
                rb_push(st1, ',')
            } else {
                rb_push_str(st1, ", "@)
            }
        } else {
            st1
        };
        spec_render_rule_sels(sels, i + 1, st2, settings)
    }
}

/// The declarations from index `i` on; the last one is followed by a
/// newline and the closing brace's indentation unless minifying, which
/// instead drops the optional semicolon after it.
pub open spec fn spec_render_decls(
    ds: Seq<(Seq<char>, ValueModel)>,
    i: int,
    st: RenderState,
    settings: SettingsModel,
    depth: int,
) -> RenderState
    decreases ds.len() - i,
{
    if i < 0 || i >= ds.len() {
        st
    } else {
        let sta = if !settings.minify {
            rb_push_repeat(rb_new_line(st), settings.indent_with, depth + 1)
        } else {
            st
        };
        let stb = rb_push_str(sta, ds[i].0);
        let stc = rb_push(stb, ':');
        let std1 = if !settings.minify {
            rb_push(stc, ' ')
        } else {
            stc
        };
        let ste = spec_render_value(ds[i].1, std1, settings);
        let stf = if settings.minify && i == ds.len() - 1 {
            ste
        } else {
            rb_push(ste, ';')
        };
        let stg = if !settings.minify && i == ds.len() - 1 {
            rb_push_repeat(rb_new_line(stf), settings.indent_with, depth)
        } else {
            stf
        };
        spec_render_decls(ds, i + 1, stg, settings, depth)
    }
}

fn render_rule_sels(sels: &Vec<Selector>, buf: &mut RenderBuffer, settings: &ToStringSettings)
    requires
        rb_wf(old(buf)@),
    ensures
        final(buf)@ == spec_render_rule_sels(view_selectors(sels@), 0, old(buf)@, settings@),
        rb_wf(final(buf)@),
{
    let ghost sv = view_selectors(sels@);
    let n = sels.len();
    let mut j: usize = 0;
    while j < n
        invariant
            n == sels@.len(),
            j <= n,
            sv == view_selectors(sels@),
            rb_wf(buf@),
            spec_render_rule_sels(sv, 0, old(buf)@, settings@) == spec_render_rule_sels(
                sv,
                j as int,
                buf@,
                settings@,
            ),
        decreases n - j,
    {
        sels[j].to_string_from_buffer(buf, settings, 0);
        if j + 1 < n {
            if settings.minify {
                buf.push(',');
            } else {
                buf.push_str(", ");
            }
        }
        j = j + 1;
    }
}

fn render_decls(
    ds: &Vec<(String, CSSValue)>,
    buf: &mut RenderBuffer,
    settings: &ToStringSettings,
    depth: u8,
)
    requires
        rb_wf(old(buf)@),
    ensures
        final(buf)@ == spec_render_decls(
            view_decls(ds@),
            0,
            old(buf)@,
            settings@,
            depth as int,
        ),
        rb_wf(final(buf)@),
{
    let ghost dv = view_decls(ds@);
    let n = ds.len();
    let mut j: usize = 0;
    while j < n
        invariant
            n == ds@.len(),
            j <= n,
            dv == view_decls(ds@),
            rb_wf(buf@),
            spec_render_decls(dv, 0, old(buf)@, settings@, depth as int) == spec_render_decls(
                dv,
                j as int,
                buf@,
                settings@,
                depth as int,
            ),
        decreases n - j,
    {
        if !settings.minify {
            buf.push_new_line();
            buf.push_repeat(settings.indent_with.as_str(), depth as usize + 1);
        }
        buf.push_str(ds[j].0.as_str());
        buf.push(':');
        if !settings.minify {
            buf.push(' ');
        }
        ds[j].1.to_string_from_buffer(buf, settings, depth);
        if !(settings.minify && j == n - 1) {
            buf.push(';');
        }
        if !settings.minify && j == n - 1 {
            buf.push_new_line();
            buf.push_repeat(settings.indent_with.as_str(), depth as usize);
        }
        j = j + 1;
    }
}

impl Rule {
    /// The span this rule was parsed from, first selector token to closing
    /// brace.
    pub fn get_position(&self) -> (r: Option<&Span>)
        ensures
            (r is Some <==> self.position is Some),
            r is Some ==> *r->0 == self.position->0,
    {
        self.position.as_ref()
    }

    /// Renders this rule into the buffer; see [`spec_render_rule`] for
    /// exactly what is appended. Nested rules are not rendered: the
    /// nesting transform raises them to entries of their own first.
    pub fn to_string_from_buffer(
        &self,
        buf: &mut RenderBuffer,
        settings: &ToStringSettings,
        depth: u8,
    )
        requires
            rb_wf(old(buf)@),
        ensures
            final(buf)@ == spec_render_rule(self@, old(buf)@, settings@, depth as int),
            rb_wf(final(buf)@),
    {
        render_rule_sels(&self.selectors, buf, settings);
        if !settings.minify {
            buf.push(' ');
        }
        buf.push('{');
        render_decls(&self.declarations, buf, settings, depth);
        buf.push('}');
    }
}

} // verus!

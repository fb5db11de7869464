//! A small CSS compiler: a lexer, a recursive-descent parser, a transform
//! that flattens nested rules by selector composition, and a renderer that
//! turns the tree back into text, optionally emitting a source map.

pub mod lexer;
pub mod render;
pub mod source_map;
pub mod span;
pub mod tokens;
pub mod rules;
pub mod selectors;
pub mod values;

use vstd::prelude::*;

use crate::lexer::{lemma_lex_wf, spec_lex, LexState};
use crate::render::{
    rb_init_plain, rb_init_with_map, rb_new_line, rb_push_multiline_from, rb_push_str, rb_wf,
    RenderBuffer, RenderState,
};
use crate::source_map::{sm_json, SourceRegistry};
use crate::rules::{
    lemma_view_rules, lemma_view_rules_push, spec_parse_rule, spec_render_rule, view_rules,
    view_selectors, RuleModel,
};
use crate::selectors::{spec_nest, SelectorModel};
use crate::span::{SourceId, Span};
use crate::tokens::{
    spec_expect_next, unreachable_parse_error, wf_stream, TokenKindModel, TokenModel,
};
use vstd::string::StringSliceAdditionalSpecFns;

pub use crate::lexer::lex_source;
pub use crate::rules::Rule;
pub use crate::selectors::Selector;
pub use crate::tokens::{CSSToken, Token, TokenQueue};
pub use crate::values::{CSSValue, Number};

verus! {

/// The error produced by the lexer and the parser: a human-readable reason
/// anchored to the offending source range. The first error aborts the whole
/// parse; there is no recovery.
#[derive(Debug)]
pub struct ParseError {
    pub reason: String,
    pub position: Span,
}

/// Mathematical image of a [`ParseError`].
pub struct ParseErrorModel {
    pub reason: Seq<char>,
    pub position: Span,
}

impl View for ParseError {
    type V = ParseErrorModel;

    open spec fn view(&self) -> ParseErrorModel {
        ParseErrorModel { reason: self.reason@, position: self.position }
    }
}

/// Settings for rendering the tree back to text.
#[derive(Clone, Debug)]
pub struct ToStringSettings {
    pub minify: bool,
    pub indent_with: String,
}

/// Mathematical image of [`ToStringSettings`].
pub struct SettingsModel {
    pub minify: bool,
    pub indent_with: Seq<char>,
}

impl View for ToStringSettings {
    type V = SettingsModel;

    open spec fn view(&self) -> SettingsModel {
        SettingsModel { minify: self.minify, indent_with: self.indent_with@ }
    }
}

impl Default for ToStringSettings {
    /// Pretty-printing settings: four-space indent, whitespace kept.
    fn default() -> (r: Self)
        ensures
            r@.minify == false,
            r@.indent_with == "    "@,
    {
        ToStringSettings { minify: false, indent_with: String::from_str("    ") }
    }
}

impl ToStringSettings {
    /// Minified settings: rendering emits no optional whitespace.
    pub fn minified() -> (r: Self)
        ensures
            r@.minify == true,
            r@.indent_with == ""@,
    {
        ToStringSettings { minify: true, indent_with: String::from_str("") }
    }
}


/// One top-level item of a stylesheet: a rule, or a standalone comment
/// (comments inside rule blocks are not modelled).
#[derive(Debug)]
pub enum Entry {
    Rule(Rule),
    Comment(String),
}

/// Mathematical image of an [`Entry`].
pub enum EntryModel {
    Rule(RuleModel),
    Comment(Seq<char>),
}

impl View for Entry {
    type V = EntryModel;

    open spec fn view(&self) -> EntryModel {
        match self {
            Entry::Rule(r) => EntryModel::Rule(r@),
            Entry::Comment(c) => EntryModel::Comment(c@),
        }
    }
}

/// The images of a sequence of entries.
pub open spec fn view_entries(es: Seq<Entry>) -> Seq<EntryModel> {
    es.map_values(|e: Entry| e@)
}

/// A stylesheet: its ordered top-level entries.
#[derive(Debug)]
pub struct StyleSheet {
    pub entries: Vec<Entry>,
}

/// Mathematical image of a [`StyleSheet`].
pub struct StyleSheetModel {
    pub entries: Seq<EntryModel>,
}

impl View for StyleSheet {
    type V = StyleSheetModel;

    open spec fn view(&self) -> StyleSheetModel {
        StyleSheetModel { entries: view_entries(self.entries@) }
    }
}

/// Parses entries until the end-of-source token is next: a leading comment
/// token becomes a standalone entry, anything else starts a rule.
pub open spec fn spec_parse_entries(toks: Seq<TokenModel>, acc: Seq<EntryModel>) -> Result<
    (Seq<EntryModel>, Seq<TokenModel>),
    ParseErrorModel,
>
    decreases toks.len(),
{
    if toks.len() == 0 {
        Err(unreachable_parse_error())
    } else if toks[0].kind is EOS {
        Ok((acc, toks))
    } else {
        match toks[0].kind {
            TokenKindModel::Comment(c) => spec_parse_entries(
                toks.drop_first(),
                acc.push(EntryModel::Comment(c)),
            ),
            _ => match spec_parse_rule(toks) {
                Err(e) => Err(e),
                Ok((r, rest)) => if rest.len() < toks.len() {
                    spec_parse_entries(rest, acc.push(EntryModel::Rule(r)))
                } else {
                    Err(unreachable_parse_error())
                },
            },
        }
    }
}

/// What parsing a whole source text yields: the lexed stream parsed to
/// entries, with the end-of-source token consumed last.
pub open spec fn spec_from_string(s: Seq<char>, sid: SourceId) -> Result<
    StyleSheetModel,
    ParseErrorModel,
> {
    match spec_lex(s, 0, sid) {
        Err(e) => Err(e),
        Ok(toks) => match spec_parse_entries(toks, Seq::empty()) {
            Err(e) => Err(e),
            Ok((es, rest)) => match spec_expect_next(rest, TokenKindModel::EOS) {
                Err(e) => Err(e),
                Ok(_) => Ok(StyleSheetModel { entries: es }),
            },
        },
    }
}

/// True when the next token is the end-of-source token.
fn peek_is_eos(reader: &TokenQueue) -> (r: bool)
    requires
        reader.toks().len() > 0,
    ensures
        r == (reader.toks()[0].kind is EOS),
{
    let p = reader.peek();
    matches!(p.kind, CSSToken::EOS)
}

/// True when the next token is a comment.
fn peek_is_comment(reader: &TokenQueue) -> (r: bool)
    requires
        reader.toks().len() > 0,
    ensures
        r == (reader.toks()[0].kind is Comment),
{
    let p = reader.peek();
    matches!(p.kind, CSSToken::Comment(_))
}

impl StyleSheet {
    /// Consumes entries from the channel until the end-of-source token is
    /// next; see [`spec_parse_entries`].
    fn from_reader(reader: &mut TokenQueue) -> (r: Result<StyleSheet, ParseError>)
        requires
            wf_stream(old(reader).toks()),
        ensures
            match spec_parse_entries(old(reader).toks(), Seq::empty()) {
                Ok((es, rest)) => r is Ok && r->Ok_0@.entries == es && final(reader).toks() == rest
                    && wf_stream(rest),
                Err(e) => r is Err && r->Err_0@ == e,
            },
    {
        let ghost t0 = old(reader).toks();
        let mut entries: Vec<Entry> = Vec::new();
        proof {
            assert(view_entries(entries@) =~= Seq::<EntryModel>::empty());
        }
        while !peek_is_eos(reader)
            invariant
                t0 == old(reader).toks(),
                wf_stream(reader.toks()),
                spec_parse_entries(t0, Seq::empty()) == spec_parse_entries(
                    reader.toks(),
                    view_entries(entries@),
                ),
            decreases reader.toks().len(),
        {
            let ghost preacc = view_entries(entries@);
            if peek_is_comment(reader) {
                let t = reader.next();
                match t.kind {
                    CSSToken::Comment(c) => {
                        let e = Entry::Comment(c);
                        let ghost ev = e@;
                        entries.push(e);
                        proof {
                            assert(view_entries(entries@) =~= preacc.push(ev));
                        }
                    },
                    _ => {
                        proof {
                            // dead: the peeked token was a comment
                            assert(false);
                        }
                    },
                }
            } else {
                let rule = match Rule::from_reader(reader) {
                    Ok(r) => r,
                    Err(e) => {
                        return Err(e);
                    },
                };
                let e = Entry::Rule(rule);
                let ghost ev = e@;
                entries.push(e);
                proof {
                    assert(view_entries(entries@) =~= preacc.push(ev));
                }
            }
        }
        Ok(StyleSheet { entries })
    }

    /// Parses a whole stylesheet from source text: lexes it eagerly into the
    /// token channel, parses the entries, and checks that the end of source
    /// is reached. Returns exactly what [`spec_from_string`] names, the
    /// parsed sheet or the first error.
    pub fn from_string(source: String, source_id: SourceId) -> (r: Result<StyleSheet, ParseError>)
        ensures
            match spec_from_string(source@, source_id) {
                Ok(sv) => r is Ok && r->Ok_0@ == sv,
                Err(e) => r is Err && r->Err_0@ == e,
            },
    {
        let _n = source.unicode_len();
        let mut reader = TokenQueue::new();
        match lex_source(source.as_str(), &mut reader, source_id, None) {
            Ok(_) => {},
            Err(e) => {
                return Err(e);
            },
        }
        proof {
            lemma_lex_wf(source@, 0, source_id, 0, LexState::Idle, 0);
            assert(Seq::<TokenModel>::empty() + spec_lex(source@, 0, source_id)->Ok_0 =~= spec_lex(
                source@,
                0,
                source_id,
            )->Ok_0);
        }
        let sheet = match Self::from_reader(&mut reader) {
            Ok(s) => s,
            Err(e) => {
                return Err(e);
            },
        };
        match reader.expect_next(CSSToken::EOS) {
            Ok(_) => {},
            Err(e) => {
                return Err(e);
            },
        }
        Ok(sheet)
    }
}


/// The pairings of `outer[i..]` selectors with every `inner` selector.
pub open spec fn spec_compose_from(
    outer: Seq<SelectorModel>,
    i: int,
    inner: Seq<SelectorModel>,
) -> Seq<SelectorModel>
    decreases outer.len() - i,
{
    if i < 0 || i >= outer.len() {
        Seq::empty()
    } else {
        spec_compose_one_from(outer[i], inner, 0) + spec_compose_from(outer, i + 1, inner)
    }
}

/// `s` composed with every selector of `inner[j..]`, in order.
pub open spec fn spec_compose_one_from(
    s: SelectorModel,
    inner: Seq<SelectorModel>,
    j: int,
) -> Seq<SelectorModel>
    decreases inner.len() - j,
{
    if j < 0 || j >= inner.len() {
        Seq::empty()
    } else {
        seq![spec_nest(s, inner[j])] + spec_compose_one_from(s, inner, j + 1)
    }
}

/// Every pairing of an outer selector with a nested selector, outer-major:
/// the selector list a raised rule receives.
pub open spec fn spec_compose_selectors(
    outer: Seq<SelectorModel>,
    inner: Seq<SelectorModel>,
) -> Seq<SelectorModel> {
    spec_compose_from(outer, 0, inner)
}

/// The nesting depth of a rule: one more than its deepest nested rule.
/// Selector composition leaves it unchanged, which grounds the recursion of
/// the transform.
pub open spec fn rule_height(r: RuleModel) -> nat
    decreases r,
{
    match r.nested_rules {
        None => 1,
        Some(ns) => 1 + rules_height(ns),
    }
}

/// The deepest nesting depth among `ns`.
pub open spec fn rules_height(ns: Seq<RuleModel>) -> nat
    decreases ns,
{
    if ns.len() == 0 {
        0
    } else {
        let h = rule_height(ns.first());
        let t = rules_height(ns.drop_first());
        if h >= t {
            h
        } else {
            t
        }
    }
}

/// What raising does to one rule: its nested rules leave (an empty list
/// remains), each contributing itself — selectors composed with the outer
/// ones — and, before it, its own raised descendants.
pub open spec fn spec_raise_rule(r: RuleModel) -> (RuleModel, Seq<RuleModel>)
    decreases rule_height(r), 0int, 0int,
{
    match r.nested_rules {
        None => (r, Seq::empty()),
        Some(ns) => (
            RuleModel { nested_rules: Some(Seq::empty()), ..r },
            spec_raise_list(ns, r.selectors),
        ),
    }
}

/// The rules raised out of the nested list `ns` of a rule whose selectors
/// are `outer`, deeper nesting first within each branch, branches in order.
pub open spec fn spec_raise_list(ns: Seq<RuleModel>, outer: Seq<SelectorModel>) -> Seq<RuleModel>
    decreases rules_height(ns), ns.len() as int, 1int,
    via spec_raise_list_decreases
{
    if ns.len() == 0 {
        Seq::empty()
    } else {
        let child = RuleModel {
            selectors: spec_compose_selectors(outer, ns.first().selectors),
            ..ns.first()
        };
        let pr = spec_raise_rule(child);
        pr.1 + seq![pr.0] + spec_raise_list(ns.drop_first(), outer)
    }
}

#[via_fn]
proof fn spec_raise_list_decreases(ns: Seq<RuleModel>, outer: Seq<SelectorModel>) {
    if ns.len() > 0 {
        let child = RuleModel {
            selectors: spec_compose_selectors(outer, ns.first().selectors),
            ..ns.first()
        };
        assert(rule_height(child) == rule_height(ns.first()));
        assert(rules_height(ns) >= rule_height(ns.first()));
        assert(rules_height(ns) >= rules_height(ns.drop_first()));
    }
}

/// Raising over the entry list: each rule entry is rewritten in place and
/// contributes its raised rules, comments stay; the raised rules of all
/// entries are gathered in order.
pub open spec fn spec_raise_entries(es: Seq<EntryModel>) -> (Seq<EntryModel>, Seq<RuleModel>)
    decreases es.len(),
{
    if es.len() == 0 {
        (Seq::empty(), Seq::empty())
    } else {
        let head = match es.first() {
            EntryModel::Rule(r) => {
                let pr = spec_raise_rule(r);
                (EntryModel::Rule(pr.0), pr.1)
            },
            EntryModel::Comment(c) => (EntryModel::Comment(c), Seq::empty()),
        };
        let tail = spec_raise_entries(es.drop_first());
        (seq![head.0] + tail.0, head.1 + tail.1)
    }
}

/// Raised rules become top-level rule entries.
pub open spec fn rules_as_entries(rs: Seq<RuleModel>) -> Seq<EntryModel> {
    rs.map_values(|r: RuleModel| EntryModel::Rule(r))
}

/// The whole nesting transform: every entry rewritten in place, then all
/// raised rules appended at the end of the entry list.
pub open spec fn spec_raise_sheet(sh: StyleSheetModel) -> StyleSheetModel {
    let pr = spec_raise_entries(sh.entries);
    StyleSheetModel { entries: pr.0 + rules_as_entries(pr.1) }
}

/// Builds the composed selector list: for each outer selector, for each
/// nested selector, the nested one appended under the outer one.
fn compose_selector_lists(outer: &Vec<Selector>, inner: &Vec<Selector>) -> (r: Vec<Selector>)
    ensures
        view_selectors(r@) == spec_compose_selectors(view_selectors(outer@), view_selectors(
            inner@,
        )),
{
    let ghost outerv = view_selectors(outer@);
    let ghost innerv = view_selectors(inner@);
    let mut r: Vec<Selector> = Vec::new();
    let n = outer.len();
    proof {
        assert(view_selectors(r@) =~= Seq::<SelectorModel>::empty());
        assert(Seq::<SelectorModel>::empty() + spec_compose_from(outerv, 0, innerv)
            =~= spec_compose_from(outerv, 0, innerv));
    }
    for i in 0..n
        invariant
            n == outer@.len(),
            outerv == view_selectors(outer@),
            innerv == view_selectors(inner@),
            spec_compose_selectors(outerv, innerv) == view_selectors(r@) + spec_compose_from(
                outerv,
                i as int,
                innerv,
            ),
    {
        let m = inner.len();
        proof {
            assert(spec_compose_from(outerv, i as int, innerv) == spec_compose_one_from(
                outerv[i as int],
                innerv,
                0,
            ) + spec_compose_from(outerv, i as int + 1, innerv));
        }
        for j in 0..m
            invariant
                n == outer@.len(),
                m == inner@.len(),
                i < n,
                outerv == view_selectors(outer@),
                innerv == view_selectors(inner@),
                spec_compose_selectors(outerv, innerv) == (view_selectors(r@)
                    + spec_compose_one_from(outerv[i as int], innerv, j as int))
                    + spec_compose_from(outerv, i as int + 1, innerv),
        {
            let ghost prev = view_selectors(r@);
            let composed = outer[i].nest_selector(inner[j].duplicate());
            let ghost cv = composed@;
            r.push(composed);
            proof {
                assert(outerv[i as int] == outer@[i as int]@);
                assert(innerv[j as int] == inner@[j as int]@);
                assert(cv == spec_nest(outerv[i as int], innerv[j as int]));
                assert(view_selectors(r@) =~= prev.push(cv));
                assert(spec_compose_one_from(outerv[i as int], innerv, j as int) == seq![cv]
                    + spec_compose_one_from(outerv[i as int], innerv, j as int + 1));
                assert((prev.push(cv) + spec_compose_one_from(outerv[i as int], innerv, j as int
                    + 1)) =~= (prev + spec_compose_one_from(outerv[i as int], innerv, j as int)));
            }
        }
        proof {
            assert(spec_compose_one_from(outerv[i as int], innerv, m as int)
                =~= Seq::<SelectorModel>::empty());
            assert((view_selectors(r@) + Seq::<SelectorModel>::empty()) =~= view_selectors(r@));
        }
    }
    proof {
        assert(spec_compose_from(outerv, n as int, innerv) =~= Seq::<SelectorModel>::empty());
        assert((view_selectors(r@) + Seq::<SelectorModel>::empty()) =~= view_selectors(r@));
    }
    r
}

/// Removes the nested rules of `rule` (an empty list stays behind) and
/// appends to `raised_rules`, for each of them in order: first its own
/// raised descendants, then the rule itself, its selectors composed with
/// `rule`'s. Declarations stay with the rule they were written in.
pub fn raise_subrules(rule: &mut Rule, raised_rules: &mut Vec<Rule>)
    ensures
        final(rule)@ == spec_raise_rule(old(rule)@).0,
        view_rules(final(raised_rules)@) == view_rules(old(raised_rules)@) + spec_raise_rule(
            old(rule)@,
        ).1,
    decreases rule_height(old(rule)@),
{
    let nested_opt = rule.nested_rules.take();
    match nested_opt {
        None => {
            proof {
                assert(view_rules(raised_rules@) + Seq::<RuleModel>::empty() =~= view_rules(
                    raised_rules@,
                ));
            }
        },
        Some(mut ns) => {
            let ghost ns0 = view_rules(ns@);
            let ghost r0 = view_rules(old(raised_rules)@);
            let ghost outerv = view_selectors(old(rule).selectors@);
            proof {
                assert(view_rules(raised_rules@).skip(r0.len() as int)
                    =~= Seq::<RuleModel>::empty());
                assert(Seq::<RuleModel>::empty() + spec_raise_list(ns0, outerv) =~= spec_raise_list(
                    ns0,
                    outerv,
                ));
                assert(view_rules(raised_rules@).take(r0.len() as int) =~= r0);
            }
            while ns.len() > 0
                invariant
                    rule.selectors@ == old(rule).selectors@,
                    rule.declarations@ == old(rule).declarations@,
                    rule.position == old(rule).position,
                    rule.nested_rules is None,
                    outerv == view_selectors(old(rule).selectors@),
                    old(rule)@.nested_rules == Some(ns0),
                    old(rule)@.selectors == outerv,
                    rule_height(old(rule)@) == 1 + rules_height(ns0),
                    rules_height(view_rules(ns@)) <= rules_height(ns0),
                    r0.len() <= view_rules(raised_rules@).len(),
                    view_rules(raised_rules@).take(r0.len() as int) == r0,
                    r0 == view_rules(old(raised_rules)@),
                    spec_raise_list(ns0, outerv) == view_rules(raised_rules@).skip(r0.len() as int)
                        + spec_raise_list(view_rules(ns@), outerv),
                decreases ns.len(),
            {
                let ghost ns_pre = ns@;
                let ghost nsv_pre = view_rules(ns@);
                let ghost racc_pre = view_rules(raised_rules@).skip(r0.len() as int);
                let mut child = ns.remove(0);
                proof {
                    lemma_view_rules(ns_pre);
                    lemma_view_rules(ns@);
                    assert(child@ == nsv_pre[0]);
                    assert(view_rules(ns@) =~= nsv_pre.drop_first());
                    assert(rules_height(nsv_pre.drop_first()) <= rules_height(nsv_pre));
                }
                let composed = compose_selector_lists(&rule.selectors, &child.selectors);
                let mut old_sels = composed;
                core::mem::swap(&mut child.selectors, &mut old_sels);
                let ghost childspec = RuleModel {
                    selectors: spec_compose_selectors(outerv, nsv_pre[0].selectors),
                    ..nsv_pre[0]
                };
                proof {
                    assert(child@.selectors == spec_compose_selectors(
                        outerv,
                        nsv_pre[0].selectors,
                    ));
                    assert(child@ == childspec);
                    assert(rule_height(childspec) == rule_height(nsv_pre[0]));
                    assert(rules_height(nsv_pre) >= rule_height(nsv_pre.first()));
                    assert(rule_height(child@) < rule_height(old(rule)@));
                }
                let ghost rr_mid0 = view_rules(raised_rules@);
                raise_subrules(&mut child, raised_rules);
                let ghost sub = spec_raise_rule(childspec).1;
                let ghost childv = child@;
                let ghost rr_mid = raised_rules@;
                raised_rules.push(child);
                proof {
                    lemma_view_rules_push(rr_mid, raised_rules@.last());
                    assert(view_rules(raised_rules@) == view_rules(rr_mid).push(childv));
                    // what the channel of raised rules has gained since entry
                    assert(view_rules(raised_rules@).take(r0.len() as int) =~= r0);
                    assert(view_rules(raised_rules@).skip(r0.len() as int) =~= (racc_pre + sub)
                        + seq![childv]);
                    // one step of the raising list
                    assert(spec_raise_list(nsv_pre, outerv) == (sub + seq![childv])
                        + spec_raise_list(nsv_pre.drop_first(), outerv));
                    assert(((racc_pre + sub) + seq![childv]) + spec_raise_list(
                        nsv_pre.drop_first(),
                        outerv,
                    ) =~= racc_pre + ((sub + seq![childv]) + spec_raise_list(
                        nsv_pre.drop_first(),
                        outerv,
                    )));
                }
            }
            let empty_nested: Vec<Rule> = Vec::new();
            proof {
                assert(view_rules(empty_nested@) =~= Seq::<RuleModel>::empty());
                assert(spec_raise_list(view_rules(ns@), outerv) =~= Seq::<RuleModel>::empty());
                assert(view_rules(raised_rules@).skip(r0.len() as int) + Seq::<
                    RuleModel,
                >::empty() =~= view_rules(raised_rules@).skip(r0.len() as int));
                assert(view_rules(raised_rules@) =~= view_rules(raised_rules@).take(
                    r0.len() as int,
                ) + view_rules(raised_rules@).skip(r0.len() as int));
            }
            rule.nested_rules = Some(empty_nested);
        },
    }
}


/// Flattens all nested rules of the stylesheet: every rule entry is
/// rewritten in place (keeping its own declarations, its nested list left
/// empty), and all raised rules are appended to the top-level entry list,
/// in traversal order.
pub fn raise_nested_rules(stylesheet: &mut StyleSheet)
    ensures
        final(stylesheet)@ == spec_raise_sheet(old(stylesheet)@),
{
    let ghost es0 = view_entries(old(stylesheet).entries@);
    let mut raised: Vec<Rule> = Vec::new();
    let mut pending: Vec<Entry> = Vec::new();
    core::mem::swap(&mut stylesheet.entries, &mut pending);
    let mut done: Vec<Entry> = Vec::new();
    proof {
        assert(view_entries(done@) =~= Seq::<EntryModel>::empty());
        assert(view_rules(raised@) =~= Seq::<RuleModel>::empty());
        assert(Seq::<EntryModel>::empty() + spec_raise_entries(es0).0 =~= spec_raise_entries(
            es0,
        ).0);
        assert(Seq::<RuleModel>::empty() + spec_raise_entries(es0).1 =~= spec_raise_entries(
            es0,
        ).1);
    }
    while pending.len() > 0
        invariant
            es0 == view_entries(old(stylesheet).entries@),
            spec_raise_entries(es0).0 == view_entries(done@) + spec_raise_entries(
                view_entries(pending@),
            ).0,
            spec_raise_entries(es0).1 == view_rules(raised@) + spec_raise_entries(
                view_entries(pending@),
            ).1,
        decreases pending.len(),
    {
        let ghost p_pre = pending@;
        let ghost pv_pre = view_entries(pending@);
        let e = pending.remove(0);
        proof {
            assert(e@ == pv_pre[0]);
            assert(view_entries(pending@) =~= pv_pre.drop_first());
        }
        match e {
            Entry::Rule(mut r) => {
                let ghost rv = r@;
                let ghost racc_pre = view_rules(raised@);
                raise_subrules(&mut r, &mut raised);
                let ghost d_pre = view_entries(done@);
                let ghost r2v = r@;
                done.push(Entry::Rule(r));
                proof {
                    let sub = spec_raise_rule(rv).1;
                    assert(view_entries(done@) =~= d_pre.push(EntryModel::Rule(r2v)));
                    assert(d_pre.push(EntryModel::Rule(r2v)) + spec_raise_entries(
                        pv_pre.drop_first(),
                    ).0 =~= d_pre + (seq![EntryModel::Rule(r2v)] + spec_raise_entries(
                        pv_pre.drop_first(),
                    ).0));
                    assert((racc_pre + sub) + spec_raise_entries(pv_pre.drop_first()).1
                        =~= racc_pre + (sub + spec_raise_entries(pv_pre.drop_first()).1));
                }
            },
            Entry::Comment(c) => {
                let ghost d_pre = view_entries(done@);
                let ghost cv = c@;
                done.push(Entry::Comment(c));
                proof {
                    assert(view_entries(done@) =~= d_pre.push(EntryModel::Comment(cv)));
                    assert(d_pre.push(EntryModel::Comment(cv)) + spec_raise_entries(
                        pv_pre.drop_first(),
                    ).0 =~= d_pre + (seq![EntryModel::Comment(cv)] + spec_raise_entries(
                        pv_pre.drop_first(),
                    ).0));
                    assert(view_rules(raised@) + (Seq::<RuleModel>::empty() + spec_raise_entries(
                        pv_pre.drop_first(),
                    ).1) =~= view_rules(raised@) + spec_raise_entries(pv_pre.drop_first()).1);
                }
            },
        }
    }
    proof {
        assert(view_entries(pending@) =~= Seq::<EntryModel>::empty());
        assert(view_entries(done@) + Seq::<EntryModel>::empty() =~= view_entries(done@));
        assert(view_rules(raised@) + Seq::<RuleModel>::empty() =~= view_rules(raised@));
        assert(rules_as_entries(view_rules(raised@)) =~= rules_as_entries(spec_raise_entries(
            es0,
        ).1));
    }
    while raised.len() > 0
        invariant
            es0 == view_entries(old(stylesheet).entries@),
            view_entries(done@) + rules_as_entries(view_rules(raised@)) == spec_raise_entries(
                es0,
            ).0 + rules_as_entries(spec_raise_entries(es0).1),
        decreases raised.len(),
    {
        let ghost r_pre = raised@;
        let ghost rv_pre = view_rules(raised@);
        let ghost d_pre = view_entries(done@);
        let r = raised.remove(0);
        proof {
            lemma_view_rules(r_pre);
            lemma_view_rules(raised@);
            assert(r@ == rv_pre[0]);
            assert(view_rules(raised@) =~= rv_pre.drop_first());
        }
        done.push(Entry::Rule(r));
        proof {
            assert(view_entries(done@) =~= d_pre.push(EntryModel::Rule(rv_pre[0])));
            assert(rules_as_entries(rv_pre) =~= seq![EntryModel::Rule(rv_pre[0])]
                + rules_as_entries(rv_pre.drop_first()));
            assert(d_pre.push(EntryModel::Rule(rv_pre[0])) + rules_as_entries(rv_pre.drop_first())
                =~= d_pre + rules_as_entries(rv_pre));
        }
    }
    proof {
        assert(rules_as_entries(view_rules(raised@)) =~= Seq::<EntryModel>::empty());
        assert(view_entries(done@) + Seq::<EntryModel>::empty() =~= view_entries(done@));
    }
    stylesheet.entries = done;
}


/// Relies on `String: FromIterator<char>`: collecting characters yields
/// the string of exactly those characters, in order.
#[verifier::external_body]
pub(crate) fn string_from_chars(v: &Vec<char>) -> (r: String)
    ensures
        r@ == v@,
{
    v.iter().collect()
}


/// The settings a caller left unspecified are the pretty-printing ones.
pub open spec fn settings_or_default(o: Option<ToStringSettings>) -> SettingsModel {
    match o {
        Some(s) => s@,
        None => SettingsModel { minify: false, indent_with: "    "@ },
    }
}

/// Rendering the entries from index `i` on: rules by [`spec_render_rule`]
/// at depth 0, comments wrapped in `/*`..`*/` (dropped when minifying),
/// one blank line between entries unless minifying.
pub open spec fn spec_render_entries(
    es: Seq<EntryModel>,
    i: int,
    st: RenderState,
    settings: SettingsModel,
) -> RenderState
    decreases es.len() - i,
{
    if i < 0 || i >= es.len() {
        st
    } else {
        let st1 = match es[i] {
            EntryModel::Rule(r) => spec_render_rule(r, st, settings, 0),
            EntryModel::Comment(c) => if !settings.minify {
                rb_push_str(rb_push_multiline_from(rb_push_str(st, "/*"@), c, 0), "*/"@)
            } else {
                st
            },
        };
        let st2 = if !settings.minify && i + 1 < es.len() {
            rb_new_line(rb_new_line(st1))
        } else {
            st1
        };
        spec_render_entries(es, i + 1, st2, settings)
    }
}

/// The text a stylesheet renders to under `settings`.
pub open spec fn spec_rendered(sh: StyleSheetModel, settings: SettingsModel) -> Seq<char> {
    spec_render_entries(sh.entries, 0, rb_init_plain(), settings).out
}

/// The text a stylesheet renders to under `settings` together with the
/// JSON of the source map built against `reg` while rendering.
pub open spec fn spec_rendered_with_map(
    sh: StyleSheetModel,
    reg: Seq<(Seq<char>, Option<Seq<char>>)>,
    settings: SettingsModel,
) -> (Seq<char>, Seq<char>) {
    let fin = spec_render_entries(sh.entries, 0, rb_init_with_map(reg), settings);
    (
        fin.out,
        match fin.map {
            Some(m) => sm_json(m),
            None => Seq::empty(),
        },
    )
}

impl StyleSheet {
    /// Renders every entry into the buffer; see [`spec_render_entries`] for
    /// exactly what is appended.
    pub fn to_string_from_buffer(&self, buf: &mut RenderBuffer, settings: &ToStringSettings)
        requires
            rb_wf(old(buf)@),
        ensures
            final(buf)@ == spec_render_entries(view_entries(self.entries@), 0, old(buf)@, settings@),
            rb_wf(final(buf)@),
    {
        let ghost ev = view_entries(self.entries@);
        let n = self.entries.len();
        let mut i: usize = 0;
        while i < n
            invariant
                n == self.entries@.len(),
                i <= n,
                ev == view_entries(self.entries@),
                rb_wf(buf@),
                spec_render_entries(ev, 0, old(buf)@, settings@) == spec_render_entries(
                    ev,
                    i as int,
                    buf@,
                    settings@,
                ),
            decreases n - i,
        {
            match &self.entries[i] {
                Entry::Rule(rule) => {
                    rule.to_string_from_buffer(buf, settings, 0);
                },
                Entry::Comment(comment) => {
                    if !settings.minify {
                        buf.push_str("/*");
                        buf.push_str_contains_new_line(comment.as_str());
                        buf.push_str("*/");
                    }
                },
            }
            if !settings.minify && i + 1 < n {
                buf.push_new_line();
                buf.push_new_line();
            }
            i = i + 1;
        }
    }

    /// The stylesheet rendered to text: exactly [`spec_rendered`] of it,
    /// under the given or the default settings.
    pub fn to_string(&self, settings: Option<ToStringSettings>) -> (r: String)
        ensures
            r@ == spec_rendered(self@, settings_or_default(settings)),
    {
        let ghost sm = settings_or_default(settings);
        let s = match settings {
            Some(x) => x,
            None => ToStringSettings::default(),
        };
        let mut buf = RenderBuffer::new_plain();
        self.to_string_from_buffer(&mut buf, &s);
        let parts = buf.finish();
        string_from_chars(&parts.0)
    }

    /// The stylesheet rendered to text, together with the JSON source map
    /// built while rendering: exactly [`spec_rendered_with_map`] of it.
    pub fn to_string_with_source_map(
        &self,
        settings: Option<ToStringSettings>,
        registry: &SourceRegistry,
    ) -> (r: (String, String))
        ensures
            r.0@ == spec_rendered_with_map(self@, registry@, settings_or_default(settings)).0,
            r.1@ == spec_rendered_with_map(self@, registry@, settings_or_default(settings)).1,
    {
        let ghost sm = settings_or_default(settings);
        let s = match settings {
            Some(x) => x,
            None => ToStringSettings::default(),
        };
        let mut buf = RenderBuffer::new_with_map(registry);
        self.to_string_from_buffer(&mut buf, &s);
        let parts = buf.finish();
        let text = string_from_chars(&parts.0);
        let json = match parts.1 {
            Some(map) => map.to_string(),
            None => {
                proof {
                    reveal_strlit("");
                    assert(""@ =~= Seq::<char>::empty());
                }
                String::from_str("")
            },
        };
        (text, json)
    }

    /// The length in characters of what [`StyleSheet::to_string`] would
    /// return, without building the string.
    pub fn length(&self, settings: Option<ToStringSettings>) -> (r: usize)
        ensures
            r == spec_rendered(self@, settings_or_default(settings)).len(),
    {
        let ghost sm = settings_or_default(settings);
        let s = match settings {
            Some(x) => x,
            None => ToStringSettings::default(),
        };
        let mut buf = RenderBuffer::new_plain();
        self.to_string_from_buffer(&mut buf, &s);
        let parts = buf.finish();
        parts.0.len()
    }
}

/// What the standard padded base64 encoding of a byte sequence is: a
/// function of the bytes alone.
pub uninterp spec fn base64_of(b: Seq<u8>) -> Seq<char>;

/// Relies on base64's `STANDARD` engine: a deterministic, padded encoding
/// of exactly the input bytes, four output characters per three input
/// bytes.
#[verifier::external_body]
fn base64_encode(s: &str) -> (r: String)
    requires
        s.spec_bytes().len() * 4 <= usize::MAX,
    ensures
        r@ == base64_of(s.spec_bytes()),
        r@.len() == 4 * ((s.spec_bytes().len() + 2) / 3),
{
    base64::Engine::encode(&base64::engine::general_purpose::STANDARD, s.as_bytes())
}

/// Appends the inline `sourceMappingURL` comment to the rendered text: the
/// source-map JSON as a base64 data URL, as build tools expect it.
pub fn attach_inline_source_map(output: String, source_map_json: &str) -> (r: String)
    requires
        source_map_json.spec_bytes().len() * 4 <= usize::MAX,
    ensures
        r@ == output@ + "\n/*# sourceMappingURL=data:application/json;base64,"@ + base64_of(
            source_map_json.spec_bytes(),
        ) + "*/"@,
{
    let mut out = output;
    out.append("\n/*# sourceMappingURL=data:application/json;base64,");
    let encoded = base64_encode(source_map_json);
    out.append(encoded.as_str());
    out.append("*/");
    out
}

} // verus!

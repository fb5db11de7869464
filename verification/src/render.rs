//! The render buffer: an append-only character buffer that optionally
//! forwards every write to the source-map builder, advancing its generated
//! line and column counters, and translating node spans to original
//! line/column pairs through the source registry.

use vstd::prelude::*;

use crate::source_map::{
    sm_add_mapping, sm_add_new_line, sm_add_to_column, sm_empty, SourceMap, SourceMapModel,
    SourceRegistry,
};
use crate::span::Span;

verus! {

/// Mathematical image of a [`RenderBuffer`].
#[verifier::ext_equal]
pub struct RenderState {
    /// The rendered text so far.
    pub out: Seq<char>,
    /// The source map being built, when one was asked for.
    pub map: Option<SourceMapModel>,
    /// The registry the buffer resolves source ids against.
    pub reg: Seq<(Seq<char>, Option<Seq<char>>)>,
}

/// How many UTF-16 code units a character occupies: two beyond the basic
/// multilingual plane, one otherwise. Source-map columns count these, per
/// the source-map convention, not characters or bytes.
pub open spec fn utf16_len(c: char) -> int {
    if (c as int) < 0x10000 {
        1
    } else {
        2
    }
}

/// The UTF-16 code units occupied by the first `p` characters of `s`.
pub open spec fn utf16_width(s: Seq<char>, p: int) -> int
    decreases p,
{
    if p <= 0 {
        0
    } else {
        utf16_width(s, p - 1) + utf16_len(s[p - 1])
    }
}

fn char_utf16_len(c: char) -> (r: usize)
    ensures
        r as int == utf16_len(c),
        1 <= r <= 2,
{
    if (c as u32) < 0x10000 {
        1
    } else {
        2
    }
}

/// The buffer's counters never outrun the text (a character is at most two
/// UTF-16 code units): what grounds the absence of counter overflow.
pub open spec fn rb_wf(st: RenderState) -> bool {
    match st.map {
        Some(m) => 0 <= m.column <= 2 * st.out.len() && 0 <= m.last_column <= 2 * st.out.len()
            && 0 <= m.line <= st.out.len(),
        None => true,
    }
}

/// One character appended; the generated column advances by its UTF-16
/// width.
pub open spec fn rb_push(st: RenderState, c: char) -> RenderState {
    RenderState {
        out: st.out.push(c),
        map: match st.map {
            Some(m) => Some(sm_add_to_column(m, utf16_len(c))),
            None => None,
        },
        ..st
    }
}

/// A newline-free text appended; the generated column advances by its
/// UTF-16 width.
pub open spec fn rb_push_str(st: RenderState, s: Seq<char>) -> RenderState {
    RenderState {
        out: st.out + s,
        map: match st.map {
            Some(m) => Some(sm_add_to_column(m, utf16_width(s, s.len() as int))),
            None => None,
        },
        ..st
    }
}

/// A newline appended; the source map starts a new generated line.
pub open spec fn rb_new_line(st: RenderState) -> RenderState {
    RenderState {
        out: st.out.push('\n'),
        map: match st.map {
            Some(m) => Some(sm_add_new_line(m)),
            None => None,
        },
        ..st
    }
}

/// Text appended character by character, `\n` treated as a new line:
/// how comments, which may span lines, are written.
pub open spec fn rb_push_multiline_from(st: RenderState, s: Seq<char>, i: int) -> RenderState
    decreases s.len() - i,
{
    if i < 0 || i >= s.len() {
        st
    } else if s[i] == '\n' {
        rb_push_multiline_from(rb_new_line(st), s, i + 1)
    } else {
        rb_push_multiline_from(rb_push(st, s[i]), s, i + 1)
    }
}

/// `s` appended `n` times.
pub open spec fn rb_push_repeat(st: RenderState, s: Seq<char>, n: int) -> RenderState
    decreases n,
{
    if n <= 0 {
        st
    } else {
        rb_push_repeat(rb_push_str(st, s), s, n - 1)
    }
}

/// Newlines in `content` before position `p`.
pub open spec fn nl_count(s: Seq<char>, p: int) -> int
    decreases p,
{
    if p <= 0 {
        0
    } else {
        nl_count(s, p - 1) + (if s[p - 1] == '\n' {
            1int
        } else {
            0int
        })
    }
}

/// The position right after the last newline before `p` (0 when none): the
/// start of the line `p` lies on.
pub open spec fn line_start(s: Seq<char>, p: int) -> int
    decreases p,
{
    if p <= 0 {
        0
    } else if s[p - 1] == '\n' {
        p
    } else {
        line_start(s, p - 1)
    }
}

/// A mapping recorded for the span's start: its source resolved through
/// the registry, the character offset translated to a one-indexed line and
/// a column in UTF-16 code units since the line start. Without a map, an
/// unknown source, a source without content, or an offset past the content
/// (or beyond the machine's addressable half-range), nothing changes.
pub open spec fn rb_add_mapping(st: RenderState, sp: Span) -> RenderState {
    match st.map {
        None => st,
        Some(m) => {
            if sp.source_id.0 < st.reg.len() && st.reg[sp.source_id.0 as int].1 is Some
                && sp.start <= st.reg[sp.source_id.0 as int].1->0.len() && sp.start <= usize::MAX
                / 2 {
                let content = st.reg[sp.source_id.0 as int].1->0;
                let line1 = 1 + nl_count(content, sp.start as int);
                let col = utf16_width(content, sp.start as int) - utf16_width(
                    content,
                    line_start(content, sp.start as int),
                );
                RenderState {
                    map: Some(sm_add_mapping(m, line1, col, sp.source_id.0, st.reg)),
                    ..st
                }
            } else {
                st
            }
        },
    }
}

/// The empty buffer state a plain (map-less) buffer starts from.
pub open spec fn rb_init_plain() -> RenderState {
    RenderState {
        out: Seq::empty(),
        map: None,
        reg: Seq::empty(),
    }
}

/// The empty buffer state a map-building buffer starts from, over `reg`.
pub open spec fn rb_init_with_map(reg: Seq<(Seq<char>, Option<Seq<char>>)>) -> RenderState {
    RenderState {
        out: Seq::empty(),
        map: Some(sm_empty()),
        reg: reg,
    }
}

/// The append-only output buffer of the renderer; see [`RenderState`] for
/// what each operation does.
pub struct RenderBuffer {
    out: Vec<char>,
    map: Option<SourceMap>,
    registry: SourceRegistry,
}

impl View for RenderBuffer {
    type V = RenderState;

    closed spec fn view(&self) -> RenderState {
        RenderState {
            out: self.out@,
            map: match self.map {
                Some(m) => Some(m@),
                None => None,
            },
            reg: self.registry@,
        }
    }
}

impl RenderBuffer {
    /// A buffer that only collects text.
    pub fn new_plain() -> (r: RenderBuffer)
        ensures
            r@ == rb_init_plain(),
            rb_wf(r@),
    {
        let r = RenderBuffer { out: Vec::new(), map: None, registry: SourceRegistry::new() };
        proof {
            assert(r@ =~= rb_init_plain());
        }
        r
    }

    /// A buffer that also builds a source map, resolving ids against a copy
    /// of `registry`.
    pub fn new_with_map(registry: &SourceRegistry) -> (r: RenderBuffer)
        ensures
            r@ == rb_init_with_map(registry@),
            rb_wf(r@),
    {
        let r = RenderBuffer {
            out: Vec::new(),
            map: Some(SourceMap::new()),
            registry: registry.duplicate(),
        };
        proof {
            assert(r@ =~= rb_init_with_map(registry@));
        }
        r
    }

    /// Appends one character.
    pub fn push(&mut self, c: char)
        requires
            rb_wf(old(self)@),
        ensures
            final(self)@ == rb_push(old(self)@, c),
            rb_wf(final(self)@),
    {
        let w = char_utf16_len(c);
        self.out.push(c);
        proof {
            assert(self.out@.len() == vstd::std_specs::vec::spec_vec_len(&self.out));
        }
        match &mut self.map {
            Some(m) => {
                m.add_to_column(w);
            },
            None => {},
        }
        proof {
            assert(final(self)@ =~= rb_push(old(self)@, c));
        }
    }

    /// Appends a newline-free text.
    pub fn push_str(&mut self, s: &str)
        requires
            rb_wf(old(self)@),
        ensures
            final(self)@ == rb_push_str(old(self)@, s@),
            rb_wf(final(self)@),
    {
        let n = s.unicode_len();
        let mut i: usize = 0;
        let ghost out0 = self.out@;
        while i < n
            invariant
                n == s@.len(),
                i <= n,
                self.out@ == out0 + s@.take(i as int),
                self@.reg == old(self)@.reg,
                (self@.map is Some <==> old(self)@.map is Some),
                self@.map is Some ==> self@.map->0 == sm_add_to_column(
                    old(self)@.map->0,
                    utf16_width(s@, i as int),
                ),
                rb_wf(old(self)@),
                rb_wf(self@),
            decreases n - i,
        {
            let c = s.get_char(i);
            let w = char_utf16_len(c);
            self.out.push(c);
            proof {
                assert(self.out@ =~= out0 + s@.take(i as int + 1));
                assert(self.out@.len() == vstd::std_specs::vec::spec_vec_len(&self.out));
            }
            match &mut self.map {
                Some(m) => {
                    m.add_to_column(w);
                },
                None => {},
            }
            i = i + 1;
        }
        proof {
            assert(s@.take(n as int) =~= s@);
            assert(final(self)@ =~= rb_push_str(old(self)@, s@));
        }
    }

    /// Appends a newline and tells the source map.
    pub fn push_new_line(&mut self)
        requires
            rb_wf(old(self)@),
        ensures
            final(self)@ == rb_new_line(old(self)@),
            rb_wf(final(self)@),
    {
        self.out.push('\n');
        proof {
            assert(self.out@.len() == vstd::std_specs::vec::spec_vec_len(&self.out));
        }
        match &mut self.map {
            Some(m) => {
                m.add_new_line();
            },
            None => {},
        }
        proof {
            assert(final(self)@ =~= rb_new_line(old(self)@));
        }
    }

    /// Appends text that may hold newlines, character by character.
    pub fn push_str_contains_new_line(&mut self, s: &str)
        requires
            rb_wf(old(self)@),
        ensures
            final(self)@ == rb_push_multiline_from(old(self)@, s@, 0),
            rb_wf(final(self)@),
    {
        let n = s.unicode_len();
        let mut i: usize = 0;
        while i < n
            invariant
                n == s@.len(),
                i <= n,
                rb_wf(self@),
                rb_push_multiline_from(old(self)@, s@, 0) == rb_push_multiline_from(
                    self@,
                    s@,
                    i as int,
                ),
            decreases n - i,
        {
            let c = s.get_char(i);
            if c == '\n' {
                self.push_new_line();
            } else {
                self.push(c);
            }
            i = i + 1;
        }
    }

    /// Appends `s` `n` times.
    pub fn push_repeat(&mut self, s: &str, n: usize)
        requires
            rb_wf(old(self)@),
        ensures
            final(self)@ == rb_push_repeat(old(self)@, s@, n as int),
            rb_wf(final(self)@),
    {
        let mut k: usize = 0;
        while k < n
            invariant
                k <= n,
                rb_wf(self@),
                rb_push_repeat(old(self)@, s@, n as int) == rb_push_repeat(
                    self@,
                    s@,
                    n - k,
                ),
            decreases n - k,
        {
            self.push_str(s);
            k = k + 1;
        }
    }

    /// Records a mapping from the current generated position back to the
    /// start of `pos`; see [`rb_add_mapping`].
    pub fn add_mapping(&mut self, pos: &Span)
        requires
            rb_wf(old(self)@),
        ensures
            final(self)@ == rb_add_mapping(old(self)@, *pos),
            rb_wf(final(self)@),
    {
        let is_mapped = matches!(&self.map, Some(_));
        if !is_mapped {
            return ;
        }
        let fetched = self.registry.fetch(pos.source_id);
        let content = match fetched {
            Some((_name, Some(content))) => content,
            _ => {
                return ;
            },
        };
        let start = pos.start;
        if start > content.as_str().unicode_len() || start > usize::MAX / 2 {
            return ;
        }
        let mut nl: usize = 0;
        let mut w: usize = 0;
        let mut lw: usize = 0;
        let ghost cv = content@;
        let mut j: usize = 0;
        while j < start
            invariant
                start <= cv.len(),
                start <= usize::MAX / 2,
                content@ == cv,
                j <= start,
                nl as int == nl_count(cv, j as int),
                w as int == utf16_width(cv, j as int),
                lw as int == utf16_width(cv, line_start(cv, j as int)),
                nl <= j,
                lw <= w,
                w <= 2 * j,
            decreases start - j,
        {
            let c = content.as_str().get_char(j);
            let cw = char_utf16_len(c);
            if c == '\n' {
                nl = nl + 1;
                lw = w + cw;
            }
            w = w + cw;
            j = j + 1;
        }
        proof {
            assert(self.out@.len() == vstd::std_specs::vec::spec_vec_len(&self.out));
        }
        match &mut self.map {
            Some(m) => {
                m.add_mapping(1 + nl, w - lw, pos.source_id, &self.registry);
            },
            None => {},
        }
        proof {
            assert(final(self)@ =~= rb_add_mapping(old(self)@, *pos));
        }
    }

    /// The rendered text and, if one was built, the source map.
    pub fn finish(self) -> (r: (Vec<char>, Option<SourceMap>))
        ensures
            r.0@ == self@.out,
            (r.1 is Some <==> self@.map is Some),
            r.1 is Some ==> r.1->0@ == self@.map->0,
    {
        (self.out, self.map)
    }
}

} // verus!

//! The source-map builder: a VLQ/base64 delta encoder accumulating a
//! Source-Map-v3 `mappings` string, the registry resolving source
//! identifiers to names and contents, and the final JSON serialisation.

use vstd::prelude::*;

use crate::span::{SourceId, NULL_SOURCE_ID};

verus! {

/// A signed value folded into the VLQ bit layout: shifted left one bit,
/// the sign in the low bit.
pub open spec fn vlq_fold(value: int) -> nat {
    if value < 0 {
        (2 * (-value) + 1) as nat
    } else {
        (2 * value) as nat
    }
}

/// The folded value split into base-32 digits, least significant first,
/// each but the last carrying the continuation bit (+32).
pub open spec fn vlq_digits(v: nat) -> Seq<nat>
    decreases v,
{
    if v < 32 {
        seq![v]
    } else {
        seq![v % 32 + 32] + vlq_digits(v / 32)
    }
}

/// The standard base64 alphabet, as bytes.
pub open spec fn b64_byte(d: int) -> u8 {
    if d < 26 {
        (65 + d) as u8
    } else if d < 52 {
        (97 + d - 26) as u8
    } else if d < 62 {
        (48 + d - 52) as u8
    } else if d == 62 {
        43u8
    } else {
        47u8
    }
}

pub open spec fn b64_char(d: int) -> char {
    b64_byte(d) as char
}

/// The VLQ encoding of a signed integer: its folded digits through the
/// base64 alphabet.
pub open spec fn vlq_chars(value: int) -> Seq<char> {
    vlq_digits(vlq_fold(value)).map_values(|d: nat| b64_char(d as int))
}

fn b64_char_of(d: u8) -> (c: char)
    requires
        d < 64,
    ensures
        c == b64_char(d as int),
{
    let b: u8 = if d < 26 {
        65 + d
    } else if d < 52 {
        97 + (d - 26)
    } else if d < 62 {
        48 + (d - 52)
    } else if d == 62 {
        43
    } else {
        47
    };
    b as char
}

/// Emits the base-32 digits of the folded value `v` through the alphabet.
fn vlq_emit(buf: &mut Vec<char>, v: u128)
    ensures
        final(buf)@ == old(buf)@ + vlq_digits(v as nat).map_values(|d: nat| b64_char(d as int)),
{
    let ghost b0 = old(buf)@;
    let ghost v0 = v as nat;
    let mut w = v;
    loop
        invariant
            b0 == old(buf)@,
            v0 == v as nat,
            buf@ + vlq_digits(w as nat).map_values(|d: nat| b64_char(d as int)) == b0 + vlq_digits(
                v0,
            ).map_values(|d: nat| b64_char(d as int)),
        decreases w,
    {
        let clamped = (w % 32) as u8;
        let vnext = w / 32;
        if vnext > 0 {
            let ghost pre = buf@;
            let ghost vpre = w as nat;
            buf.push(b64_char_of(clamped + 32));
            proof {
                assert(vlq_digits(vpre) == seq![vpre % 32 + 32] + vlq_digits(vpre / 32));
                assert(vlq_digits(vpre).map_values(|d: nat| b64_char(d as int)) =~= seq![
                    b64_char((vpre % 32 + 32) as int)] + vlq_digits(vpre / 32).map_values(
                    |d: nat| b64_char(d as int),
                ));
                assert(buf@ =~= pre + seq![b64_char((vpre % 32 + 32) as int)]);
                assert(buf@ + vlq_digits(vpre / 32).map_values(|d: nat| b64_char(d as int)) =~= pre
                    + vlq_digits(vpre).map_values(|d: nat| b64_char(d as int)));
            }
            w = vnext;
        } else {
            let ghost pre = buf@;
            let ghost vpre = w as nat;
            buf.push(b64_char_of(clamped));
            proof {
                assert(vlq_digits(vpre) == seq![vpre]);
                assert(vlq_digits(vpre).map_values(|d: nat| b64_char(d as int)) =~= seq![b64_char(
                    vpre as int,
                )]);
                assert(buf@ =~= pre + vlq_digits(vpre).map_values(|d: nat| b64_char(d as int)));
                assert(buf@ + Seq::<char>::empty() =~= buf@);
            }
            return ;
        }
    }
}

/// Appends the VLQ encoding of `value` to the buffer: the value shifted
/// left one bit with its sign folded into the low bit, split into base-32
/// digits (continuation bit on all but the last), mapped through the
/// base64 alphabet.
pub fn vlq_encode_integer_to_buffer(buf: &mut Vec<char>, value: i64)
    ensures
        final(buf)@ == old(buf)@ + vlq_chars(value as int),
{
    let folded: u128 = if value < 0 {
        ((-(value as i128)) as u128) * 2 + 1
    } else {
        (value as u128) * 2
    };
    proof {
        assert(folded as nat == vlq_fold(value as int));
    }
    vlq_emit(buf, folded);
}

/// Appends the VLQ encoding of the difference `a - b`.
fn vlq_encode_diff(buf: &mut Vec<char>, a: usize, b: usize)
    ensures
        final(buf)@ == old(buf)@ + vlq_chars(a - b),
{
    let folded: u128 = if a >= b {
        ((a - b) as u128) * 2
    } else {
        ((b - a) as u128) * 2 + 1
    };
    proof {
        assert(folded as nat == vlq_fold(a - b));
    }
    vlq_emit(buf, folded);
}

/// Appends the VLQ encoding of the difference `a - b` of two generated
/// column counters; the bound ties them to the length of a text held in
/// memory.
fn vlq_encode_diff_u128(buf: &mut Vec<char>, a: u128, b: u128)
    requires
        a <= 2 * (usize::MAX as int),
        b <= 2 * (usize::MAX as int),
    ensures
        final(buf)@ == old(buf)@ + vlq_chars(a - b),
{
    let folded: u128 = if a >= b {
        (a - b) * 2
    } else {
        (b - a) * 2 + 1
    };
    proof {
        assert(folded as nat == vlq_fold(a - b));
    }
    vlq_emit(buf, folded);
}

/// Appends the VLQ encoding of the non-negative value `a`.
fn vlq_encode_usize(buf: &mut Vec<char>, a: usize)
    ensures
        final(buf)@ == old(buf)@ + vlq_chars(a as int),
{
    vlq_encode_diff(buf, a, 0);
}

/// The image of one registry or source-map source entry.
pub open spec fn view_source_entry(p: (String, Option<String>)) -> (Seq<char>, Option<Seq<char>>) {
    (
        p.0@,
        match p.1 {
            Some(c) => Some(c@),
            None => None,
        },
    )
}

/// The images of a list of source entries.
pub open spec fn view_sources(v: Seq<(String, Option<String>)>) -> Seq<
    (Seq<char>, Option<Seq<char>>),
> {
    v.map_values(|p: (String, Option<String>)| view_source_entry(p))
}

/// The registry mapping a [`SourceId`] to the display name and original
/// text of its source buffer, owned by the build driver and consulted by
/// the source-map builder.
pub struct SourceRegistry {
    sources: Vec<(String, Option<String>)>,
}

impl View for SourceRegistry {
    type V = Seq<(Seq<char>, Option<Seq<char>>)>;

    closed spec fn view(&self) -> Seq<(Seq<char>, Option<Seq<char>>)> {
        view_sources(self.sources@)
    }
}

fn dup_opt_content(o: &Option<String>) -> (r: Option<String>)
    ensures
        (r is Some <==> o is Some),
        r is Some ==> r->0 == o->0,
{
    match o {
        Some(c) => Some(c.clone()),
        None => None,
    }
}

impl SourceRegistry {
    /// An empty registry.
    pub fn new() -> (r: SourceRegistry)
        ensures
            r@ == Seq::<(Seq<char>, Option<Seq<char>>)>::empty(),
    {
        let r = SourceRegistry { sources: Vec::new() };
        proof {
            assert(r@ =~= Seq::<(Seq<char>, Option<Seq<char>>)>::empty());
        }
        r
    }

    /// Registers one source buffer and returns its identifier: the index
    /// it will be known under.
    pub fn register(&mut self, name: String, content: Option<String>) -> (id: SourceId)
        requires
            old(self)@.len() < NULL_SOURCE_ID,
        ensures
            final(self)@ == old(self)@.push(
                (
                    name@,
                    match content {
                        Some(c) => Some(c@),
                        None => None,
                    },
                ),
            ),
            id.0 == old(self)@.len(),
    {
        let id = SourceId(self.sources.len() as u32);
        let ghost pre = self.sources@;
        self.sources.push((name, content));
        proof {
            assert(view_sources(self.sources@) =~= view_sources(pre).push(
                view_source_entry(self.sources@.last()),
            ));
        }
        id
    }

    /// The name and content registered under `id`, if any.
    pub fn fetch(&self, id: SourceId) -> (r: Option<(String, Option<String>)>)
        ensures
            (id.0 < self@.len()) ==> r is Some && view_source_entry(r->0) == self@[id.0 as int],
            (id.0 >= self@.len()) ==> r is None,
    {
        if (id.0 as usize) < self.sources.len() {
            let name = self.sources[id.0 as usize].0.clone();
            let content = dup_opt_content(&self.sources[id.0 as usize].1);
            Some((name, content))
        } else {
            None
        }
    }

    /// A structurally equal copy.
    pub fn duplicate(&self) -> (r: SourceRegistry)
        ensures
            r@ == self@,
    {
        let mut v: Vec<(String, Option<String>)> = Vec::new();
        let n = self.sources.len();
        for i in 0..n
            invariant
                n == self.sources@.len(),
                v@.len() == i,
                forall|j: int| 0 <= j < i ==> v@[j] == self.sources@[j],
        {
            let name = self.sources[i].0.clone();
            let content = dup_opt_content(&self.sources[i].1);
            v.push((name, content));
        }
        proof {
            assert(v@ =~= self.sources@);
        }
        SourceRegistry { sources: v }
    }
}

/// Mathematical image of a [`SourceMap`].
pub struct SourceMapModel {
    /// The accumulated `mappings` text.
    pub buf: Seq<char>,
    /// Generated position the renderer has reached.
    pub line: int,
    pub column: int,
    /// The last generated line that received a mapping, if any: decides the
    /// `,` separator.
    pub last_line: Option<int>,
    /// Delta bases for the four VLQ fields.
    pub last_column: int,
    pub last_source_line: int,
    pub last_source_column: int,
    /// Sources interned so far, in first-reference order.
    pub sources: Seq<(Seq<char>, Option<Seq<char>>)>,
    /// Which source id sits at which index of `sources`.
    pub sources_map: Seq<(u32, int)>,
}

/// The index interned for `sid`, if any.
pub open spec fn sm_lookup(map: Seq<(u32, int)>, sid: u32) -> Option<int>
    decreases map.len(),
{
    if map.len() == 0 {
        None
    } else if map[0].0 == sid {
        Some(map[0].1)
    } else {
        sm_lookup(map.drop_first(), sid)
    }
}

/// A new generated line: `;` is appended and the per-line column delta
/// base resets.
pub open spec fn sm_add_new_line(m: SourceMapModel) -> SourceMapModel {
    SourceMapModel { buf: m.buf + seq![';'], line: m.line + 1, column: 0, last_column: 0, ..m }
}

/// The generated column advances by `length` UTF-16 code units.
pub open spec fn sm_add_to_column(m: SourceMapModel, length: int) -> SourceMapModel {
    SourceMapModel { column: m.column + length, ..m }
}

/// One mapping segment: `,` when this generated line already has one, then
/// the VLQ deltas for generated column, source index (interning the source
/// on first reference), original line and original column. A source id the
/// registry does not know leaves the map unchanged.
pub open spec fn sm_add_mapping(
    m: SourceMapModel,
    original_line: int,
    original_column: int,
    sid: u32,
    reg: Seq<(Seq<char>, Option<Seq<char>>)>,
) -> SourceMapModel {
    if sm_lookup(m.sources_map, sid) is None && sid >= reg.len() {
        m
    } else {
        let idx = match sm_lookup(m.sources_map, sid) {
            Some(i) => i,
            None => m.sources.len() as int,
        };
        let sources2 = match sm_lookup(m.sources_map, sid) {
            Some(i) => m.sources,
            None => m.sources.push(reg[sid as int]),
        };
        let smap2 = match sm_lookup(m.sources_map, sid) {
            Some(i) => m.sources_map,
            None => m.sources_map.push((sid, m.sources.len() as int)),
        };
        let sep: Seq<char> = if m.last_line == Some(m.line) {
            seq![',']
        } else {
            Seq::empty()
        };
        let seg = vlq_chars(m.column - m.last_column) + vlq_chars(idx) + vlq_chars(
            original_line - 1 - m.last_source_line,
        ) + vlq_chars(original_column - m.last_source_column);
        SourceMapModel {
            buf: m.buf + sep + seg,
            last_line: Some(m.line),
            last_column: m.column,
            last_source_line: original_line - 1,
            last_source_column: original_column,
            sources: sources2,
            sources_map: smap2,
            ..m
        }
    }
}

/// Builds the `mappings` string of a
/// [source map, version 3](https://sourcemaps.info/spec.html): each segment
/// a run of VLQ deltas against the previous one, segments on one generated
/// line comma-joined, generated lines separated by `;`.
pub struct SourceMap {
    buf: Vec<char>,
    line: usize,
    /// Generated columns count UTF-16 code units, per the source-map
    /// convention, so they can run ahead of the character count — up to
    /// twice the rendered length.
    column: u128,
    last_line: Option<usize>,
    last_column: u128,
    last_source_line: usize,
    last_source_column: usize,
    sources: Vec<(String, Option<String>)>,
    sources_map: Vec<(u32, usize)>,
}

impl View for SourceMap {
    type V = SourceMapModel;

    closed spec fn view(&self) -> SourceMapModel {
        SourceMapModel {
            buf: self.buf@,
            line: self.line as int,
            column: self.column as int,
            last_line: match self.last_line {
                Some(l) => Some(l as int),
                None => None,
            },
            last_column: self.last_column as int,
            last_source_line: self.last_source_line as int,
            last_source_column: self.last_source_column as int,
            sources: view_sources(self.sources@),
            sources_map: self.sources_map@.map_values(|p: (u32, usize)| (p.0, p.1 as int)),
        }
    }
}

/// The empty source map, the state [`SourceMap::new`] returns.
pub open spec fn sm_empty() -> SourceMapModel {
    SourceMapModel {
        buf: Seq::empty(),
        line: 0,
        column: 0,
        last_line: None,
        last_column: 0,
        last_source_line: 0,
        last_source_column: 0,
        sources: Seq::empty(),
        sources_map: Seq::empty(),
    }
}

impl SourceMap {
    /// An empty source map.
    pub fn new() -> (r: SourceMap)
        ensures
            r@ == sm_empty(),
    {
        let r = SourceMap {
            buf: Vec::new(),
            line: 0,
            column: 0,
            last_line: None,
            last_column: 0,
            last_source_line: 0,
            last_source_column: 0,
            sources: Vec::new(),
            sources_map: Vec::new(),
        };
        proof {
            assert(r@.buf =~= sm_empty().buf);
            assert(r@.sources =~= sm_empty().sources);
            assert(r@.sources_map =~= sm_empty().sources_map);
        }
        r
    }

    /// Starts a new generated line.
    pub fn add_new_line(&mut self)
        requires
            old(self)@.line < usize::MAX,
        ensures
            final(self)@ == sm_add_new_line(old(self)@),
    {
        self.line = self.line + 1;
        self.buf.push(';');
        self.column = 0;
        self.last_column = 0;
        proof {
            assert(final(self)@.buf =~= sm_add_new_line(old(self)@).buf);
        }
    }

    /// Advances the generated column by `length` UTF-16 code units.
    pub fn add_to_column(&mut self, length: usize)
        requires
            old(self)@.column + length <= u128::MAX,
        ensures
            final(self)@ == sm_add_to_column(old(self)@, length as int),
    {
        self.column = self.column + (length as u128);
    }

    /// Appends a source entry directly, without interning by id.
    pub fn add_source(&mut self, name: String, content: Option<String>)
        ensures
            final(self)@ == (SourceMapModel {
                sources: old(self)@.sources.push(
                    (
                        name@,
                        match content {
                            Some(c) => Some(c@),
                            None => None,
                        },
                    ),
                ),
                ..old(self)@
            }),
    {
        let ghost pre = self.sources@;
        self.sources.push((name, content));
        proof {
            assert(view_sources(self.sources@) =~= view_sources(pre).push(
                view_source_entry(self.sources@.last()),
            ));
        }
    }

    /// Adds one mapping segment for the current generated position, back to
    /// the one-indexed `original_line` and `original_column` in the source
    /// named by `source_id`; see [`sm_add_mapping`].
    pub fn add_mapping(
        &mut self,
        original_line: usize,
        original_column: usize,
        source_id: SourceId,
        registry: &SourceRegistry,
    )
        requires
            original_line >= 1,
            old(self)@.column <= 2 * (usize::MAX as int),
            old(self)@.last_column <= 2 * (usize::MAX as int),
        ensures
            final(self)@ == sm_add_mapping(
                old(self)@,
                original_line as int,
                original_column as int,
                source_id.0,
                registry@,
            ),
    {
        let found = self.lookup(source_id.0);
        let idx: usize = match found {
            Some(i) => i,
            None => {
                match registry.fetch(source_id) {
                    Some((name, content)) => {
                        let i = self.sources.len();
                        let ghost pre = self.sources@;
                        self.sources.push((name, content));
                        proof {
                            assert(view_sources(self.sources@) =~= view_sources(pre).push(
                                registry@[source_id.0 as int],
                            ));
                        }
                        let ghost mpre = self.sources_map@.map_values(
                            |p: (u32, usize)| (p.0, p.1 as int),
                        );
                        self.sources_map.push((source_id.0, i));
                        proof {
                            assert(self.sources_map@.map_values(|p: (u32, usize)| (p.0, p.1 as int))
                                =~= mpre.push((source_id.0, i as int)));
                        }
                        i
                    },
                    None => {
                        return ;
                    },
                }
            },
        };
        match self.last_line {
            Some(last) => {
                if last == self.line {
                    self.buf.push(',');
                }
                self.last_line = Some(self.line);
            },
            None => {
                self.last_line = Some(self.line);
            },
        }
        vlq_encode_diff_u128(&mut self.buf, self.column, self.last_column);
        vlq_encode_usize(&mut self.buf, idx);
        vlq_encode_diff(&mut self.buf, original_line - 1, self.last_source_line);
        vlq_encode_diff(&mut self.buf, original_column, self.last_source_column);
        self.last_source_line = original_line - 1;
        self.last_source_column = original_column;
        self.last_column = self.column;
        proof {
            let mv = sm_add_mapping(
                old(self)@,
                original_line as int,
                original_column as int,
                source_id.0,
                registry@,
            );
            assert(final(self)@.buf =~= mv.buf);
        }
    }

    /// The interned index of `sid`, if any.
    fn lookup(&self, sid: u32) -> (r: Option<usize>)
        ensures
            match sm_lookup(self@.sources_map, sid) {
                Some(i) => r is Some && r->0 as int == i,
                None => r is None,
            },
    {
        let n = self.sources_map.len();
        let ghost m0 = self@.sources_map;
        proof {
            assert(m0.skip(0) =~= m0);
        }
        for j in 0..n
            invariant
                n == self.sources_map@.len(),
                m0 == self@.sources_map,
                sm_lookup(m0, sid) == sm_lookup(m0.skip(j as int), sid),
        {
            proof {
                assert(m0.skip(j as int)[0] == m0[j as int]);
                assert(m0.skip(j as int).drop_first() =~= m0.skip(j as int + 1));
            }
            if self.sources_map[j].0 == sid {
                return Some(self.sources_map[j].1);
            }
        }
        proof {
            assert(m0.skip(n as int) =~= Seq::<(u32, int)>::empty());
        }
        None
    }
}


/// A source name escaped for the JSON string: backslashes doubled.
pub open spec fn esc_name_from(s: Seq<char>, i: int) -> Seq<char>
    decreases s.len() - i,
{
    if i < 0 || i >= s.len() {
        Seq::empty()
    } else {
        (if s[i] == '\\' {
            seq!['\\', '\\']
        } else {
            seq![s[i]]
        }) + esc_name_from(s, i + 1)
    }
}

/// A source content escaped for the JSON string: newlines become `\n`,
/// carriage returns are dropped.
pub open spec fn esc_content_from(s: Seq<char>, i: int) -> Seq<char>
    decreases s.len() - i,
{
    if i < 0 || i >= s.len() {
        Seq::empty()
    } else {
        (if s[i] == '\n' {
            seq!['\\', 'n']
        } else if s[i] == '\r' {
            Seq::empty()
        } else {
            seq![s[i]]
        }) + esc_content_from(s, i + 1)
    }
}

/// The comma-joined quoted source names from index `i` on.
pub open spec fn sm_names_from(ss: Seq<(Seq<char>, Option<Seq<char>>)>, i: int) -> Seq<char>
    decreases ss.len() - i,
{
    if i < 0 || i >= ss.len() {
        Seq::empty()
    } else {
        (seq!['"'] + esc_name_from(ss[i].0, 0) + seq!['"'] + (if i + 1 < ss.len() {
            seq![',']
        } else {
            Seq::empty()
        })) + sm_names_from(ss, i + 1)
    }
}

/// The comma-joined quoted source contents from index `i` on; a source
/// without content contributes an empty string.
pub open spec fn sm_contents_from(ss: Seq<(Seq<char>, Option<Seq<char>>)>, i: int) -> Seq<char>
    decreases ss.len() - i,
{
    if i < 0 || i >= ss.len() {
        Seq::empty()
    } else {
        (seq!['"'] + (match ss[i].1 {
            Some(c) => esc_content_from(c, 0),
            None => Seq::empty(),
        }) + seq!['"'] + (if i + 1 < ss.len() {
            seq![',']
        } else {
            Seq::empty()
        })) + sm_contents_from(ss, i + 1)
    }
}

/// The final JSON object of the source map: version 3, the interned source
/// names and contents, no symbol names, and the accumulated mappings.
pub open spec fn sm_json(m: SourceMapModel) -> Seq<char> {
    "{\"version\":3,\"sourceRoot\":\"\",\"sources\":["@ + sm_names_from(m.sources, 0)
        + "],\"sourcesContent\":["@ + sm_contents_from(m.sources, 0)
        + "],\"names\":[],\"mappings\":\""@ + m.buf + "\"}"@
}

/// Appends the characters of `s`.
fn push_chars(out: &mut Vec<char>, s: &str)
    ensures
        final(out)@ == old(out)@ + s@,
{
    let n = s.unicode_len();
    let mut i: usize = 0;
    while i < n
        invariant
            n == s@.len(),
            i <= n,
            out@ == old(out)@ + s@.take(i as int),
        decreases n - i,
    {
        out.push(s.get_char(i));
        proof {
            assert(out@ =~= old(out)@ + s@.take(i as int + 1));
        }
        i = i + 1;
    }
    proof {
        assert(s@.take(n as int) =~= s@);
    }
}

/// Appends the name `s` with backslashes doubled.
fn push_escaped_name(out: &mut Vec<char>, s: &str)
    ensures
        final(out)@ == old(out)@ + esc_name_from(s@, 0),
{
    let n = s.unicode_len();
    let mut i: usize = 0;
    proof {
        assert(old(out)@ + Seq::<char>::empty() =~= old(out)@);
    }
    while i < n
        invariant
            n == s@.len(),
            i <= n,
            old(out)@ + esc_name_from(s@, 0) == out@ + esc_name_from(s@, i as int),
        decreases n - i,
    {
        let ghost pre = out@;
        let c = s.get_char(i);
        if c == '\\' {
            out.push('\\');
            out.push('\\');
            proof {
                assert(out@ =~= pre + seq!['\\', '\\']);
                assert(out@ + esc_name_from(s@, i as int + 1) =~= pre + esc_name_from(
                    s@,
                    i as int,
                ));
            }
        } else {
            out.push(c);
            proof {
                assert(out@ =~= pre + seq![c]);
                assert(out@ + esc_name_from(s@, i as int + 1) =~= pre + esc_name_from(
                    s@,
                    i as int,
                ));
            }
        }
        i = i + 1;
    }
    proof {
        assert(esc_name_from(s@, n as int) =~= Seq::<char>::empty());
        assert(out@ + Seq::<char>::empty() =~= out@);
    }
}

/// Appends the content `s` with newlines escaped and carriage returns
/// dropped.
fn push_escaped_content(out: &mut Vec<char>, s: &str)
    ensures
        final(out)@ == old(out)@ + esc_content_from(s@, 0),
{
    let n = s.unicode_len();
    let mut i: usize = 0;
    proof {
        assert(old(out)@ + Seq::<char>::empty() =~= old(out)@);
    }
    while i < n
        invariant
            n == s@.len(),
            i <= n,
            old(out)@ + esc_content_from(s@, 0) == out@ + esc_content_from(s@, i as int),
        decreases n - i,
    {
        let ghost pre = out@;
        let c = s.get_char(i);
        if c == '\n' {
            out.push('\\');
            out.push('n');
            proof {
                assert(out@ =~= pre + seq!['\\', 'n']);
                assert(out@ + esc_content_from(s@, i as int + 1) =~= pre + esc_content_from(
                    s@,
                    i as int,
                ));
            }
        } else if c == '\r' {
            proof {
                assert(out@ + esc_content_from(s@, i as int + 1) =~= pre + esc_content_from(
                    s@,
                    i as int,
                ));
            }
        } else {
            out.push(c);
            proof {
                assert(out@ =~= pre + seq![c]);
                assert(out@ + esc_content_from(s@, i as int + 1) =~= pre + esc_content_from(
                    s@,
                    i as int,
                ));
            }
        }
        i = i + 1;
    }
    proof {
        assert(esc_content_from(s@, n as int) =~= Seq::<char>::empty());
        assert(out@ + Seq::<char>::empty() =~= out@);
    }
}

impl SourceMap {
    /// Serialises the source map to its JSON text; see [`sm_json`].
    pub fn to_string(self) -> (r: String)
        ensures
            r@ == sm_json(self@),
    {
        let mut out: Vec<char> = Vec::new();
        proof {
            assert(Seq::<char>::empty() + "{\"version\":3,\"sourceRoot\":\"\",\"sources\":["@
                =~= "{\"version\":3,\"sourceRoot\":\"\",\"sources\":["@);
        }
        push_chars(&mut out, "{\"version\":3,\"sourceRoot\":\"\",\"sources\":[");
        let ghost sv = self@.sources;
        let n = self.sources.len();
        let ghost base = out@;
        proof {
            assert(base + Seq::<char>::empty() =~= base);
        }
        let mut i: usize = 0;
        while i < n
            invariant
                n == self.sources@.len(),
                i <= n,
                sv == self@.sources,
                base + sm_names_from(sv, 0) == out@ + sm_names_from(sv, i as int),
            decreases n - i,
        {
            let ghost pre = out@;
            out.push('"');
            push_escaped_name(&mut out, self.sources[i].0.as_str());
            out.push('"');
            if i + 1 < n {
                out.push(',');
            }
            proof {
                assert(sv[i as int].0 == self.sources@[i as int].0@);
                if i + 1 < n {
                    assert(out@ =~= pre + (seq!['"'] + esc_name_from(sv[i as int].0, 0)
                        + seq!['"'] + seq![',']));
                } else {
                    assert(out@ =~= pre + (seq!['"'] + esc_name_from(sv[i as int].0, 0)
                        + seq!['"'] + Seq::<char>::empty()));
                }
                assert(out@ + sm_names_from(sv, i as int + 1) =~= pre + sm_names_from(
                    sv,
                    i as int,
                ));
            }
            i = i + 1;
        }
        proof {
            assert(sm_names_from(sv, n as int) =~= Seq::<char>::empty());
            assert(out@ + Seq::<char>::empty() =~= out@);
        }
        push_chars(&mut out, "],\"sourcesContent\":[");
        let ghost base2 = out@;
        proof {
            assert(base2 + Seq::<char>::empty() =~= base2);
        }
        let mut i: usize = 0;
        while i < n
            invariant
                n == self.sources@.len(),
                i <= n,
                sv == self@.sources,
                base2 + sm_contents_from(sv, 0) == out@ + sm_contents_from(sv, i as int),
            decreases n - i,
        {
            let ghost pre = out@;
            out.push('"');
            match &self.sources[i].1 {
                Some(c) => {
                    push_escaped_content(&mut out, c.as_str());
                },
                None => {},
            }
            out.push('"');
            if i + 1 < n {
                out.push(',');
            }
            proof {
                let ghost body = match sv[i as int].1 {
                    Some(c) => esc_content_from(c, 0),
                    None => Seq::<char>::empty(),
                };
                if i + 1 < n {
                    assert(out@ =~= pre + (seq!['"'] + body + seq!['"'] + seq![',']));
                } else {
                    assert(out@ =~= pre + (seq!['"'] + body + seq!['"']
                        + Seq::<char>::empty()));
                }
                assert(out@ + sm_contents_from(sv, i as int + 1) =~= pre + sm_contents_from(
                    sv,
                    i as int,
                ));
            }
            i = i + 1;
        }
        proof {
            assert(sm_contents_from(sv, n as int) =~= Seq::<char>::empty());
            assert(out@ + Seq::<char>::empty() =~= out@);
        }
        push_chars(&mut out, "],\"names\":[],\"mappings\":\"");
        let ghost base3 = out@;
        let mut i: usize = 0;
        let m = self.buf.len();
        while i < m
            invariant
                m == self.buf@.len(),
                i <= m,
                out@ == base3 + self.buf@.take(i as int),
            decreases m - i,
        {
            out.push(self.buf[i]);
            proof {
                assert(out@ =~= base3 + self.buf@.take(i as int + 1));
            }
            i = i + 1;
        }
        proof {
            assert(self.buf@.take(m as int) =~= self.buf@);
        }
        push_chars(&mut out, "\"}");
        crate::string_from_chars(&out)
    }
}

} // verus!

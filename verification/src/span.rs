//! Source positions: a half-open range of character offsets into one source
//! buffer, tagged with the identifier of that buffer.

use vstd::prelude::*;

verus! {

/// Identifies one source buffer in a [`crate::source_map::SourceRegistry`].
///
/// The null identifier stands for "no registered source"; spans carrying it
/// never resolve to a file name or content.
#[derive(Clone, Copy, PartialEq, Eq, Structural, Debug)]
pub struct SourceId(pub u32);

pub const NULL_SOURCE_ID: u32 = 0xFFFF_FFFF;

impl SourceId {
    /// The identifier used when no source buffer is registered.
    pub fn null() -> (r: SourceId)
        ensures
            r == SourceId(NULL_SOURCE_ID),
    {
        SourceId(NULL_SOURCE_ID)
    }
}

/// A half-open range `start..end` of character offsets into the source
/// buffer named by `source_id`.
#[derive(Clone, Copy, PartialEq, Eq, Structural, Debug)]
pub struct Span {
    pub start: usize,
    pub end: usize,
    pub source_id: SourceId,
}

/// Two spans are adjacent when one ends exactly where the other starts and
/// both index the same source buffer: no character lies between them.
pub open spec fn spec_adjacent(a: Span, b: Span) -> bool {
    a.source_id == b.source_id && (a.end == b.start || b.end == a.start)
}

/// The smallest span covering both `a` and `b` (tagged with `a`'s source).
pub open spec fn spec_union(a: Span, b: Span) -> Span {
    Span {
        start: if a.start <= b.start {
            a.start
        } else {
            b.start
        },
        end: if a.end >= b.end {
            a.end
        } else {
            b.end
        },
        source_id: a.source_id,
    }
}

impl Span {
    /// True when no character separates `self` from `other` in the same source.
    pub fn is_adjacent_to(&self, other: &Span) -> (r: bool)
        ensures
            r == spec_adjacent(*self, *other),
    {
        self.source_id.0 == other.source_id.0 && (self.end == other.start || other.end
            == self.start)
    }

    /// A span covering both `self` and `other`.
    pub fn union(&self, other: &Span) -> (r: Span)
        ensures
            r == spec_union(*self, *other),
    {
        Span {
            start: if self.start <= other.start {
                self.start
            } else {
                other.start
            },
            end: if self.end >= other.end {
                self.end
            } else {
                other.end
            },
            source_id: self.source_id,
        }
    }
}

} // verus!

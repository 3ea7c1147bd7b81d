//! Derivation of the three fixed segment address ranges from the build-time
//! size parameters.

use vstd::prelude::*;

verus! {

/// Build-time size parameters, resolved exactly once before any segment or
/// heap operation takes place.
#[derive(Clone, Copy, Debug, PartialEq, Eq, Structural)]
pub struct BuildConfiguration {
    pub max_input_size: u32,
    pub max_output_size: u32,
    pub max_log_size: u32,
}

/// Base address of the reserved region that holds the three public segments.
pub const SEGMENT_REGION_START: usize = 0x8000_0000;

/// The three fixed logical segments exchanged between host and guest.
#[derive(Clone, Copy, Debug, PartialEq, Eq, Structural)]
pub enum Segments {
    PublicInput,
    PublicOutput,
    PublicLogging,
}

/// Derived, immutable description of where each segment lives: input first,
/// then output, then logging, back to back.
#[derive(Clone, Copy, Debug, PartialEq, Eq, Structural)]
pub struct MemoryLayout {
    pub input_start: usize,
    pub input_size: usize,
    pub output_start: usize,
    pub output_size: usize,
    pub log_start: usize,
    pub log_size: usize,
}

impl MemoryLayout {
    /// The three ranges sit back to back at the reserved region base and the
    /// whole extent fits in the address space.
    pub open spec fn wf(self) -> bool {
        &&& self.input_start == SEGMENT_REGION_START
        &&& self.output_start == self.input_start + self.input_size
        &&& self.log_start == self.output_start + self.output_size
        &&& self.log_start + self.log_size <= usize::MAX
    }

    /// Base address of one segment.
    pub open spec fn seg_base(self, segment: Segments) -> int {
        match segment {
            Segments::PublicInput => self.input_start as int,
            Segments::PublicOutput => self.output_start as int,
            Segments::PublicLogging => self.log_start as int,
        }
    }

    /// Maximum length of one segment.
    pub open spec fn seg_len(self, segment: Segments) -> int {
        match segment {
            Segments::PublicInput => self.input_size as int,
            Segments::PublicOutput => self.output_size as int,
            Segments::PublicLogging => self.log_size as int,
        }
    }

    /// One past the last address of the region the layout reserves.
    pub open spec fn reserved_end(self) -> int {
        self.input_start + self.input_size + self.output_size + self.log_size
    }

    /// Derive the layout from the build configuration. Returns `None` exactly
    /// when the reserved region would not fit in the address space; every
    /// other input yields the back-to-back layout.
    pub fn compute(config: &BuildConfiguration) -> (r: Option<MemoryLayout>)
        ensures
            r is Some <==> SEGMENT_REGION_START + config.max_input_size + config.max_output_size
                + config.max_log_size <= usize::MAX,
            r matches Some(l) ==> {
                &&& l.wf()
                &&& l.input_size == config.max_input_size
                &&& l.output_size == config.max_output_size
                &&& l.log_size == config.max_log_size
            },
    {
        let input_size: usize = config.max_input_size as usize;
        let output_size: usize = config.max_output_size as usize;
        let log_size: usize = config.max_log_size as usize;
        if usize::MAX - SEGMENT_REGION_START < input_size {
            return None;
        }
        let output_start: usize = SEGMENT_REGION_START + input_size;
        if usize::MAX - output_start < output_size {
            return None;
        }
        let log_start: usize = output_start + output_size;
        if usize::MAX - log_start < log_size {
            return None;
        }
        Some(MemoryLayout {
            input_start: SEGMENT_REGION_START,
            input_size,
            output_start,
            output_size,
            log_start,
            log_size,
        })
    }

    /// Resolve a segment to its `(base_address, max_length)` pair.
    pub fn resolve(&self, segment: Segments) -> (r: (usize, usize))
        ensures
            r.0 as int == self.seg_base(segment),
            r.1 as int == self.seg_len(segment),
    {
        match segment {
            Segments::PublicInput => (self.input_start, self.input_size),
            Segments::PublicOutput => (self.output_start, self.output_size),
            Segments::PublicLogging => (self.log_start, self.log_size),
        }
    }
}

/// Law: the layout is a function of the sizes alone — two well-formed
/// layouts over the same sizes agree on every address, so equivalent build
/// configurations always produce equivalent layouts.
pub proof fn lemma_layout_deterministic(l1: MemoryLayout, l2: MemoryLayout)
    requires
        l1.wf(),
        l2.wf(),
        l1.input_size == l2.input_size,
        l1.output_size == l2.output_size,
        l1.log_size == l2.log_size,
    ensures
        l1 == l2,
{
}

/// Law: in a well-formed layout, any two distinct segments occupy disjoint
/// address ranges.
pub proof fn lemma_segments_disjoint(l: MemoryLayout, a: Segments, b: Segments)
    requires
        l.wf(),
        a != b,
    ensures
        l.seg_base(a) + l.seg_len(a) <= l.seg_base(b) || l.seg_base(b) + l.seg_len(b)
            <= l.seg_base(a),
{
}

/// Law: every segment of a well-formed layout lies inside the reserved region
/// `[input_start, input_start + input_size + output_size + log_size)`.
pub proof fn lemma_segments_in_reserved(l: MemoryLayout, segment: Segments)
    requires
        l.wf(),
    ensures
        l.input_start <= l.seg_base(segment),
        l.seg_base(segment) + l.seg_len(segment) <= l.reserved_end(),
{
}

} // verus!

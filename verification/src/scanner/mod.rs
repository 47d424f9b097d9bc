pub mod alignment;
pub mod comparison;
pub mod configuration;
pub mod endianness;
pub mod laws;
pub mod scan_error;
pub mod scan_value;
pub mod state;
pub mod value_reader;
pub mod value_type;

pub use alignment::Alignment;
pub use comparison::ComparisonType;
pub use configuration::Configuration;
pub use endianness::Endianness;
pub use scan_error::ScanError;
pub use scan_value::ScanValue;
pub use value_type::ValueType;
pub use state::ScanState;

use vstd::prelude::*;

use crate::scanner::comparison::compare_values;
use crate::scanner::state::{
    known_start_error, lemma_after_scan_valid, lemma_filter_take_step, lemma_implicit_offsets_valid,
    passing, strictly_increasing, window,
};
use crate::scanner::value_reader::read_value;

verus! {

/// Stateful memory scanner that keeps the previous RAM block and the current candidate set.
pub struct Scanner {
    value_type: ValueType,
    endianness: Endianness,
    alignment: Alignment,
    base_address: u32,
    width: usize,
    results: Vec<u32>,
    ram_block: Vec<u8>,
    has_filtered: bool,
}

impl View for Scanner {
    type V = ScanState;

    closed spec fn view(&self) -> ScanState {
        ScanState {
            config: Configuration {
                value_type: self.value_type,
                endianness: self.endianness,
                alignment: self.alignment,
                base_address: self.base_address,
            },
            block: self.ram_block@,
            filtered: self.has_filtered,
            offsets: self.results@,
        }
    }
}

/// Whether the candidate at `offset` passes: its value in `current` compared with `op`
/// against `expected`, or against its value in `previous` when nothing is expected.
fn offset_matches(
    config: Configuration,
    previous: &[u8],
    current: &[u8],
    offset: usize,
    op: ComparisonType,
    expected: Option<i64>,
) -> (b: bool)
    requires
        offset + config.width() <= previous@.len(),
        offset + config.width() <= current@.len(),
        offset <= u32::MAX,
        config.value_type == ValueType::F32 ==> (expected matches Some(x) ==> 0 <= x <= u32::MAX),
    ensures
        b == config.passes(
            op,
            match expected {
                Some(x) => Some(x as int),
                None => None,
            },
            previous@,
            current@,
            offset as u32,
        ),
{
    let candidate = read_value(config.value_type, config.endianness, current, offset);
    let rhs = match expected {
        Some(x) => x,
        None => read_value(config.value_type, config.endianness, previous, offset),
    };
    compare_values(config.value_type, op, candidate, rhs)
}

/// Keeps, in order, the offsets of `results` whose candidates pass, without reallocating.
fn retain_matching(
    results: &mut Vec<u32>,
    config: Configuration,
    previous: &[u8],
    current: &[u8],
    op: ComparisonType,
    value: ScanValue,
)
    requires
        current@.len() == previous@.len(),
        value.spec_value_type() is Some ==> value.spec_value_type() == Some(config.value_type),
        forall|i: int|
            0 <= i < old(results)@.len() ==> config.is_candidate(
                previous@.len(),
                #[trigger] old(results)@[i] as int,
            ),
    ensures
        final(results)@ == old(results)@.filter(passing(config, op, value, previous@, current@)),
{
    let ghost cands = results@;
    let ghost pred = passing(config, op, value, previous@, current@);
    let expected = value.number();
    let n = results.len();
    let mut kept: usize = 0;
    let mut i: usize = 0;
    while i < n
        invariant
            n == cands.len(),
            results@.len() == n,
            kept <= i <= n,
            results@.subrange(0, kept as int) == cands.take(i as int).filter(pred),
            forall|j: int| i <= j < n ==> results@[j] == cands[j],
            pred == passing(config, op, value, previous@, current@),
            current@.len() == previous@.len(),
            forall|j: int|
                0 <= j < cands.len() ==> config.is_candidate(
                    previous@.len(),
                    #[trigger] cands[j] as int,
                ),
            value.spec_number() == (match expected {
                Some(x) => Some(x as int),
                None => None,
            }),
            value is F32 ==> (expected matches Some(x) && 0 <= x <= u32::MAX),
            value.spec_value_type() is Some ==> value.spec_value_type() == Some(config.value_type),
        decreases n - i,
    {
        let offset = results[i];
        assert(offset == cands[i as int]);
        assert(config.is_candidate(previous@.len(), cands[i as int] as int));
        proof {
            lemma_filter_take_step(cands, pred, i as int);
        }
        if offset_matches(config, previous, current, offset as usize, op, expected) {
            let ghost before = results@;
            results[kept] = offset;
            assert(results@.subrange(0, kept + 1) =~= before.subrange(0, kept as int).push(offset));
            kept = kept + 1;
        } else {
        }
        i = i + 1;
    }
    assert(cands.take(n as int) =~= cands);
    results.truncate(kept);
}

/// Overwrites `dst` with the bytes of `src`, in place.
fn copy_block(dst: &mut Vec<u8>, src: &[u8])
    requires
        old(dst)@.len() == src@.len(),
    ensures
        final(dst)@ == src@,
{
    let n = src.len();
    let mut i: usize = 0;
    while i < n
        invariant
            n == src@.len(),
            dst@.len() == n,
            i <= n,
            forall|j: int| 0 <= j < i ==> dst@[j] == src@[j],
        decreases n - i,
    {
        dst[i] = src[i];
        i = i + 1;
    }
    assert(dst@ =~= src@);
}

/// Walks the implicit candidate space of a block and appends to the empty `results`, in
/// increasing order, the offsets whose candidates pass when `current` is scanned against the
/// stored block `previous`.
fn candidates_filter(
    results: &mut Vec<u32>,
    config: Configuration,
    previous: &[u8],
    current: &[u8],
    op: ComparisonType,
    value: ScanValue,
)
    requires
        old(results)@.len() == 0,
        config.creation_error(previous@.len()) is None,
        current@.len() == previous@.len(),
        value.spec_value_type() is Some ==> value.spec_value_type() == Some(config.value_type),
    ensures
        final(results)@ == config.implicit_offsets(previous@.len()).filter(
            passing(config, op, value, previous@, current@),
        ),
{
    let ghost cands = config.implicit_offsets(previous@.len());
    let ghost pred = passing(config, op, value, previous@, current@);
    let expected = value.number();
    let len = previous.len();
    let width = config.value_type.width();
    let step = match config.alignment {
        Alignment::Aligned => width,
        Alignment::Unaligned => 1,
    };
    let count = (len - width) / step + 1;
    proof {
        lemma_implicit_offsets_valid(config, len as nat);
        assert(cands.take(0) =~= Seq::<u32>::empty());
        reveal(Seq::filter);
    }
    let mut k: usize = 0;
    while k < count
        invariant
            config.creation_error(len as nat) is None,
            cands == config.implicit_offsets(len as nat),
            len == previous@.len(),
            current@.len() == len,
            step == config.step(),
            count == cands.len(),
            k <= count,
            results@ == cands.take(k as int).filter(pred),
            pred == passing(config, op, value, previous@, current@),
            value.spec_number() == (match expected {
                Some(x) => Some(x as int),
                None => None,
            }),
            value is F32 ==> (expected matches Some(x) && 0 <= x <= u32::MAX),
            value.spec_value_type() is Some ==> value.spec_value_type() == Some(config.value_type),
        decreases count - k,
    {
        proof {
            lemma_implicit_offsets_valid(config, len as nat);
            lemma_filter_take_step(cands, pred, k as int);
        }
        assert(cands[k as int] == k * step);
        assert(config.is_candidate(len as nat, cands[k as int] as int));
        let offset = k * step;
        if offset_matches(config, previous, current, offset, op, expected) {
            results.push(offset as u32);
        }
        k = k + 1;
    }
    assert(cands.take(count as int) =~= cands);
}

impl Scanner {
    /// The scanner's internal invariant.
    pub closed spec fn wf(&self) -> bool {
        &&& self.width == self.value_type.spec_width()
        &&& self@.valid()
    }

    /// Law: every well-formed scanner (and so every scanner built and scanned through this
    /// API) is in a valid state: its block holds at least one value, every candidate offset
    /// is an in-bounds multiple of the step whose address fits in `u32`, and the candidates
    /// are strictly increasing.
    pub proof fn lemma_wf_valid(&self)
        requires
            self.wf(),
        ensures
            self@.valid(),
    {
    }

    fn config(&self) -> (c: Configuration)
        ensures
            c == self@.config,
    {
        Configuration {
            value_type: self.value_type,
            endianness: self.endianness,
            alignment: self.alignment,
            base_address: self.base_address,
        }
    }

    /// Builds a valid scanner state from an initial RAM block.
    ///
    /// This is the common constructor used by the public initialization paths.
    fn new(config: Configuration, initial_block: &[u8]) -> (r: Result<Self, ScanError>)
        ensures
            match config.creation_error(initial_block@.len()) {
                Some(e) => r == Err::<Self, ScanError>(e),
                None => r matches Ok(s) && s.wf() && s@.valid() && s@ == ScanState::initial(
                    config,
                    initial_block@,
                ),
            },
    {
        let width = config.value_type.width();
        let len = initial_block.len();
        if len < width {
            return Err(ScanError::RamBlockTooSmall);
        }
        let step = match config.alignment {
            Alignment::Aligned => width,
            Alignment::Unaligned => 1,
        };
        assert((len - width) as int / step as int * step as int <= len - width) by (nonlinear_arith)
            requires
                step >= 1,
                len >= width,
        ;
        let last_offset = (len - width) / step * step;
        assert(last_offset == config.last_offset(len as nat));
        if last_offset > (u32::MAX - config.base_address) as usize {
            return Err(ScanError::AddressOverflow);
        }
        let s = Scanner {
            value_type: config.value_type,
            endianness: config.endianness,
            alignment: config.alignment,
            base_address: config.base_address,
            width,
            // room for every candidate, so that no scan pass allocates
            results: Vec::with_capacity((len - width) / step + 1),
            ram_block: vstd::slice::slice_to_vec(initial_block),
            has_filtered: false,
        };
        proof {
            lemma_implicit_offsets_valid(config, len as nat);
        }
        Ok(s)
    }

    /// Creates a scanner seeded with an initial RAM block, without applying any filter yet.
    pub fn new_from_unknown(config: Configuration, initial_block: &[u8]) -> (r: Result<
        Self,
        ScanError,
    >)
        ensures
            match config.creation_error(initial_block@.len()) {
                Some(e) => r == Err::<Self, ScanError>(e),
                None => r matches Ok(s) && s.wf() && s@.valid() && s@ == ScanState::initial(
                    config,
                    initial_block@,
                ),
            },
    {
        Self::new(config, initial_block)
    }

    /// Creates a scanner and immediately applies a first exact-value scan on the provided block.
    pub fn new_from_known(
        config: Configuration,
        initial_block: &[u8],
        op: ComparisonType,
        value: ScanValue,
    ) -> (r: Result<Self, ScanError>)
        ensures
            match known_start_error(config, initial_block@.len(), value) {
                Some(e) => r == Err::<Self, ScanError>(e),
                None => r matches Ok(s) && s.wf() && s@.valid() && s@ == ScanState::initial(
                    config,
                    initial_block@,
                ).after_scan(initial_block@, op, value),
            },
    {
        if let ScanValue::PreviousValue = value {
            return Err(ScanError::InitialScanValueRequired);
        }
        let mut scanner = Self::new(config, initial_block)?;
        scanner.scan(initial_block, op, value)?;
        Ok(scanner)
    }

    /// Applies a new scan against `next_block`.
    ///
    /// `next_block` must have the same length as the block used to initialize the scanner.
    /// On success the scanner keeps `next_block` as its stored block.
    pub fn scan(&mut self, next_block: &[u8], op: ComparisonType, value: ScanValue) -> (r: Result<
        (),
        ScanError,
    >)
        requires
            old(self).wf(),
        ensures
            final(self).wf(),
            final(self)@.valid(),
            final(self)@.block.len() == old(self)@.block.len(),
            match old(self)@.scan_error(next_block@.len(), value) {
                Some(e) => r == Err::<(), ScanError>(e) && final(self)@ == old(self)@,
                None => r == Ok::<(), ScanError>(()) && final(self)@ == old(self)@.after_scan(
                    next_block@,
                    op,
                    value,
                ),
            },
    {
        self.ensure_ram_block_len_matches(next_block)?;
        self.ensure_scan_value_matches_config(&value)?;
        self.filter_results(Some(next_block), op, value);
        copy_block(&mut self.ram_block, next_block);
        proof {
            lemma_after_scan_valid(old(self)@, next_block@, op, value);
        }
        Ok(())
    }

    /// Applies a new exact-value scan against the current block.
    pub fn scan_again(&mut self, op: ComparisonType, value: ScanValue) -> (r: Result<(), ScanError>)
        requires
            old(self).wf(),
        ensures
            final(self).wf(),
            final(self)@.valid(),
            final(self)@.block.len() == old(self)@.block.len(),
            match old(self)@.rescan_error(value) {
                Some(e) => r == Err::<(), ScanError>(e) && final(self)@ == old(self)@,
                None => r == Ok::<(), ScanError>(()) && final(self)@ == old(self)@.after_scan(
                    old(self)@.block,
                    op,
                    value,
                ),
            },
    {
        self.ensure_scan_value_matches_config(&value)?;
        if let ScanValue::PreviousValue = value {
            return Err(ScanError::PreviousValueRequiresNewBlock);
        }
        self.filter_results(None, op, value);
        proof {
            lemma_after_scan_valid(old(self)@, old(self)@.block, op, value);
        }
        Ok(())
    }

    /// Returns the number of current candidates.
    ///
    /// Before the first filtering pass, this returns the implicit candidate count derived from the
    /// configured alignment and value width.
    pub fn count(&self) -> (c: usize)
        requires
            self.wf(),
        ensures
            c == self@.count(),
    {
        if self.has_filtered {
            self.results.len()
        } else {
            self.candidate_count()
        }
    }

    /// Returns the materialized result addresses, in increasing order.
    ///
    /// The returned addresses already include `base_address`. Before the first filtering pass
    /// nothing is materialized and the result is empty.
    pub fn results(&self) -> (r: Vec<u32>)
        requires
            self.wf(),
        ensures
            r@ == self@.addresses(),
            r@.len() == self@.offsets.len(),
            !self@.filtered ==> r@.len() == 0,
            self@.filtered ==> r@.len() == self@.count(),
            forall|i: int|
                0 <= i < r@.len() ==> #[trigger] r@[i] == self@.offsets[i] + self@.config.base_address
                    && self@.config.is_candidate(self@.block.len(), self@.offsets[i] as int),
            strictly_increasing(r@),
    {
        let n = self.results.len();
        let base = self.base_address;
        let ghost st = self@;
        let mut out: Vec<u32> = Vec::new();
        let mut i: usize = 0;
        while i < n
            invariant
                n == self.results@.len(),
                st == self@,
                st.valid(),
                base == st.config.base_address,
                i <= n,
                out@ == st.offsets.take(i as int).map_values(
                    |o: u32| (o + st.config.base_address) as u32,
                ),
            decreases n - i,
        {
            assert(st.filtered);
            assert(st.config.is_candidate(st.block.len(), st.candidates()[i as int] as int));
            let address = self.results[i] + base;
            out.push(address);
            assert(st.offsets.take(i + 1) =~= st.offsets.take(i as int).push(st.offsets[i as int]));
            i = i + 1;
        }
        assert(st.offsets.take(n as int) =~= st.offsets);
        assert forall|a: int, b: int| 0 <= a < b < out@.len() implies out@[a] < out@[b] by {
            assert(st.filtered);
            assert(st.config.is_candidate(st.block.len(), st.candidates()[a] as int));
            assert(st.config.is_candidate(st.block.len(), st.candidates()[b] as int));
        }
        assert forall|i: int| 0 <= i < out@.len() implies #[trigger] out@[i] == st.offsets[i]
            + st.config.base_address && st.config.is_candidate(
            st.block.len(),
            st.offsets[i] as int,
        ) by {
            assert(st.filtered);
            assert(st.config.is_candidate(st.block.len(), st.candidates()[i] as int));
        }
        out
    }

    /// The result addresses from position `offset` on, at most `max` of them.
    ///
    /// This pages through the materialized results; an `offset` past the end gives an empty page.
    pub fn results_page(&self, offset: usize, max: usize) -> (r: Vec<u32>)
        requires
            self.wf(),
        ensures
            r@ == window(self@.addresses(), offset as nat, max as nat),
    {
        let n = self.results.len();
        let base = self.base_address;
        let ghost st = self@;
        let ghost a = st.addresses();
        let lo = if offset <= n { offset } else { n };
        let hi = if max <= n - lo { lo + max } else { n };
        let mut out: Vec<u32> = Vec::new();
        let mut i: usize = lo;
        while i < hi
            invariant
                n == self.results@.len(),
                st == self@,
                a == st.addresses(),
                st.valid(),
                base == st.config.base_address,
                lo <= i <= hi <= n,
                out@ == a.subrange(lo as int, i as int),
            decreases hi - i,
        {
            assert(st.filtered);
            assert(st.config.is_candidate(st.block.len(), st.candidates()[i as int] as int));
            let address = self.results[i] + base;
            out.push(address);
            assert(a.subrange(lo as int, i + 1) =~= a.subrange(lo as int, i as int).push(
                a[i as int],
            ));
            i = i + 1;
        }
        out
    }

    /// Writes the result addresses from position `offset` on into `out`, as many as fit, and
    /// returns how many were written; the slots of `out` past them keep their contents.
    ///
    /// This pages through the materialized results without allocating.
    pub fn write_results_page(&self, out: &mut [u32], offset: usize) -> (n: usize)
        requires
            self.wf(),
        ensures
            n == window(self@.addresses(), offset as nat, old(out)@.len()).len(),
            final(out)@.len() == old(out)@.len(),
            final(out)@.subrange(0, n as int) == window(
                self@.addresses(),
                offset as nat,
                old(out)@.len(),
            ),
            final(out)@.subrange(n as int, old(out)@.len() as int) == old(out)@.subrange(
                n as int,
                old(out)@.len() as int,
            ),
    {
        let n = self.results.len();
        let base = self.base_address;
        let max = out.len();
        let ghost st = self@;
        let ghost a = st.addresses();
        let ghost before = out@;
        let lo = if offset <= n { offset } else { n };
        let hi = if max <= n - lo { lo + max } else { n };
        let mut i: usize = lo;
        while i < hi
            invariant
                n == self.results@.len(),
                st == self@,
                a == st.addresses(),
                st.valid(),
                base == st.config.base_address,
                lo <= i <= hi <= n,
                hi - lo <= max,
                max == before.len(),
                out@.len() == max,
                out@.subrange(0, i - lo) == a.subrange(lo as int, i as int),
                out@.subrange(i - lo, max as int) == before.subrange(i - lo, max as int),
            decreases hi - i,
        {
            assert(st.filtered);
            assert(st.config.is_candidate(st.block.len(), st.candidates()[i as int] as int));
            let address = self.results[i] + base;
            let ghost prev = out@;
            out[i - lo] = address;
            assert(out@.subrange(0, i + 1 - lo) =~= prev.subrange(0, i - lo).push(address));
            assert(a.subrange(lo as int, i + 1) =~= a.subrange(lo as int, i as int).push(
                a[i as int],
            ));
            assert(out@.subrange(i + 1 - lo, max as int) =~= prev.subrange(
                i + 1 - lo,
                max as int,
            ));
            assert(before.subrange(i + 1 - lo, max as int) =~= before.subrange(
                i - lo,
                max as int,
            ).subrange(1, max - (i - lo)));
            i = i + 1;
        }
        hi - lo
    }

    fn ensure_ram_block_len_matches(&self, next_block: &[u8]) -> (r: Result<(), ScanError>)
        ensures
            r == (if next_block@.len() == self@.block.len() {
                Ok::<(), ScanError>(())
            } else {
                Err(ScanError::InvalidRamBlockLength)
            }),
    {
        if next_block.len() != self.ram_block.len() {
            return Err(ScanError::InvalidRamBlockLength);
        }
        Ok(())
    }

    /// Ensures that an exact scan value matches the configured value type.
    ///
    /// Previous-value scans are always accepted because the comparison value is read from the
    /// scanner's stored RAM block using the configured type.
    fn ensure_scan_value_matches_config(&self, value: &ScanValue) -> (r: Result<(), ScanError>)
        ensures
            r == (if self@.type_mismatch(*value) {
                Err::<(), ScanError>(ScanError::TypeMismatch)
            } else {
                Ok(())
            }),
    {
        match value.value_type() {
            None => Ok(()),
            Some(t) => {
                if t == self.value_type {
                    Ok(())
                } else {
                    Err(ScanError::TypeMismatch)
                }
            },
        }
    }

    /// Filters the candidates by comparing each one's value in the scanned block (`next_block`,
    /// or the stored block when there is none) against `value` or, for `PreviousValue`, against
    /// its value in the stored block.
    fn filter_results(&mut self, next_block: Option<&[u8]>, op: ComparisonType, value: ScanValue)
        requires
            old(self).wf(),
            !old(self)@.type_mismatch(value),
            next_block matches Some(next) ==> next@.len() == old(self)@.block.len(),
        ensures
            final(self).width == old(self).width,
            final(self)@ == (ScanState {
                filtered: true,
                offsets: old(self)@.survivors(
                    match next_block {
                        Some(next) => next@,
                        None => old(self)@.block,
                    },
                    op,
                    value,
                ),
                ..old(self)@
            }),
    {
        let config = self.config();
        if self.has_filtered {
            let current: &[u8] = match next_block {
                Some(next) => next,
                None => self.ram_block.as_slice(),
            };
            retain_matching(&mut self.results, config, self.ram_block.as_slice(), current, op, value);
            return;
        }
        let current: &[u8] = match next_block {
            Some(next) => next,
            None => self.ram_block.as_slice(),
        };
        candidates_filter(&mut self.results, config, self.ram_block.as_slice(), current, op, value);
        self.has_filtered = true;
    }

    /// Computes the implicit candidate count for an unfiltered scanner state.
    fn candidate_count(&self) -> (c: usize)
        requires
            self.wf(),
        ensures
            c == self@.config.candidate_count(self@.block.len()),
    {
        let step = match self.alignment {
            Alignment::Aligned => self.width,
            Alignment::Unaligned => 1,
        };
        ((self.ram_block.len() - self.width) / step) + 1
    }
}

} // verus!

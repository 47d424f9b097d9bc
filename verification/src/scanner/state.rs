use vstd::prelude::*;

use crate::scanner::comparison::ComparisonType;
use crate::scanner::configuration::Configuration;
use crate::scanner::scan_error::ScanError;
use crate::scanner::scan_value::ScanValue;
use crate::scanner::value_type::ValueType;

verus! {

/// The abstract state of a [`Scanner`](crate::Scanner): its configuration, the RAM block it
/// holds, whether a filtering pass has happened, and the materialized candidate offsets.
pub struct ScanState {
    pub config: Configuration,
    pub block: Seq<u8>,
    pub filtered: bool,
    pub offsets: Seq<u32>,
}

/// Every element of `s` is smaller than every later one.
pub open spec fn strictly_increasing(s: Seq<u32>) -> bool {
    forall|i: int, j: int| 0 <= i < j < s.len() ==> s[i] < s[j]
}

/// The elements of `a` from position `offset` on, at most `max` of them (empty when `offset`
/// is past the end).
pub open spec fn window(a: Seq<u32>, offset: nat, max: nat) -> Seq<u32> {
    let lo = if offset <= a.len() {
        offset as int
    } else {
        a.len() as int
    };
    let hi = if lo + max <= a.len() {
        lo + max
    } else {
        a.len() as int
    };
    a.subrange(lo, hi)
}

/// The first `pages` pages of `a`, each of at most `size` elements, joined in order.
pub open spec fn joined_pages(a: Seq<u32>, size: nat, pages: nat) -> Seq<u32>
    decreases pages,
{
    if pages == 0 {
        Seq::empty()
    } else {
        joined_pages(a, size, (pages - 1) as nat) + window(a, ((pages - 1) * size) as nat, size)
    }
}

/// Why `Scanner::new_from_known` fails on these arguments, if it does.
pub open spec fn known_start_error(config: Configuration, len: nat, value: ScanValue) -> Option<
    ScanError,
> {
    if value is PreviousValue {
        Some(ScanError::InitialScanValueRequired)
    } else if config.creation_error(len) is Some {
        config.creation_error(len)
    } else if value.spec_value_type() != Some(config.value_type) {
        Some(ScanError::TypeMismatch)
    } else {
        None
    }
}

/// The survival test of a scan: whether the candidate at an offset passes when `previous` is
/// the stored block and `current` the scanned one.
pub open spec fn passing(
    config: Configuration,
    op: ComparisonType,
    value: ScanValue,
    previous: Seq<u8>,
    current: Seq<u8>,
) -> spec_fn(u32) -> bool {
    |o: u32| config.passes(op, value.spec_number(), previous, current, o)
}

impl ScanState {
    /// The state of a scanner freshly built on `block`: nothing filtered, nothing materialized.
    pub open spec fn initial(config: Configuration, block: Seq<u8>) -> ScanState {
        ScanState { config, block, filtered: false, offsets: Seq::empty() }
    }

    /// The current candidate offsets: the materialized ones once a filtering pass has
    /// happened, the whole implicit candidate space before.
    pub open spec fn candidates(self) -> Seq<u32> {
        if self.filtered {
            self.offsets
        } else {
            self.config.implicit_offsets(self.block.len())
        }
    }

    /// The number of current candidates.
    pub open spec fn count(self) -> nat {
        self.candidates().len()
    }

    /// The materialized result addresses: each materialized offset plus the base address.
    pub open spec fn addresses(self) -> Seq<u32> {
        self.offsets.map_values(|o: u32| (o + self.config.base_address) as u32)
    }

    /// Whether the candidate at an offset survives a scan of `next` with `op` and `value`.
    pub open spec fn survives(self, next: Seq<u8>, op: ComparisonType, value: ScanValue) -> spec_fn(
        u32,
    ) -> bool {
        passing(self.config, op, value, self.block, next)
    }

    /// The candidates that survive a scan of `next` with `op` and `value`, in order.
    pub open spec fn survivors(self, next: Seq<u8>, op: ComparisonType, value: ScanValue) -> Seq<
        u32,
    > {
        self.candidates().filter(self.survives(next, op, value))
    }

    /// The state after a successful scan of `next` with `op` and `value`.
    pub open spec fn after_scan(self, next: Seq<u8>, op: ComparisonType, value: ScanValue) -> ScanState {
        ScanState {
            config: self.config,
            block: next,
            filtered: true,
            offsets: self.survivors(next, op, value),
        }
    }

    /// Whether `value` is an exact value of another type than the configured one.
    pub open spec fn type_mismatch(self, value: ScanValue) -> bool {
        value.spec_value_type() matches Some(t) && t != self.config.value_type
    }

    /// Why a scan of a block of `next_len` bytes with `value` fails, if it does.
    pub open spec fn scan_error(self, next_len: nat, value: ScanValue) -> Option<ScanError> {
        if next_len != self.block.len() {
            Some(ScanError::InvalidRamBlockLength)
        } else if self.type_mismatch(value) {
            Some(ScanError::TypeMismatch)
        } else {
            None
        }
    }

    /// Why a scan of the current block with `value` fails, if it does.
    pub open spec fn rescan_error(self, value: ScanValue) -> Option<ScanError> {
        if self.type_mismatch(value) {
            Some(ScanError::TypeMismatch)
        } else if value is PreviousValue {
            Some(ScanError::PreviousValueRequiresNewBlock)
        } else {
            None
        }
    }

    /// The invariant of every reachable state: the block can be scanned at all, nothing is
    /// materialized before filtering, and the candidates are strictly increasing valid offsets.
    pub open spec fn valid(self) -> bool {
        &&& self.config.creation_error(self.block.len()) is None
        &&& !self.filtered ==> self.offsets.len() == 0
        &&& strictly_increasing(self.candidates())
        &&& forall|i: int|
            0 <= i < self.candidates().len() ==> self.config.is_candidate(
                self.block.len(),
                #[trigger] self.candidates()[i] as int,
            )
    }
}

/// Before any filtering, the candidates are the strictly increasing multiples of the step at
/// which a whole value fits, each with an address that fits in `u32`.
pub proof fn lemma_implicit_offsets_valid(config: Configuration, len: nat)
    requires
        config.creation_error(len) is None,
    ensures
        strictly_increasing(config.implicit_offsets(len)),
        forall|k: int|
            0 <= k < config.candidate_count(len) ==> #[trigger] config.implicit_offsets(len)[k]
                == k * config.step(),
        forall|i: int|
            0 <= i < config.implicit_offsets(len).len() ==> config.is_candidate(
                len,
                #[trigger] config.implicit_offsets(len)[i] as int,
            ),
{
    let w = config.width() as int;
    let step = config.step() as int;
    let count = config.candidate_count(len) as int;
    let q = (len - w) / step;
    assert(step >= 1);
    assert(count == q + 1);
    assert(q * step <= len - w) by (nonlinear_arith)
        requires
            q == (len - w) / step,
            step >= 1,
            len - w >= 0,
    ;
    assert forall|k: int|
        0 <= k < count implies #[trigger] config.implicit_offsets(len)[k] == k * step by {
        assert(0 <= k * step <= q * step) by (nonlinear_arith)
            requires
                0 <= k <= q,
                step >= 1,
        ;
    }
    assert forall|i: int, j: int|
        0 <= i < j < count implies config.implicit_offsets(len)[i] < config.implicit_offsets(
            len,
        )[j] by {
        assert(config.implicit_offsets(len)[i] == i * step);
        assert(config.implicit_offsets(len)[j] == j * step);
        assert(i * step < j * step) by (nonlinear_arith)
            requires
                0 <= i < j,
                step >= 1,
        ;
    }
    assert forall|i: int|
        0 <= i < count implies config.is_candidate(
        len,
        #[trigger] config.implicit_offsets(len)[i] as int,
    ) by {
        assert(config.implicit_offsets(len)[i] == i * step);
        assert(0 <= i * step <= q * step) by (nonlinear_arith)
            requires
                0 <= i <= q,
                step >= 1,
        ;
        assert((i * step) % step == 0) by (nonlinear_arith)
            requires
                step >= 1,
                0 <= i,
        ;
    }
}

/// Filtering keeps every property that all elements of the filtered sequence have.
pub proof fn lemma_filter_keeps(s: Seq<u32>, pred: spec_fn(u32) -> bool, q: spec_fn(u32) -> bool)
    requires
        forall|i: int| 0 <= i < s.len() ==> q(#[trigger] s[i]),
    ensures
        forall|i: int| 0 <= i < s.filter(pred).len() ==> q(#[trigger] s.filter(pred)[i]),
    decreases s.len(),
{
    reveal(Seq::filter);
    if s.len() > 0 {
        let rest = s.drop_last();
        assert forall|i: int| 0 <= i < rest.len() implies q(#[trigger] rest[i]) by {
            assert(rest[i] == s[i]);
        }
        lemma_filter_keeps(rest, pred, q);
        assert(q(s[s.len() - 1]));
        let f = rest.filter(pred);
        if pred(s.last()) {
            assert forall|i: int| 0 <= i < f.push(s.last()).len() implies q(
                #[trigger] f.push(s.last())[i],
            ) by {
                if i < f.len() {
                    assert(f.push(s.last())[i] == f[i]);
                }
            }
        }
    }
}

/// Filtering a strictly increasing sequence gives a strictly increasing sequence.
pub proof fn lemma_filter_increasing(s: Seq<u32>, pred: spec_fn(u32) -> bool)
    requires
        strictly_increasing(s),
    ensures
        strictly_increasing(s.filter(pred)),
    decreases s.len(),
{
    reveal(Seq::filter);
    if s.len() > 0 {
        let rest = s.drop_last();
        let last = s.last();
        assert(strictly_increasing(rest));
        lemma_filter_increasing(rest, pred);
        let below = |x: u32| x < last;
        assert forall|i: int| 0 <= i < rest.len() implies below(#[trigger] rest[i]) by {
            assert(rest[i] == s[i]);
        }
        lemma_filter_keeps(rest, pred, below);
        let f = rest.filter(pred);
        if pred(last) {
            assert forall|i: int, j: int|
                0 <= i < j < f.push(last).len() implies f.push(last)[i] < f.push(last)[j] by {
                if j == f.len() {
                    assert(below(f[i]));
                }
            }
        }
    }
}

/// One step of filtering a prefix: extending the prefix by one element extends its filtered
/// form by that element exactly when the element passes.
pub proof fn lemma_filter_take_step(s: Seq<u32>, pred: spec_fn(u32) -> bool, i: int)
    requires
        0 <= i < s.len(),
    ensures
        s.take(i + 1).filter(pred) == (if pred(s[i]) {
            s.take(i).filter(pred).push(s[i])
        } else {
            s.take(i).filter(pred)
        }),
{
    reveal(Seq::filter);
    assert(s.take(i + 1).drop_last() =~= s.take(i));
    assert(s.take(i + 1).last() == s[i]);
}

/// A successful scan of a block of the same length keeps the state's invariant.
pub proof fn lemma_after_scan_valid(s: ScanState, next: Seq<u8>, op: ComparisonType, value: ScanValue)
    requires
        s.valid(),
        next.len() == s.block.len(),
    ensures
        s.after_scan(next, op, value).valid(),
{
    let cands = s.candidates();
    let pred = s.survives(next, op, value);
    let after = s.after_scan(next, op, value);
    lemma_filter_increasing(cands, pred);
    let ok = |o: u32| s.config.is_candidate(s.block.len(), o as int);
    assert forall|i: int| 0 <= i < cands.len() implies ok(#[trigger] cands[i]) by {}
    lemma_filter_keeps(cands, pred, ok);
    assert forall|i: int| 0 <= i < after.candidates().len() implies after.config.is_candidate(
        after.block.len(),
        #[trigger] after.candidates()[i] as int,
    ) by {
        assert(ok(cands.filter(pred)[i]));
    }
}

/// Law: a scan never adds candidates. Every survivor was a candidate before, and the
/// candidate count never grows.
pub proof fn lemma_scan_narrows(s: ScanState, next: Seq<u8>, op: ComparisonType, value: ScanValue)
    ensures
        s.after_scan(next, op, value).count() <= s.count(),
        forall|o: u32|
            s.after_scan(next, op, value).candidates().contains(o) ==> s.candidates().contains(o),
{
    broadcast use vstd::seq_lib::group_filter_ensures;
    broadcast use Seq::lemma_filter_contains_rev;

}

/// Law: a scan keeps exactly the candidates whose value passes the comparison.
pub proof fn lemma_survivors_exact(
    s: ScanState,
    next: Seq<u8>,
    op: ComparisonType,
    value: ScanValue,
    offset: u32,
)
    ensures
        s.after_scan(next, op, value).candidates().contains(offset) <==> (s.candidates().contains(
            offset,
        ) && s.config.passes(op, value.spec_number(), s.block, next, offset)),
{
    broadcast use vstd::seq_lib::group_filter_ensures;
    broadcast use Seq::lemma_filter_contains_rev;

    let cands = s.candidates();
    let pred = s.survives(next, op, value);
    if cands.filter(pred).contains(offset) {
        let i = choose|i: int| 0 <= i < cands.filter(pred).len() && cands.filter(pred)[i] == offset;
        assert(pred(cands.filter(pred)[i]));
    }
    if cands.contains(offset) && pred(offset) {
        let i = choose|i: int| 0 <= i < cands.len() && cands[i] == offset;
        assert(cands.filter(pred).contains(cands[i]));
    }
}

/// Law: before its first filtering pass a scanner reports the whole implicit candidate space
/// as its count, and no materialized result address.
pub proof fn lemma_initial_state(config: Configuration, block: Seq<u8>)
    requires
        config.creation_error(block.len()) is None,
    ensures
        ScanState::initial(config, block).valid(),
        ScanState::initial(config, block).count() == config.candidate_count(block.len()),
        ScanState::initial(config, block).addresses() == Seq::<u32>::empty(),
{
    lemma_implicit_offsets_valid(config, block.len());
    assert(ScanState::initial(config, block).addresses() =~= Seq::<u32>::empty());
}

/// Law: `Scanner::scan_again` with an exact value acts as `Scanner::scan` of the current block
/// with that value: the same error, or the same resulting state. With `PreviousValue` it fails,
/// unless the value's type is already wrong.
pub proof fn lemma_rescan_is_scan_of_current_block(s: ScanState, op: ComparisonType, value: ScanValue)
    ensures
        !(value is PreviousValue) ==> s.rescan_error(value) == s.scan_error(s.block.len(), value),
        value is PreviousValue ==> s.rescan_error(value) == Some(
            ScanError::PreviousValueRequiresNewBlock,
        ),
{
}

/// Law: `Scanner::new_from_known` fails exactly as `Scanner::new_from_unknown` followed by a
/// `Scanner::scan` of the same block would, except that a `PreviousValue` is refused first.
pub proof fn lemma_known_start_is_unknown_start_then_scan(
    config: Configuration,
    block: Seq<u8>,
    value: ScanValue,
)
    ensures
        value is PreviousValue ==> known_start_error(config, block.len(), value) == Some(
            ScanError::InitialScanValueRequired,
        ),
        !(value is PreviousValue) && config.creation_error(block.len()) is Some ==> known_start_error(
            config,
            block.len(),
            value,
        ) == config.creation_error(block.len()),
        !(value is PreviousValue) && config.creation_error(block.len()) is None ==> known_start_error(
            config,
            block.len(),
            value,
        ) == ScanState::initial(config, block).scan_error(block.len(), value),
{
}

/// Filtering with a test that every element passes changes nothing.
pub proof fn lemma_filter_all_pass(s: Seq<u32>, pred: spec_fn(u32) -> bool)
    requires
        forall|i: int| 0 <= i < s.len() ==> pred(#[trigger] s[i]),
    ensures
        s.filter(pred) == s,
    decreases s.len(),
{
    reveal(Seq::filter);
    if s.len() > 0 {
        let rest = s.drop_last();
        assert forall|i: int| 0 <= i < rest.len() implies pred(#[trigger] rest[i]) by {
            assert(rest[i] == s[i]);
        }
        lemma_filter_all_pass(rest, pred);
        assert(pred(s[s.len() - 1]));
        assert(rest.push(s.last()) =~= s);
    }
}

/// Law: for an integer value type, a previous-value scan with `Eq` of a block that did not
/// change keeps every candidate.
pub proof fn lemma_unchanged_block_keeps_equal(s: ScanState)
    requires
        s.valid(),
        s.config.value_type != ValueType::F32,
    ensures
        s.after_scan(s.block, ComparisonType::Eq, ScanValue::PreviousValue).candidates()
            == s.candidates(),
{
    let pred = s.survives(s.block, ComparisonType::Eq, ScanValue::PreviousValue);
    assert forall|i: int| 0 <= i < s.candidates().len() implies pred(
        #[trigger] s.candidates()[i],
    ) by {}
    lemma_filter_all_pass(s.candidates(), pred);
}

/// Law: two consecutive windows join into one window spanning both.
pub proof fn lemma_windows_join(a: Seq<u32>, offset: nat, first: nat, second: nat)
    ensures
        window(a, offset, first) + window(a, offset + first, second) == window(
            a,
            offset,
            first + second,
        ),
{
    assert(window(a, offset, first) + window(a, offset + first, second) =~= window(
        a,
        offset,
        first + second,
    ));
}

/// Law: reading `pages` successive pages of `size` elements from the start gives the window
/// of the first `pages * size` elements; once `pages * size` reaches the end it gives all of
/// `a`, and every later page is empty.
pub proof fn lemma_pages_cover(a: Seq<u32>, size: nat, pages: nat)
    ensures
        joined_pages(a, size, pages) == window(a, 0, pages * size),
        pages * size >= a.len() ==> joined_pages(a, size, pages) == a,
        pages * size >= a.len() ==> window(a, pages * size, size).len() == 0,
    decreases pages,
{
    if pages > 0 {
        let p = (pages - 1) as nat;
        lemma_pages_cover(a, size, p);
        assert(p * size + size == pages * size) by (nonlinear_arith)
            requires
                p + 1 == pages,
        ;
        lemma_windows_join(a, 0, p * size, size);
    } else {
        assert(window(a, 0, 0) =~= Seq::<u32>::empty());
    }
    if pages * size >= a.len() {
        assert(window(a, 0, pages * size) =~= a);
    }
}

/// Law: in every valid state the block holds at least one value and every candidate's value
/// lies wholly inside the block; a successful scan keeps the block's length.
pub proof fn lemma_block_holds_every_candidate(
    s: ScanState,
    next: Seq<u8>,
    op: ComparisonType,
    value: ScanValue,
)
    requires
        s.valid(),
    ensures
        s.block.len() >= s.config.width(),
        forall|i: int|
            0 <= i < s.candidates().len() ==> #[trigger] s.candidates()[i] + s.config.width()
                <= s.block.len(),
        s.scan_error(next.len(), value) is None ==> s.after_scan(next, op, value).block.len()
            == s.block.len(),
{
    assert forall|i: int|
        0 <= i < s.candidates().len() implies #[trigger] s.candidates()[i] + s.config.width()
        <= s.block.len() by {
        assert(s.config.is_candidate(s.block.len(), s.candidates()[i] as int));
    }
}

} // verus!

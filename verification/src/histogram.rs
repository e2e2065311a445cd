use crate::support::{at_most, less, same, HistogramSupport};
use crate::text::{decimal, push_decimal};
use std::cmp::Ordering;
use vstd::prelude::*;
use vstd::std_specs::convert::FromSpecImpl;
use vstd::std_specs::iter::IteratorSpec;
use vstd::string::StringExecFns;

verus! {

/// Why a histogram could not be built or a sample not be counted.
#[derive(Debug, Clone, PartialEq, Eq)]
pub enum HistogramError {
    /// A histogram was to be built with no bins at all.
    EmptyBins,
    /// A histogram was to be built with bins that do not increase.
    NonmonotonicBins,
    /// An edge or a sample was not finite. The text is the value, as
    /// it prints for debugging.
    NonFiniteValue(String),
    /// Two bins that follow each other do not share an edge. The texts are
    /// the two bins, as they print for debugging.
    NonAdjoiningBins(String, String),
}

/// What a `HistogramError` is in contracts.
pub ghost enum HistogramErrorView {
    EmptyBins,
    NonmonotonicBins,
    NonFiniteValue(Seq<char>),
    NonAdjoiningBins(Seq<char>, Seq<char>),
}

impl View for HistogramError {
    type V = HistogramErrorView;

    open spec fn view(&self) -> HistogramErrorView {
        match self {
            HistogramError::EmptyBins => HistogramErrorView::EmptyBins,
            HistogramError::NonmonotonicBins => HistogramErrorView::NonmonotonicBins,
            HistogramError::NonFiniteValue(value) => HistogramErrorView::NonFiniteValue(value@),
            HistogramError::NonAdjoiningBins(first, second) => HistogramErrorView::NonAdjoiningBins(
                first@,
                second@,
            ),
        }
    }
}

/// The text of a string as it prints when it is formatted for debugging:
/// between quotes, with what is not plain written as an escape.
pub uninterp spec fn quoted(text: Seq<char>) -> Seq<char>;

/// `format!("{:?}", text)`: the `Debug` form of a string, which is a function
/// of its characters alone.
#[verifier::external_body]
fn debug_quoted(text: &str) -> (q: String)
    ensures
        q@ == quoted(text@),
{
    format!("{:?}", text)
}

impl HistogramErrorView {
    /// What the error says of itself.
    pub open spec fn message(self) -> Seq<char> {
        match self {
            HistogramErrorView::EmptyBins => "Bins may not be empty"@,
            HistogramErrorView::NonmonotonicBins => "Bins must be monotonically increasing"@,
            HistogramErrorView::NonFiniteValue(value) =>
                "Bin edges and samples must be finite values, found: "@ + quoted(value),
            HistogramErrorView::NonAdjoiningBins(first, second) => "Neigboring bins "@ + first
                + " and "@ + second + " are not adjoining"@,
        }
    }
}

impl HistogramError {
    /// What the error says of itself, for a reader.
    pub fn message(&self) -> (text: String)
        ensures
            text@ == self@.message(),
    {
        match self {
            HistogramError::EmptyBins => String::from_str("Bins may not be empty"),
            HistogramError::NonmonotonicBins => String::from_str(
                "Bins must be monotonically increasing",
            ),
            HistogramError::NonFiniteValue(value) => {
                let mut text = String::from_str(
                    "Bin edges and samples must be finite values, found: ",
                );
                text.append(debug_quoted(value.as_str()).as_str());
                text
            },
            HistogramError::NonAdjoiningBins(first, second) => {
                let mut text = String::from_str("Neigboring bins ");
                text.append(first.as_str());
                text.append(" and ");
                text.append(second.as_str());
                text.append(" are not adjoining");
                text
            },
        }
    }
}

/// The error of a value that is not finite.
pub open spec fn not_finite<T: HistogramSupport>(value: T) -> HistogramErrorView {
    HistogramErrorView::NonFiniteValue(value.debug_text())
}

/// Accepts the finite values and refuses the others, with the error that
/// names the value.
pub fn ensure_finite<T: HistogramSupport>(value: T) -> (r: Result<(), HistogramError>)
    ensures
        value.finite() ==> r is Ok,
        !value.finite() ==> (r matches Err(e) && e@ == not_finite(value)),
{
    if value.is_finite() {
        Ok(())
    } else {
        Err(HistogramError::NonFiniteValue(value.debug_string()))
    }
}

/// A range of values: all below an end, all from a start up to an end, or
/// all from a start on. The start belongs to the range, the end does not.
#[derive(Debug, Clone, Copy, PartialEq)]
pub enum BinRange<T> {
    /// `..end`: all values below `end`.
    RangeTo(T),
    /// `start..end`: the values from `start` up to `end`, without `end`.
    Range(T, T),
    /// `start..`: all values from `start` on.
    RangeFrom(T),
}

impl<T: HistogramSupport> BinRange<T> {
    /// The range of all values below `end`.
    pub fn to(end: T) -> (r: Self)
        ensures
            r == BinRange::RangeTo(end),
    {
        BinRange::RangeTo(end)
    }

    /// The range from `start` up to `end`, without `end`.
    pub fn range(start: T, end: T) -> (r: Self)
        ensures
            r == BinRange::Range(start, end),
    {
        BinRange::Range(start, end)
    }

    /// The range of all values from `start` on.
    pub fn from(start: T) -> (r: Self)
        ensures
            r == BinRange::RangeFrom(start),
    {
        BinRange::RangeFrom(start)
    }

    /// True if `value` lies in the range. A value that cannot be compared
    /// lies in no range.
    pub open spec fn holds(self, value: T) -> bool {
        match self {
            BinRange::RangeTo(end) => less(value, end),
            BinRange::Range(start, end) => at_most(start, value) && less(value, end),
            BinRange::RangeFrom(start) => at_most(start, value),
        }
    }

    /// Where `value` lies seen from the range: in it (`Equal`), before its
    /// start (`Less`) or not before its end (`Greater`). A value that is not
    /// in a range without a start lies behind it, and one that is not in a
    /// range without an end lies before it.
    pub open spec fn side(self, value: T) -> Ordering {
        if self.holds(value) {
            Ordering::Equal
        } else {
            match self {
                BinRange::RangeTo(_) => Ordering::Greater,
                BinRange::RangeFrom(_) => Ordering::Less,
                BinRange::Range(start, _) => if less(value, start) {
                    Ordering::Less
                } else {
                    Ordering::Greater
                },
            }
        }
    }

    /// True if `value` lies in the range.
    pub fn contains(&self, value: &T) -> (b: bool)
        ensures
            b == self.holds(*value),
    {
        match self {
            BinRange::RangeTo(end) => value.less_than(end),
            BinRange::Range(start, end) => (start.less_than(value) || start.equal_to(value))
                && value.less_than(end),
            BinRange::RangeFrom(start) => start.less_than(value) || start.equal_to(value),
        }
    }

    /// Orders `value` relative to the range: `Equal` if the range contains
    /// it, `Less` if it lies before the range, `Greater` if behind it.
    pub fn cmp(&self, value: &T) -> (o: Ordering)
        ensures
            o == self.side(*value),
    {
        if self.contains(value) {
            Ordering::Equal
        } else {
            match self {
                BinRange::RangeTo(_) => Ordering::Greater,
                BinRange::RangeFrom(_) => Ordering::Less,
                BinRange::Range(start, _) => {
                    if value.less_than(start) {
                        Ordering::Less
                    } else {
                        Ordering::Greater
                    }
                },
            }
        }
    }

    /// The bound of the range at its start: the start, which belongs to the
    /// range, or none.
    pub fn start_bound(&self) -> (bound: std::ops::Bound<&T>)
        ensures
            bound == match self.start() {
                Some(start) => std::ops::Bound::Included(&start),
                None => std::ops::Bound::Unbounded,
            },
    {
        match self {
            BinRange::RangeTo(_) => std::ops::Bound::Unbounded,
            BinRange::Range(start, _) => std::ops::Bound::Included(start),
            BinRange::RangeFrom(start) => std::ops::Bound::Included(start),
        }
    }

    /// The bound of the range at its end: the end, which does not belong to
    /// the range, or none.
    pub fn end_bound(&self) -> (bound: std::ops::Bound<&T>)
        ensures
            bound == match self.end() {
                Some(end) => std::ops::Bound::Excluded(&end),
                None => std::ops::Bound::Unbounded,
            },
    {
        match self {
            BinRange::RangeTo(end) => std::ops::Bound::Excluded(end),
            BinRange::Range(_, end) => std::ops::Bound::Excluded(end),
            BinRange::RangeFrom(_) => std::ops::Bound::Unbounded,
        }
    }

    /// The start of the range, if it has one.
    pub open spec fn start(self) -> Option<T> {
        match self {
            BinRange::RangeTo(_) => None,
            BinRange::Range(start, _) => Some(start),
            BinRange::RangeFrom(start) => Some(start),
        }
    }

    /// The end of the range, if it has one.
    pub open spec fn end(self) -> Option<T> {
        match self {
            BinRange::RangeTo(end) => Some(end),
            BinRange::Range(_, end) => Some(end),
            BinRange::RangeFrom(_) => None,
        }
    }

    /// What the range prints when it is formatted for debugging.
    pub open spec fn debug_text(self) -> Seq<char> {
        match self {
            BinRange::RangeTo(end) => "RangeTo("@ + end.debug_text() + ")"@,
            BinRange::Range(start, end) => "Range("@ + start.debug_text() + ", "@
                + end.debug_text() + ")"@,
            BinRange::RangeFrom(start) => "RangeFrom("@ + start.debug_text() + ")"@,
        }
    }

    /// The range as it prints when it is formatted for debugging.
    pub fn debug_string(&self) -> (text: String)
        ensures
            text@ == self.debug_text(),
    {
        match self {
            BinRange::RangeTo(end) => {
                let mut text = String::from_str("RangeTo(");
                text.append(end.debug_string().as_str());
                text.append(")");
                text
            },
            BinRange::Range(start, end) => {
                let mut text = String::from_str("Range(");
                text.append(start.debug_string().as_str());
                text.append(", ");
                text.append(end.debug_string().as_str());
                text.append(")");
                text
            },
            BinRange::RangeFrom(start) => {
                let mut text = String::from_str("RangeFrom(");
                text.append(start.debug_string().as_str());
                text.append(")");
                text
            },
        }
    }
}

/// `std::ops::RangeTo`, the type of `..end`, with its one field `end`.
#[verifier::external_type_specification]
#[verifier::reject_recursive_types(Idx)]
pub struct ExRangeTo<Idx>(std::ops::RangeTo<Idx>);

/// `std::ops::RangeFrom`, the type of `start..`, with its one field
/// `start`.
#[verifier::external_type_specification]
#[verifier::reject_recursive_types(Idx)]
pub struct ExRangeFrom<Idx>(std::ops::RangeFrom<Idx>);

/// `std::ops::Bound`, an end of a range: a value that belongs to the range
/// (`Included`), one that does not (`Excluded`), or none (`Unbounded`).
#[verifier::external_type_specification]
#[verifier::reject_recursive_types(T)]
pub struct ExBound<T>(std::ops::Bound<T>);

impl<T: HistogramSupport> FromSpecImpl<std::ops::Range<T>> for BinRange<T> {
    open spec fn obeys_from_spec() -> bool {
        true
    }

    open spec fn from_spec(range: std::ops::Range<T>) -> Self {
        BinRange::Range(range.start, range.end)
    }
}

impl<T: HistogramSupport> From<std::ops::Range<T>> for BinRange<T> {
    /// `start..end` as a range of a bin.
    fn from(range: std::ops::Range<T>) -> (r: Self) {
        BinRange::Range(range.start, range.end)
    }
}

impl<T: HistogramSupport> FromSpecImpl<std::ops::RangeTo<T>> for BinRange<T> {
    open spec fn obeys_from_spec() -> bool {
        true
    }

    open spec fn from_spec(range: std::ops::RangeTo<T>) -> Self {
        BinRange::RangeTo(range.end)
    }
}

impl<T: HistogramSupport> From<std::ops::RangeTo<T>> for BinRange<T> {
    /// `..end` as a range of a bin.
    fn from(range: std::ops::RangeTo<T>) -> (r: Self) {
        BinRange::RangeTo(range.end)
    }
}

impl<T: HistogramSupport> FromSpecImpl<std::ops::RangeFrom<T>> for BinRange<T> {
    open spec fn obeys_from_spec() -> bool {
        true
    }

    open spec fn from_spec(range: std::ops::RangeFrom<T>) -> Self {
        BinRange::RangeFrom(range.start)
    }
}

impl<T: HistogramSupport> From<std::ops::RangeFrom<T>> for BinRange<T> {
    /// `start..` as a range of a bin.
    fn from(range: std::ops::RangeFrom<T>) -> (r: Self) {
        BinRange::RangeFrom(range.start)
    }
}

/// A bin of a histogram: a range and the number of samples counted in it.
#[derive(Debug, Clone, Copy, PartialEq)]
pub struct Bin<T> {
    /// The range of values that the bin counts.
    pub range: BinRange<T>,
    /// The number of samples counted in the bin.
    pub count: u64,
}

impl<T: HistogramSupport> Bin<T> {
    /// What the bin prints when it is formatted for debugging.
    pub open spec fn debug_text(self) -> Seq<char> {
        "Bin { range: "@ + self.range.debug_text() + ", count: "@ + decimal(self.count as nat)
            + " }"@
    }

    /// The bin as it prints when it is formatted for debugging.
    pub fn debug_string(&self) -> (text: String)
        ensures
            text@ == self.debug_text(),
    {
        let mut text = String::from_str("Bin { range: ");
        text.append(self.range.debug_string().as_str());
        text.append(", count: ");
        push_decimal(&mut text, self.count);
        text.append(" }");
        text
    }
}

/// The ranges of `bins`, in order.
pub open spec fn ranges_of<T>(bins: Seq<Bin<T>>) -> Seq<BinRange<T>> {
    bins.map_values(|bin: Bin<T>| bin.range)
}

/// The counts of `bins`, in order.
pub open spec fn counts_of<T>(bins: Seq<Bin<T>>) -> Seq<u64> {
    bins.map_values(|bin: Bin<T>| bin.count)
}

/// Bins with the given ranges that have counted nothing.
pub open spec fn fresh<T>(ranges: Seq<BinRange<T>>) -> Seq<Bin<T>> {
    ranges.map_values(|range: BinRange<T>| Bin { range, count: 0 })
}

/// The sum of `counts`.
pub open spec fn sum(counts: Seq<u64>) -> nat
    decreases counts.len(),
{
    if counts.len() == 0 {
        0
    } else {
        sum(counts.drop_last()) + counts.last() as nat
    }
}

/// True if the range at `i` has a finite start that lies before its finite
/// end, and the next range starts at that end.
pub open spec fn joins_next<T: HistogramSupport>(ranges: Seq<BinRange<T>>, i: int) -> bool {
    &&& ranges[i] matches BinRange::Range(start, end)
    &&& start.finite()
    &&& end.finite()
    &&& less(start, end)
    &&& ranges[i + 1].start() matches Some(next)
    &&& same(end, next)
}

/// True if the edge at `i` is finite and lies behind the edge before it.
pub open spec fn rises<T: HistogramSupport>(edges: Seq<T>, i: int) -> bool {
    edges[i].finite() && less(edges[i - 1], edges[i])
}

/// True if `ranges` divide the finite values among them: the first range
/// starts at the least value; every range but the last has a finite start
/// that lies before its finite end, which is the start of the next; the
/// last range has a finite start and either no end or, behind its start,
/// the greatest value for its end.
pub open spec fn is_partition<T: HistogramSupport>(ranges: Seq<BinRange<T>>) -> bool {
    &&& ranges.len() >= 1
    &&& ranges[0].start() matches Some(start) && same(start, T::least())
    &&& forall|i: int| 0 <= i < ranges.len() - 1 ==> #[trigger] joins_next(ranges, i)
    &&& match ranges.last() {
        BinRange::RangeFrom(start) => start.finite(),
        BinRange::Range(start, end) => start.finite() && less(start, end) && same(
            end,
            T::greatest(),
        ),
        BinRange::RangeTo(_) => false,
    }
}

/// True if the edge at `i` is taken as it is: the edge behind a first edge
/// that is the least value ends the first bin, whatever it is.
pub open spec fn is_unchecked<T: HistogramSupport>(edges: Seq<T>, i: int) -> bool {
    i == 1 && same(edges[0], T::least())
}

/// What is wrong with the edge at `i`, seen after the edge before it: the
/// first edge has to be finite, and every other has to be finite and to lie
/// behind the one before. An edge that cannot be compared with the one
/// before it is blamed on that one. The edge behind a first edge that is
/// the least value is not looked at.
pub open spec fn edge_fault<T: HistogramSupport>(edges: Seq<T>, i: int) -> Option<
    HistogramErrorView,
> {
    if i == 0 {
        if edges[0].finite() {
            None
        } else {
            Some(not_finite(edges[0]))
        }
    } else if is_unchecked(edges, i) {
        None
    } else if less(edges[i - 1], edges[i]) {
        if edges[i].finite() {
            None
        } else {
            Some(not_finite(edges[i]))
        }
    } else if at_most(edges[i], edges[i - 1]) {
        Some(HistogramErrorView::NonmonotonicBins)
    } else {
        Some(not_finite(edges[i - 1]))
    }
}

/// The first thing that is wrong among the first `n` edges, if any is.
pub open spec fn first_edge_fault<T: HistogramSupport>(edges: Seq<T>, n: int) -> Option<
    HistogramErrorView,
>
    decreases n,
{
    if n <= 0 {
        None
    } else if first_edge_fault(edges, n - 1) is Some {
        first_edge_fault(edges, n - 1)
    } else {
        edge_fault(edges, n - 1)
    }
}

/// Why no histogram can be built from `edges` as the left edges of its
/// bins, if that is so: there is no edge, or an edge that is looked at has
/// a fault.
pub open spec fn edges_fault<T: HistogramSupport>(edges: Seq<T>) -> Option<HistogramErrorView> {
    if edges.len() == 0 {
        Some(HistogramErrorView::EmptyBins)
    } else {
        first_edge_fault(edges, edges.len() as int)
    }
}

/// The ranges of the histogram with the given left edges. Each edge starts
/// a range that ends at the next edge. In front of them stands the range
/// from the least value to the first edge, unless the first edge is the
/// least value; behind them the range from the last edge on, unless the
/// last edge is the greatest value. A single edge at the least value gives
/// the one range from the least value to the greatest.
pub open spec fn ranges_of_edges<T: HistogramSupport>(edges: Seq<T>) -> Seq<BinRange<T>> {
    if edges.len() == 1 && same(edges[0], T::least()) {
        seq![BinRange::Range(T::least(), T::greatest())]
    } else {
        let head = if less(T::least(), edges[0]) {
            seq![BinRange::Range(T::least(), edges[0])]
        } else {
            Seq::empty()
        };
        let middle = Seq::new(
            (edges.len() - 1) as nat,
            |i: int| BinRange::Range(edges[i], edges[i + 1]),
        );
        let tail = if less(edges.last(), T::greatest()) {
            seq![BinRange::RangeFrom(edges.last())]
        } else {
            Seq::empty()
        };
        head + middle + tail
    }
}

/// `ranges` made to begin at the least value: a first range without a start
/// is given the least value for its start; in front of a first range that
/// starts behind the least value stands the range from there to its start.
pub open spec fn widened<T: HistogramSupport>(ranges: Seq<BinRange<T>>) -> Seq<BinRange<T>> {
    match ranges[0] {
        BinRange::RangeTo(end) => seq![BinRange::Range(T::least(), end)] + ranges.skip(1),
        BinRange::Range(start, _) => if less(T::least(), start) {
            seq![BinRange::Range(T::least(), start)] + ranges
        } else {
            ranges
        },
        BinRange::RangeFrom(start) => if less(T::least(), start) {
            seq![BinRange::Range(T::least(), start)] + ranges
        } else {
            ranges
        },
    }
}

/// `ranges` made to reach beyond every value: behind a last range that ends
/// no later than the greatest value stands the range from its end on.
pub open spec fn extended<T: HistogramSupport>(ranges: Seq<BinRange<T>>) -> Seq<BinRange<T>> {
    match ranges.last() {
        BinRange::RangeTo(end) => if at_most(end, T::greatest()) {
            ranges.push(BinRange::RangeFrom(end))
        } else {
            ranges
        },
        BinRange::Range(_, end) => if at_most(end, T::greatest()) {
            ranges.push(BinRange::RangeFrom(end))
        } else {
            ranges
        },
        BinRange::RangeFrom(_) => ranges,
    }
}

/// The ranges of the histogram that is built from `ranges`.
pub open spec fn completed_ranges<T: HistogramSupport>(ranges: Seq<BinRange<T>>) -> Seq<
    BinRange<T>,
> {
    extended(widened(ranges))
}

/// The edge that the range has for its start, or for its end if it has no
/// start.
pub open spec fn start_edge<T>(range: BinRange<T>) -> T {
    match range {
        BinRange::Range(start, _) => start,
        BinRange::RangeFrom(start) => start,
        BinRange::RangeTo(end) => end,
    }
}

/// The edge that the range has for its end, or for its start if it has no
/// end.
pub open spec fn end_edge<T>(range: BinRange<T>) -> T {
    match range {
        BinRange::Range(_, end) => end,
        BinRange::RangeTo(end) => end,
        BinRange::RangeFrom(start) => start,
    }
}

/// What a look at ranges that are to stand one behind the other comes to.
pub ghost enum Verdict {
    /// Nothing is wrong.
    Sound,
    /// Something is wrong, and this is the error that says so.
    Fault(HistogramErrorView),
    /// A range without an end has another behind it, or a range without a
    /// start has another before it: such ranges cannot be looked at.
    Stuck,
}

/// What a look at the range at `i` and the next comes to. The start of the
/// one, if it has one, has to be finite. Then the one needs an end and the
/// other a start, both have to be finite, and the end of the one has to be
/// the start of the other.
pub open spec fn pair_verdict<T: HistogramSupport>(ranges: Seq<BinRange<T>>, i: int) -> Verdict {
    let start = start_edge(ranges[i]);
    let end = end_edge(ranges[i]);
    let next = start_edge(ranges[i + 1]);
    if !(ranges[i] is RangeTo) && !start.finite() {
        Verdict::Fault(not_finite(start))
    } else if ranges[i] is RangeFrom || ranges[i + 1] is RangeTo {
        Verdict::Stuck
    } else if !end.finite() {
        Verdict::Fault(not_finite(end))
    } else if !next.finite() {
        Verdict::Fault(not_finite(next))
    } else if !same(end, next) {
        Verdict::Fault(
            HistogramErrorView::NonAdjoiningBins(
                (Bin { range: ranges[i], count: 0 }).debug_text(),
                (Bin { range: ranges[i + 1], count: 0 }).debug_text(),
            ),
        )
    } else {
        Verdict::Sound
    }
}

/// What a look at the first `n` pairs of ranges that follow each other
/// comes to: the verdict on the first pair that is not sound, if there is
/// one.
pub open spec fn pairs_verdict<T: HistogramSupport>(ranges: Seq<BinRange<T>>, n: int) -> Verdict
    decreases n,
{
    if n <= 0 {
        Verdict::Sound
    } else if pairs_verdict(ranges, n - 1) is Sound {
        pair_verdict(ranges, n - 1)
    } else {
        pairs_verdict(ranges, n - 1)
    }
}

/// True if the range at `i` has a start and an end and the start does not
/// lie before the end.
pub open spec fn is_inverted<T: HistogramSupport>(ranges: Seq<BinRange<T>>, i: int) -> bool {
    ranges[i] matches BinRange::Range(start, end) && !less(start, end)
}

/// What a look at `ranges`, from which a histogram is to be built, comes
/// to. The checks are made in this order: there has to be a range; the
/// start of the first has to be finite; of the completed ranges, each pair
/// has to be sound, from the front; and the last has to have no end or a
/// finite one.
pub open spec fn ranges_verdict<T: HistogramSupport>(ranges: Seq<BinRange<T>>) -> Verdict {
    let all = completed_ranges(ranges);
    if ranges.len() == 0 {
        Verdict::Fault(HistogramErrorView::EmptyBins)
    } else if !(ranges[0] is RangeTo) && !start_edge(ranges[0]).finite() {
        Verdict::Fault(not_finite(start_edge(ranges[0])))
    } else if !(pairs_verdict(all, all.len() - 1) is Sound) {
        pairs_verdict(all, all.len() - 1)
    } else if all.last() is Range && !end_edge(all.last()).finite() {
        Verdict::Fault(not_finite(end_edge(all.last())))
    } else {
        Verdict::Sound
    }
}

/// A histogram: bins that divide the finite values of `T` among them, each
/// with the number of samples counted in it, and the number of all samples.
#[derive(Debug, Clone, PartialEq)]
pub struct Histogram<T> {
    bins: Vec<Bin<T>>,
    n_samples: u64,
}

impl<T: HistogramSupport> Histogram<T> {
    /// The bins, in order.
    pub closed spec fn bins(&self) -> Seq<Bin<T>> {
        self.bins@
    }

    /// The number of all samples counted.
    pub closed spec fn samples(&self) -> nat {
        self.n_samples as nat
    }

    /// True of every histogram that this library hands out: it has a bin,
    /// and every bin has a start.
    pub open spec fn has_starts(&self) -> bool {
        &&& self.bins().len() >= 1
        &&& forall|i: int| 0 <= i < self.bins().len() ==> !((#[trigger] self.bins()[i]).range is RangeTo)
    }

    /// True of the histograms that samples can be counted in: the ranges of
    /// the bins divide the finite values among them, and the samples are as
    /// many as the bins have counted. A histogram is built so from edges
    /// and ranges in which every start lies before its end.
    pub open spec fn wf(&self) -> bool {
        &&& self.has_starts()
        &&& is_partition(ranges_of(self.bins()))
        &&& self.samples() == sum(counts_of(self.bins()))
    }

    /// Builds a histogram from the ranges of its bins.
    ///
    /// The ranges have to stand back to back, each ending where the next
    /// starts, with finite edges. A bin in front and a bin behind are added
    /// where the ranges do not reach the least value and beyond the
    /// greatest; a first range without a start is made to start at the
    /// least value. Whether a start lies before its end is not looked at:
    /// the histogram is well formed if that is so in all its ranges.
    ///
    /// Ranges of which one has no end but another behind it, or no start
    /// but another before it, are taken only where an earlier pair of them
    /// is refused.
    pub fn with_bins(bins: &[BinRange<T>]) -> (r: Result<Self, HistogramError>)
        requires
            !(ranges_verdict(bins@) is Stuck),
        ensures
            ranges_verdict(bins@) matches Verdict::Fault(fault) ==> (r matches Err(e) && e@
                == fault),
            ranges_verdict(bins@) is Sound ==> (r matches Ok(h) && h.bins() == fresh(
                completed_ranges(bins@),
            ) && h.samples() == 0 && h.has_starts() && h.wf() == is_partition(
                completed_ranges(bins@),
            )),
    {
        if bins.len() == 0 {
            return Err(HistogramError::EmptyBins);
        }
        let min = T::min_value();
        let max = T::max_value();
        match bins[0] {
            BinRange::RangeTo(_) => {},
            BinRange::Range(start, _) => {
                if !start.is_finite() {
                    return Err(HistogramError::NonFiniteValue(start.debug_string()));
                }
            },
            BinRange::RangeFrom(start) => {
                if !start.is_finite() {
                    return Err(HistogramError::NonFiniteValue(start.debug_string()));
                }
            },
        }
        let all = complete(bins, min, max);
        let ghost ranges = completed_ranges(bins@);
        let n_bins = all.len();
        let mut i: usize = 0;
        while i < n_bins - 1
            invariant
                n_bins == all@.len(),
                n_bins >= 1,
                0 <= i <= n_bins - 1,
                all@ == fresh(ranges),
                ranges == completed_ranges(bins@),
                ranges.len() == n_bins,
                !(ranges_verdict(bins@) is Stuck),
                bins@.len() > 0,
                bins@[0] is RangeTo || start_edge(bins@[0]).finite(),
                pairs_verdict(ranges, i as int) is Sound,
            decreases n_bins - i,
        {
            let first = all[i];
            let second = all[i + 1];
            proof {
                assert(first == Bin { range: ranges[i as int], count: 0 });
                assert(second == Bin { range: ranges[i + 1], count: 0 });
                lemma_pairs_verdict_stays(ranges, i + 1, n_bins - 1);
            }
            match check_pair(&first, &second) {
                Some(e) => {
                    return Err(e);
                },
                None => {},
            }
            i += 1;
        }
        match all[n_bins - 1].range {
            BinRange::Range(_, end) => {
                if !end.is_finite() {
                    proof {
                        assert(ranges.last() == all@.last().range);
                    }
                    return Err(HistogramError::NonFiniteValue(end.debug_string()));
                }
            },
            BinRange::RangeFrom(_) => {},
            BinRange::RangeTo(_) => {},
        }
        proof {
            assert(ranges.last() == all@.last().range);
            assert(ranges_of(all@) =~= ranges);
            lemma_sound_ranges_have_starts(bins@);
            assert forall|k: int| 0 <= k < all@.len() implies !((#[trigger] all@[k]).range
                is RangeTo) by {
                assert(all@[k].range == ranges[k]);
            }
            lemma_fresh_counts(ranges);
        }
        Ok(Histogram { bins: all, n_samples: 0 })
    }

    /// Builds a histogram from the left edges of its bins.
    ///
    /// The edges have to be finite and increasing, and there has to be one
    /// at least. The bins reach from each edge to the next; a bin in front
    /// and a bin behind are added where the edges do not reach the least
    /// and the greatest value. Behind a first edge that is the least value
    /// the next edge is taken as it is: a histogram is built also where
    /// that edge is not finite or does not lie behind the first, and such a
    /// histogram is not well formed.
    pub fn new(left_edges: &[T]) -> (r: Result<Self, HistogramError>)
        ensures
            edges_fault(left_edges@) matches Some(fault) ==> (r matches Err(e) && e@ == fault),
            edges_fault(left_edges@) is None ==> (r matches Ok(h) && h.bins() == fresh(
                ranges_of_edges(left_edges@),
            ) && h.samples() == 0 && h.has_starts() && h.wf() == is_partition(
                ranges_of_edges(left_edges@),
            )),
    {
        if left_edges.len() == 0 {
            return Err(HistogramError::EmptyBins);
        }
        let first = left_edges[0];
        if !first.is_finite() {
            proof {
                reveal_with_fuel(first_edge_fault, 2);
                lemma_first_fault_stays(left_edges@, 1, left_edges@.len() as int);
            }
            return Err(HistogramError::NonFiniteValue(first.debug_string()));
        }
        let min = T::min_value();
        let max = T::max_value();
        let mut bins: Vec<Bin<T>> = Vec::new();
        proof {
            reveal_with_fuel(first_edge_fault, 2);
            T::lemma_bounds(first);
            T::lemma_bounds(min);
            T::lemma_bounds(max);
        }
        let at_least = first.equal_to(&min);
        if left_edges.len() == 1 && at_least {
            bins.push(Bin { range: BinRange::range(min, max), count: 0 });
            proof {
                assert(bins@ =~= fresh(ranges_of_edges(left_edges@)));
                assert(ranges_of(bins@) =~= ranges_of_edges(left_edges@));
                lemma_fresh_counts(ranges_of_edges(left_edges@));
            }
            return Ok(Histogram { bins, n_samples: 0 });
        }
        if min.less_than(&first) {
            bins.push(Bin { range: BinRange::range(min, first), count: 0 });
        }
        let ghost head = bins@;
        let mut current = first;
        let mut i: usize = 1;
        while i < left_edges.len()
            invariant
                1 <= i <= left_edges.len(),
                current == left_edges@[i - 1],
                first == left_edges@[0],
                at_least == same(first, T::least()),
                first_edge_fault(left_edges@, i as int) is None,
                head.len() <= 1,
                bins@ =~= head + fresh(
                    Seq::new((i - 1) as nat, |k: int| BinRange::Range(left_edges@[k], left_edges@[k + 1])),
                ),
            decreases left_edges.len() - i,
        {
            let next = left_edges[i];
            if i == 1 && at_least {
                bins.push(Bin { range: BinRange::range(current, next), count: 0 });
                current = next;
            } else if current.less_than(&next) {
                if !next.is_finite() {
                    proof {
                        assert(first_edge_fault(left_edges@, left_edges@.len() as int) == Some(
                            not_finite(next),
                        )) by {
                            lemma_first_fault_stays(left_edges@, i as int + 1, left_edges@.len() as int);
                        }
                    }
                    return Err(HistogramError::NonFiniteValue(next.debug_string()));
                }
                bins.push(Bin { range: BinRange::range(current, next), count: 0 });
                current = next;
            } else if next.less_than(&current) || next.equal_to(&current) {
                proof {
                    lemma_first_fault_stays(left_edges@, i as int + 1, left_edges@.len() as int);
                }
                return Err(HistogramError::NonmonotonicBins);
            } else {
                proof {
                    lemma_first_fault_stays(left_edges@, i as int + 1, left_edges@.len() as int);
                }
                return Err(HistogramError::NonFiniteValue(current.debug_string()));
            }
            i += 1;
        }
        if current.less_than(&max) {
            bins.push(Bin { range: BinRange::from(current), count: 0 });
        }
        proof {
            assert(bins@ =~= fresh(ranges_of_edges(left_edges@)));
            assert(ranges_of(bins@) =~= ranges_of_edges(left_edges@));
            lemma_fresh_counts(ranges_of_edges(left_edges@));
        }
        Ok(Histogram { bins, n_samples: 0 })
    }

    /// True if `value` is finite and lies in one of the bins. Only a
    /// histogram whose last bin ends at the greatest value leaves a finite
    /// value out: that value.
    pub open spec fn covers(&self, value: T) -> bool {
        value.finite() && match self.bins().last().range {
            BinRange::RangeFrom(_) => true,
            BinRange::Range(_, end) => less(value, end),
            BinRange::RangeTo(_) => false,
        }
    }

    /// True if `value` is finite and lies in one of the bins.
    pub fn can_sample(&self, value: &T) -> (b: bool)
        requires
            self.wf(),
        ensures
            b == self.covers(*value),
    {
        if !value.is_finite() {
            return false;
        }
        match self.bins[self.bins.len() - 1].range {
            BinRange::RangeFrom(_) => true,
            BinRange::Range(_, end) => value.less_than(&end),
            BinRange::RangeTo(_) => false,
        }
    }

    /// Counts a sample: the bin that holds `value` counts one more, and so
    /// does the histogram. A value that is not finite is refused, and
    /// nothing is counted.
    pub fn sample(&mut self, value: T) -> (r: Result<(), HistogramError>)
        requires
            old(self).wf(),
            value.finite() ==> old(self).covers(value) && old(self).samples() < u64::MAX,
        ensures
            final(self).wf(),
            value.finite() ==> r is Ok && final(self).bins() == counted(old(self).bins(), value)
                && final(self).samples() == old(self).samples() + 1,
            !value.finite() ==> (r matches Err(e) && e@ == not_finite(value)) && final(self).bins()
                == old(self).bins() && final(self).samples() == old(self).samples(),
    {
        if !value.is_finite() {
            return Err(HistogramError::NonFiniteValue(value.debug_string()));
        }
        let ghost ranges = ranges_of(self.bins@);
        proof {
            T::lemma_bounds(value);
            T::lemma_bounds(T::least());
        }
        let mut low: usize = 0;
        let mut high: usize = self.bins.len();
        while high - low > 1
            invariant
                0 <= low < high <= self.bins@.len(),
                ranges == ranges_of(self.bins@),
                is_partition(ranges),
                value.finite(),
                ranges[low as int].start() matches Some(start) && at_most(start, value),
                high < ranges.len() ==> (ranges[high as int].start() matches Some(start) && less(
                    value,
                    start,
                )),
            decreases high - low,
        {
            let middle = low + (high - low) / 2;
            proof {
                assert(joins_next(ranges, middle - 1));
            }
            let before = match self.bins[middle].range {
                BinRange::RangeTo(_) => false,
                BinRange::Range(start, _) => value.less_than(&start),
                BinRange::RangeFrom(start) => value.less_than(&start),
            };
            if before {
                high = middle;
            } else {
                proof {
                    let start = ranges[middle as int].start()->0;
                    T::lemma_bounds(start);
                }
                low = middle;
            }
        }
        let bin = self.bins[low];
        proof {
            if low < ranges.len() - 1 {
                assert(joins_next(ranges, low as int));
            }
            lemma_one_bin_holds(ranges, value, low as int);
            lemma_count_within_sum(counts_of(self.bins@), low as int);
            lemma_sum_update(counts_of(self.bins@), low as int, (bin.count + 1) as u64);
        }
        let ghost before = self.bins@;
        self.bins.set(low, Bin { range: bin.range, count: bin.count + 1 });
        self.n_samples = self.n_samples + 1;
        proof {
            assert(self.bins@ =~= counted(before, value)) by {
                assert forall|k: int| 0 <= k < before.len() implies #[trigger] self.bins@[k]
                    == counted(before, value)[k] by {
                    assert(ranges[k] == before[k].range);
                }
            }
            assert(ranges_of(self.bins@) =~= ranges);
            assert(counts_of(self.bins@) =~= counts_of(before).update(
                low as int,
                (bin.count + 1) as u64,
            ));
        }
        Ok(())
    }

    /// The bins, from the first to the last.
    pub fn iter(&self) -> (bins: std::slice::Iter<'_, Bin<T>>)
        ensures
            bins.remaining().unref() == self.bins(),
    {
        broadcast use vstd::std_specs::slice::axiom_spec_slice_iter;

        self.bins.iter()
    }

    /// The left edges of the bins and their counts, side by side.
    pub fn to_arrays(&self) -> (arrays: (Vec<T>, Vec<u64>))
        requires
            self.has_starts(),
        ensures
            arrays.0@ == starts_of(self.bins()),
            arrays.1@ == counts_of(self.bins()),
    {
        let mut starts: Vec<T> = Vec::with_capacity(self.n_bins());
        let mut counts: Vec<u64> = Vec::with_capacity(self.n_bins());
        let mut i: usize = 0;
        while i < self.bins.len()
            invariant
                0 <= i <= self.bins@.len(),
                self.has_starts(),
                starts@ =~= starts_of(self.bins@.take(i as int)),
                counts@ =~= counts_of(self.bins@.take(i as int)),
            decreases self.bins@.len() - i,
        {
            let bin = self.bins[i];
            proof {
                assert(!(self.bins()[i as int].range is RangeTo));
                assert(self.bins@.take(i + 1) =~= self.bins@.take(i as int).push(bin));
            }
            match bin.range {
                BinRange::Range(start, _) => {
                    starts.push(start);
                },
                BinRange::RangeFrom(start) => {
                    starts.push(start);
                },
                BinRange::RangeTo(_) => {
                    assert(false);
                },
            }
            counts.push(bin.count);
            i += 1;
        }
        proof {
            assert(self.bins@.take(i as int) =~= self.bins@);
        }
        (starts, counts)
    }

    /// Builds a histogram from the left edges of its bins and their
    /// counts, side by side. The edges are taken as by `new`. Each bin that
    /// has a count beside it starts with that count, the others with none.
    pub fn from_arrays(bins: Vec<T>, counts: Vec<u64>) -> (r: Result<Self, HistogramError>)
        requires
            bins@.len() == counts@.len(),
            edges_fault(bins@) is None ==> sum(assigned_counts(bins@, counts@)) <= u64::MAX,
        ensures
            edges_fault(bins@) matches Some(fault) ==> (r matches Err(e) && e@ == fault),
            edges_fault(bins@) is None ==> (r matches Ok(h) && h.bins() == with_counts(
                ranges_of_edges(bins@),
                counts@,
            ) && h.samples() == sum(assigned_counts(bins@, counts@)) && h.has_starts() && h.wf()
                == is_partition(ranges_of_edges(bins@))),
    {
        let mut hist = match Self::new(bins.as_slice()) {
            Ok(hist) => hist,
            Err(e) => {
                return Err(e);
            },
        };
        let ghost ranges = ranges_of_edges(bins@);
        let ghost given = assigned_counts(bins@, counts@);
        let mut n_samples: u64 = 0;
        let mut i: usize = 0;
        proof {
            lemma_fresh_counts(ranges);
        }
        while i < hist.bins.len() && i < counts.len()
            invariant
                0 <= i <= hist.bins@.len(),
                i <= counts@.len(),
                given == assigned_counts(bins@, counts@),
                ranges == ranges_of_edges(bins@),
                given.len() <= counts@.len(),
                given.len() <= hist.bins@.len(),
                given =~= counts@.take(given.len() as int),
                sum(given) <= u64::MAX,
                hist.bins@.len() == ranges.len(),
                forall|k: int|
                    0 <= k < hist.bins@.len() ==> #[trigger] hist.bins@[k] == (Bin {
                        range: ranges[k],
                        count: if k < i {
                            counts@[k]
                        } else {
                            0
                        },
                    }),
                n_samples == sum(given.take(i as int)),
                n_samples == sum(counts_of(hist.bins@)),
            decreases hist.bins@.len() - i,
        {
            let bin = hist.bins[i];
            proof {
                assert(given.take(i + 1).drop_last() =~= given.take(i as int));
                lemma_sum_prefix(given, i + 1);
                lemma_sum_update(counts_of(hist.bins@), i as int, counts@[i as int]);
            }
            let ghost before = hist.bins@;
            hist.bins.set(i, Bin { range: bin.range, count: counts[i] });
            n_samples = n_samples + counts[i];
            proof {
                assert(counts_of(hist.bins@) =~= counts_of(before).update(i as int, counts@[i as int]));
            }
            i += 1;
        }
        hist.n_samples = n_samples;
        proof {
            assert(given.take(i as int) =~= given);
            assert(ranges_of(hist.bins@) =~= ranges);
            assert forall|k: int| 0 <= k < hist.bins@.len() implies !((#[trigger] hist.bins@[k]).range
                is RangeTo) by {
                assert(hist.bins@[k].range == ranges[k]);
            }
        }
        Ok(hist)
    }

    /// The number of all samples counted.
    pub fn n_samples(&self) -> (n: u64)
        ensures
            n == self.samples(),
    {
        self.n_samples
    }

    /// The number of bins.
    pub fn n_bins(&self) -> (n: usize)
        ensures
            n == self.bins().len(),
    {
        self.bins.len()
    }
}

/// Builds the bins for `bins`, completed in front and behind, with nothing
/// counted.
fn complete<T: HistogramSupport>(bins: &[BinRange<T>], min: T, max: T) -> (all: Vec<Bin<T>>)
    requires
        bins@.len() > 0,
        min == T::least(),
        max == T::greatest(),
    ensures
        all@ == fresh(completed_ranges(bins@)),
{
    let mut all: Vec<Bin<T>> = Vec::with_capacity(bins.len());
    let mut from: usize = 0;
    match bins[0] {
        BinRange::RangeTo(end) => {
            all.push(Bin { range: BinRange::range(min, end), count: 0 });
            from = 1;
        },
        BinRange::Range(start, _) => {
            if min.less_than(&start) {
                all.push(Bin { range: BinRange::range(min, start), count: 0 });
            }
        },
        BinRange::RangeFrom(start) => {
            if min.less_than(&start) {
                all.push(Bin { range: BinRange::range(min, start), count: 0 });
            }
        },
    }
    let ghost head = all@;
    let mut i: usize = from;
    while i < bins.len()
        invariant
            from <= i <= bins@.len(),
            all@ =~= head + fresh(bins@.subrange(from as int, i as int)),
        decreases bins@.len() - i,
    {
        all.push(Bin { range: bins[i], count: 0 });
        proof {
            assert(bins@.subrange(from as int, i + 1) =~= bins@.subrange(from as int, i as int).push(
                bins@[i as int],
            ));
        }
        i += 1;
    }
    let last = all[all.len() - 1].range;
    match last {
        BinRange::RangeTo(end) => {
            if end.less_than(&max) || end.equal_to(&max) {
                all.push(Bin { range: BinRange::from(end), count: 0 });
            }
        },
        BinRange::Range(_, end) => {
            if end.less_than(&max) || end.equal_to(&max) {
                all.push(Bin { range: BinRange::from(end), count: 0 });
            }
        },
        BinRange::RangeFrom(_) => {},
    }
    all
}

/// Checks two bins that follow each other in a histogram that is being
/// built: hands out what is wrong between them, if anything is.
fn check_pair<T: HistogramSupport>(first: &Bin<T>, second: &Bin<T>) -> (fault: Option<
    HistogramError,
>)
    requires
        !(pair_verdict(seq![first.range, second.range], 0) is Stuck),
        first.count == 0,
        second.count == 0,
    ensures
        match pair_verdict(seq![first.range, second.range], 0) {
            Verdict::Fault(f) => fault matches Some(e) && e@ == f,
            _ => fault is None,
        },
{
    match first.range {
        BinRange::Range(start, _) => {
            if !start.is_finite() {
                return Some(HistogramError::NonFiniteValue(start.debug_string()));
            }
        },
        BinRange::RangeFrom(start) => {
            if !start.is_finite() {
                return Some(HistogramError::NonFiniteValue(start.debug_string()));
            }
        },
        BinRange::RangeTo(_) => {},
    }
    let end = match first.range {
        BinRange::Range(_, end) => end,
        BinRange::RangeTo(end) => end,
        BinRange::RangeFrom(start) => start,
    };
    let next = match second.range {
        BinRange::Range(start, _) => start,
        BinRange::RangeFrom(start) => start,
        BinRange::RangeTo(end) => end,
    };
    if !end.is_finite() {
        Some(HistogramError::NonFiniteValue(end.debug_string()))
    } else if !next.is_finite() {
        Some(HistogramError::NonFiniteValue(next.debug_string()))
    } else if !end.equal_to(&next) {
        Some(HistogramError::NonAdjoiningBins(first.debug_string(), second.debug_string()))
    } else {
        None
    }
}

/// A verdict on the first `n` pairs that is not sound is the verdict on any
/// more.
pub proof fn lemma_pairs_verdict_stays<T: HistogramSupport>(
    ranges: Seq<BinRange<T>>,
    n: int,
    m: int,
)
    requires
        0 <= n <= m,
    ensures
        !(pairs_verdict(ranges, n) is Sound) ==> pairs_verdict(ranges, m) == pairs_verdict(
            ranges,
            n,
        ),
    decreases m - n,
{
    if n < m {
        lemma_pairs_verdict_stays(ranges, n, m - 1);
    }
}

/// Of pairs that are sound, each is sound.
pub proof fn lemma_sound_pairs<T: HistogramSupport>(ranges: Seq<BinRange<T>>, n: int)
    requires
        0 <= n,
        pairs_verdict(ranges, n) is Sound,
    ensures
        forall|i: int| 0 <= i < n ==> #[trigger] pair_verdict(ranges, i) is Sound,
    decreases n,
{
    if n > 0 {
        lemma_sound_pairs(ranges, n - 1);
    }
}

/// Ranges that are sound are, once completed, ranges with a start, and the
/// last of them has no end: the histogram has a bin for every finite value.
pub proof fn lemma_sound_ranges_have_starts<T: HistogramSupport>(ranges: Seq<BinRange<T>>)
    requires
        ranges_verdict(ranges) is Sound,
    ensures
        completed_ranges(ranges).len() >= 1,
        forall|k: int|
            0 <= k < completed_ranges(ranges).len() ==> !((#[trigger] completed_ranges(
                ranges,
            )[k]) is RangeTo),
        completed_ranges(ranges).last() is RangeFrom,
{
    let all = completed_ranges(ranges);
    let wide = widened(ranges);
    lemma_sound_pairs(all, all.len() - 1);
    assert(all.len() >= wide.len() >= 1);
    assert(all[0] == wide[0]);
    assert forall|k: int| 0 <= k < all.len() implies !((#[trigger] all[k]) is RangeTo) by {
        if k > 0 {
            assert(pair_verdict(all, k - 1) is Sound);
        }
    }
    T::lemma_bounds(end_edge(wide.last()));
    T::lemma_bounds(T::greatest());
}

/// Ranges that are sound and in which every start lies before its end
/// divide, once completed, the finite values among them: the histogram that
/// `with_bins` builds from them is well formed.
pub proof fn lemma_sound_ranges_partition<T: HistogramSupport>(ranges: Seq<BinRange<T>>)
    requires
        ranges_verdict(ranges) is Sound,
        forall|i: int|
            0 <= i < completed_ranges(ranges).len() ==> !#[trigger] is_inverted(
                completed_ranges(ranges),
                i,
            ),
    ensures
        is_partition(completed_ranges(ranges)),
{
    let all = completed_ranges(ranges);
    let wide = widened(ranges);
    lemma_sound_ranges_have_starts(ranges);
    lemma_sound_pairs(all, all.len() - 1);
    T::lemma_bounds(T::least());
    T::lemma_bounds(T::greatest());
    T::lemma_bounds(start_edge(ranges[0]));
    assert(all[0] == wide[0]);
    assert forall|i: int| 0 <= i < all.len() - 1 implies #[trigger] joins_next(all, i) by {
        assert(pair_verdict(all, i) is Sound);
        assert(!is_inverted(all, i));
    }
    if all.len() >= 2 {
        assert(pair_verdict(all, all.len() - 2) is Sound);
    }
}

/// `bins` after a sample of `value`: every bin that holds the value has
/// counted one more. In a histogram that is exactly one bin.
pub open spec fn counted<T: HistogramSupport>(bins: Seq<Bin<T>>, value: T) -> Seq<Bin<T>> {
    bins.map_values(
        |bin: Bin<T>|
            if bin.range.holds(value) {
                Bin { range: bin.range, count: (bin.count + 1) as u64 }
            } else {
                bin
            },
    )
}

/// In ranges that divide the finite values among them, the starts rise:
/// a range starts where the one before it ends, and no earlier than any
/// range before it.
pub proof fn lemma_starts_rise<T: HistogramSupport>(ranges: Seq<BinRange<T>>, i: int, j: int)
    requires
        is_partition(ranges),
        0 <= i < j < ranges.len(),
    ensures
        ranges[i] matches BinRange::Range(start, end) && start.finite() && end.finite() && less(
            start,
            end,
        ),
        ranges[j].start() matches Some(later) && later.comparable() && ranges[i].end()->0.position()
            <= later.position(),
    decreases j - i,
{
    assert(joins_next(ranges, i));
    if i + 1 < j {
        lemma_starts_rise(ranges, i + 1, j);
        T::lemma_bounds(ranges[i + 1].start()->0);
        T::lemma_bounds(ranges[i + 1].end()->0);
    }
}

/// In ranges that divide the finite values among them, a value lies in one
/// range at most.
pub proof fn lemma_one_bin_holds<T: HistogramSupport>(ranges: Seq<BinRange<T>>, value: T, i: int)
    requires
        is_partition(ranges),
        0 <= i < ranges.len(),
        ranges[i].holds(value),
    ensures
        forall|k: int| 0 <= k < ranges.len() && k != i ==> !(#[trigger] ranges[k]).holds(value),
{
    assert forall|k: int| 0 <= k < ranges.len() && k != i implies !(#[trigger] ranges[k]).holds(
        value,
    ) by {
        if k < i {
            lemma_starts_rise(ranges, k, i);
        } else {
            lemma_starts_rise(ranges, i, k);
        }
    }
}

/// In ranges that divide the finite values among them, a finite value that
/// lies before the start of the range at `k`, or, where `k` is the number
/// of ranges, before the end of the last range if it has one, lies in one
/// of the ranges before `k`.
pub proof fn lemma_some_bin_holds<T: HistogramSupport>(
    ranges: Seq<BinRange<T>>,
    value: T,
    k: int,
)
    requires
        is_partition(ranges),
        value.finite(),
        1 <= k <= ranges.len(),
        k < ranges.len() ==> less(value, start_edge(ranges[k])),
        k == ranges.len() ==> !(ranges.last() is Range) || less(value, end_edge(ranges.last())),
    ensures
        exists|i: int| 0 <= i < k && (#[trigger] ranges[i]).holds(value),
    decreases k,
{
    T::lemma_bounds(value);
    T::lemma_bounds(T::least());
    let start = start_edge(ranges[k - 1]);
    if k - 1 < ranges.len() - 1 {
        assert(joins_next(ranges, k - 1));
    }
    if at_most(start, value) {
    } else {
        T::lemma_bounds(start);
        lemma_some_bin_holds(ranges, value, k - 1);
    }
}

/// In ranges that divide the finite values among them, every finite value
/// lies in exactly one range, but for the values that are not before the
/// end of a last range that has one.
pub proof fn lemma_value_lies_in_one_bin<T: HistogramSupport>(ranges: Seq<BinRange<T>>, value: T)
    requires
        is_partition(ranges),
        value.finite(),
        !(ranges.last() is Range) || less(value, end_edge(ranges.last())),
    ensures
        exists|i: int|
            0 <= i < ranges.len() && (#[trigger] ranges[i]).holds(value) && forall|k: int|
                0 <= k < ranges.len() && k != i ==> !(#[trigger] ranges[k]).holds(value),
{
    lemma_some_bin_holds(ranges, value, ranges.len() as int);
    let i = choose|i: int| 0 <= i < ranges.len() && (#[trigger] ranges[i]).holds(value);
    lemma_one_bin_holds(ranges, value, i);
}

/// No count is more than the sum of all.
pub proof fn lemma_count_within_sum(counts: Seq<u64>, i: int)
    requires
        0 <= i < counts.len(),
    ensures
        counts[i] <= sum(counts),
    decreases counts.len(),
{
    if i < counts.len() - 1 {
        lemma_count_within_sum(counts.drop_last(), i);
    }
}

/// A count that changes changes the sum by as much.
pub proof fn lemma_sum_update(counts: Seq<u64>, i: int, count: u64)
    requires
        0 <= i < counts.len(),
    ensures
        sum(counts.update(i, count)) == sum(counts) - counts[i] + count,
    decreases counts.len(),
{
    if i < counts.len() - 1 {
        lemma_sum_update(counts.drop_last(), i, count);
        assert(counts.update(i, count).drop_last() =~= counts.drop_last().update(i, count));
    } else {
        assert(counts.update(i, count).drop_last() =~= counts.drop_last());
    }
}

/// The starts of the ranges of `bins`, in order.
pub open spec fn starts_of<T>(bins: Seq<Bin<T>>) -> Seq<T> {
    bins.map_values(
        |bin: Bin<T>|
            match bin.range {
                BinRange::Range(start, _) => start,
                BinRange::RangeFrom(start) => start,
                BinRange::RangeTo(end) => end,
            },
    )
}

/// The counts that bins built from `edges` take from `counts`: as many from
/// the front as there are bins.
pub open spec fn assigned_counts<T: HistogramSupport>(edges: Seq<T>, counts: Seq<u64>) -> Seq<u64> {
    if ranges_of_edges(edges).len() < counts.len() {
        counts.take(ranges_of_edges(edges).len() as int)
    } else {
        counts
    }
}

/// Bins with the given ranges, where each has the count that stands beside
/// it in `counts`, or none where `counts` is too short.
pub open spec fn with_counts<T>(ranges: Seq<BinRange<T>>, counts: Seq<u64>) -> Seq<Bin<T>> {
    Seq::new(
        ranges.len(),
        |i: int|
            Bin {
                range: ranges[i],
                count: if i < counts.len() {
                    counts[i]
                } else {
                    0
                },
            },
    )
}

/// The sum of the first counts is no more than the sum of all.
pub proof fn lemma_sum_prefix(counts: Seq<u64>, n: int)
    requires
        0 <= n <= counts.len(),
    ensures
        sum(counts.take(n)) <= sum(counts),
    decreases counts.len(),
{
    if n < counts.len() {
        lemma_sum_prefix(counts.drop_last(), n);
        assert(counts.drop_last().take(n) =~= counts.take(n));
    } else {
        assert(counts.take(n) =~= counts);
    }
}

/// Edges of which none has a fault are without a fault.
pub proof fn lemma_no_edge_fault<T: HistogramSupport>(edges: Seq<T>, n: int)
    requires
        0 <= n,
        forall|i: int| 0 <= i < n ==> #[trigger] edge_fault(edges, i) is None,
    ensures
        first_edge_fault(edges, n) is None,
    decreases n,
{
    if n > 0 {
        lemma_no_edge_fault(edges, n - 1);
    }
}

/// A histogram that was built from left edges is built again from the left
/// edges of its bins, and takes its counts again from its counts: the
/// arrays that `to_arrays` hands out are made into the same histogram by
/// `from_arrays`. This holds where the last bin has no end, and where the
/// histogram is a single bin.
pub proof fn lemma_arrays_round_trip<T: HistogramSupport>(edges: Seq<T>, bins: Seq<Bin<T>>)
    requires
        edges_rise(edges),
        ranges_of(bins) == ranges_of_edges(edges),
        ranges_of(bins).last() is RangeFrom || bins.len() == 1,
    ensures
        edges_fault(starts_of(bins)) is None,
        with_counts(ranges_of_edges(starts_of(bins)), counts_of(bins)) == bins,
        assigned_counts(starts_of(bins), counts_of(bins)) == counts_of(bins),
{
    let ranges = ranges_of_edges(edges);
    let starts = starts_of(bins);
    lemma_edges_partition(edges);
    if edges.len() >= 2 {
        assert(rises(edges, 1));
        assert(rises(edges, edges.len() - 1));
    }
    T::lemma_bounds(T::least());
    T::lemma_bounds(T::greatest());
    T::lemma_bounds(edges[0]);
    T::lemma_bounds(edges.last());
    assert(bins.len() == ranges.len());
    assert forall|i: int| 0 <= i < bins.len() implies #[trigger] starts[i] == start_edge(
        ranges[i],
    ) by {
        assert(ranges[i] == bins[i].range);
    }
    reveal_with_fuel(first_edge_fault, 3);
    if edges.len() == 1 && same(edges[0], T::least()) {
        assert(starts =~= seq![T::least()]);
        assert(ranges_of_edges(starts) =~= ranges);
    } else {
        let head = if less(T::least(), edges[0]) {
            seq![BinRange::Range(T::least(), edges[0])]
        } else {
            Seq::empty()
        };
        let middle = Seq::new(
            (edges.len() - 1) as nat,
            |i: int| BinRange::Range(edges[i], edges[i + 1]),
        );
        let tail = if less(edges.last(), T::greatest()) {
            seq![BinRange::RangeFrom(edges.last())]
        } else {
            Seq::empty()
        };
        assert(ranges == head + middle + tail);
        if tail.len() == 0 {
            if edges.len() > 1 {
                assert(rises(edges, edges.len() - 1));
            }
            assert(ranges.len() == 1);
            if head.len() == 1 {
                assert(ranges[0] == head[0]);
                assert(starts =~= seq![T::least()]);
            } else {
                assert(ranges[0] == middle[0]);
                assert(starts =~= seq![T::least()]);
            }
            assert(ranges_of_edges(starts) =~= ranges);
        } else if head.len() == 0 {
            assert(starts =~= edges) by {
                assert forall|i: int| 0 <= i < edges.len() implies #[trigger] starts[i]
                    == edges[i] by {
                    if i < middle.len() {
                        assert(ranges[i] == middle[i]);
                    } else {
                        assert(ranges[i] == tail[0]);
                    }
                }
            }
        } else {
            assert(starts =~= seq![T::least()] + edges) by {
                assert forall|i: int| 0 <= i < starts.len() implies #[trigger] starts[i] == (seq![
                    T::least(),
                ] + edges)[i] by {
                    if i == 0 {
                        assert(ranges[i] == head[0]);
                    } else if i - 1 < middle.len() {
                        assert(ranges[i] == middle[i - 1]);
                    } else {
                        assert(ranges[i] == tail[0]);
                    }
                }
            }
            assert forall|i: int| 0 <= i < starts.len() implies #[trigger] edge_fault(
                starts,
                i,
            ) is None by {
                if i >= 2 {
                    assert(rises(edges, i - 1));
                }
            }
            lemma_no_edge_fault(starts, starts.len() as int);
            assert(ranges_of_edges(starts) =~= ranges);
        }
    }
    assert(with_counts(ranges, counts_of(bins)) =~= bins) by {
        assert forall|i: int| 0 <= i < bins.len() implies #[trigger] with_counts(
            ranges,
            counts_of(bins),
        )[i] == bins[i] by {
            assert(ranges[i] == bins[i].range);
        }
    }
}

/// Bins that have counted nothing have counted nothing in sum.
pub proof fn lemma_fresh_counts<T>(ranges: Seq<BinRange<T>>)
    ensures
        sum(counts_of(fresh(ranges))) == 0,
    decreases ranges.len(),
{
    if ranges.len() > 0 {
        lemma_fresh_counts(ranges.drop_last());
        assert(counts_of(fresh(ranges)).drop_last() =~= counts_of(fresh(ranges.drop_last())));
    }
}

/// A fault among the first `n` edges is the first fault among any more.
pub proof fn lemma_first_fault_stays<T: HistogramSupport>(edges: Seq<T>, n: int, m: int)
    requires
        0 <= n <= m,
        first_edge_fault(edges, n) is Some,
    ensures
        first_edge_fault(edges, m) == first_edge_fault(edges, n),
    decreases m - n,
{
    if n < m {
        lemma_first_fault_stays(edges, n, m - 1);
    }
}

/// Of edges without a fault the first is finite, and every other that is
/// looked at is finite and lies behind the one before it.
pub proof fn lemma_faultless_edges<T: HistogramSupport>(edges: Seq<T>, n: int)
    requires
        0 <= n <= edges.len(),
        first_edge_fault(edges, n) is None,
    ensures
        n > 0 ==> edges[0].finite(),
        forall|i: int| 0 < i < n && !is_unchecked(edges, i) ==> #[trigger] rises(edges, i),
    decreases n,
{
    if n > 0 {
        lemma_faultless_edges(edges, n - 1);
    }
}

/// True if the first edge is finite and every other is finite and lies
/// behind the one before it.
pub open spec fn edges_rise<T: HistogramSupport>(edges: Seq<T>) -> bool {
    &&& edges.len() >= 1
    &&& edges[0].finite()
    &&& forall|i: int| 0 < i < edges.len() ==> #[trigger] rises(edges, i)
}

/// Edges that rise have no fault, and their ranges divide the finite values
/// among them: the histogram that `new` builds from them is well formed.
pub proof fn lemma_edges_partition<T: HistogramSupport>(edges: Seq<T>)
    requires
        edges_rise(edges),
    ensures
        edges_fault(edges) is None,
        is_partition(ranges_of_edges(edges)),
{
    assert forall|i: int| 0 <= i < edges.len() implies #[trigger] edge_fault(edges, i) is None by {
        if i > 0 {
            assert(rises(edges, i));
        }
    }
    lemma_no_edge_fault(edges, edges.len() as int);
    T::lemma_bounds(edges[0]);
    T::lemma_bounds(edges.last());
    T::lemma_bounds(T::least());
    T::lemma_bounds(T::greatest());
    let ranges = ranges_of_edges(edges);
    if !(edges.len() == 1 && same(edges[0], T::least())) {
        let in_front: int = if less(T::least(), edges[0]) {
            1
        } else {
            0
        };
        assert forall|i: int| 0 <= i < ranges.len() - 1 implies #[trigger] joins_next(
            ranges,
            i,
        ) by {
            let k = i - in_front;
            if k >= 0 {
                assert(rises(edges, k + 1));
                if k > 0 {
                    assert(rises(edges, k));
                }
            }
        }
        if edges.len() >= 2 {
            assert(rises(edges, edges.len() - 1));
        }
        if edges.len() > 2 {
            assert(rises(edges, edges.len() - 2));
        }
    }
}

} // verus!

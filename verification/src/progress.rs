//! Conversion stages and the time each took.

use vstd::prelude::*;
use crate::settings::OutputFormat;

verus! {

/// A stage of converting one comic.
#[derive(Debug, Clone, Copy, PartialEq, Eq, Structural)]
pub enum ComicStage {
    /// Decoding, transforming and encoding the pages.
    Process,
    /// Building the output format (EPUB/CBZ).
    Package,
    /// Converting EPUB to MOBI (only for MOBI output).
    Convert,
}

/// The label of a stage.
pub open spec fn stage_name(stage: ComicStage) -> Seq<char> {
    match stage {
        ComicStage::Process => "process"@,
        ComicStage::Package => "package"@,
        ComicStage::Convert => "convert"@,
    }
}

impl ComicStage {
    /// The label shown for the stage ("process", "package", "convert").
    pub fn name(&self) -> (r: &'static str)
        ensures
            r@ == stage_name(*self),
    {
        match self {
            ComicStage::Process => "process",
            ComicStage::Package => "package",
            ComicStage::Convert => "convert",
        }
    }
}

/// How long one stage took, in nanoseconds.
#[derive(Debug, Clone, Copy, PartialEq, Eq, Structural)]
pub struct StageMetrics {
    pub stage: ComicStage,
    pub nanos: u128,
}

/// The longest duration `std::time::Duration` can hold, in nanoseconds.
pub const MAX_DURATION_NANOS: u128 = 18446744073709551615999999999;

/// The sum of the durations of the stages.
pub open spec fn total_nanos(stages: Seq<StageMetrics>) -> int
    decreases stages.len(),
{
    if stages.len() == 0 {
        0
    } else {
        total_nanos(stages.drop_last()) + stages.last().nanos
    }
}

/// The stages one comic went through, with their durations, in order.
#[derive(Debug, Clone)]
pub struct StageTimings {
    pub stages: Vec<StageMetrics>,
}

impl StageTimings {
    /// No stage yet.
    pub fn new() -> (r: Self)
        ensures
            r.stages@ == Seq::<StageMetrics>::empty(),
    {
        StageTimings { stages: Vec::new() }
    }

    /// Records that `stage` took `nanos` nanoseconds.
    pub fn add_stage(&mut self, stage: ComicStage, nanos: u128)
        ensures
            final(self).stages@ == old(self).stages@.push(StageMetrics { stage, nanos }),
    {
        self.stages.push(StageMetrics { stage, nanos });
    }

    /// The time all stages took together, in nanoseconds (the sum of
    /// `Duration`s, which must stay within what a `Duration` holds).
    pub fn total(&self) -> (r: u128)
        requires
            total_nanos(self.stages@) <= MAX_DURATION_NANOS,
        ensures
            r == total_nanos(self.stages@),
    {
        let mut sum: u128 = 0;
        let mut k: usize = 0;
        while k < self.stages.len()
            invariant
                k <= self.stages@.len(),
                sum == total_nanos(self.stages@.take(k as int)),
                total_nanos(self.stages@) <= MAX_DURATION_NANOS,
            decreases self.stages@.len() - k,
        {
            proof {
                assert(self.stages@.take(k + 1).drop_last() =~= self.stages@.take(k as int));
                lemma_total_prefix(self.stages@, k + 1);
            }
            sum = sum + self.stages[k].nanos;
            k += 1;
        }
        proof {
            assert(self.stages@.take(k as int) =~= self.stages@);
        }
        sum
    }
}

impl StageTimings {
    /// The time all stages took together, or `None` when it is more than a
    /// `Duration` holds (where summing the durations would overflow).
    pub fn checked_total(&self) -> (r: Option<u128>)
        ensures
            r matches Some(t) ==> t == total_nanos(self.stages@),
            r is None <==> total_nanos(self.stages@) > MAX_DURATION_NANOS,
    {
        let mut sum: u128 = 0;
        let mut k: usize = 0;
        while k < self.stages.len()
            invariant
                k <= self.stages@.len(),
                sum == total_nanos(self.stages@.take(k as int)),
                sum <= MAX_DURATION_NANOS,
            decreases self.stages@.len() - k,
        {
            proof {
                assert(self.stages@.take(k + 1).drop_last() =~= self.stages@.take(k as int));
            }
            let n = self.stages[k].nanos;
            if n > MAX_DURATION_NANOS - sum {
                proof {
                    lemma_total_prefix(self.stages@, k + 1);
                }
                return None;
            }
            sum = sum + n;
            k += 1;
        }
        proof {
            assert(self.stages@.take(k as int) =~= self.stages@);
        }
        Some(sum)
    }
}

/// The total of a prefix of the stages is at most the total of all.
pub proof fn lemma_total_prefix(stages: Seq<StageMetrics>, n: int)
    requires
        0 <= n <= stages.len(),
    ensures
        0 <= total_nanos(stages.take(n)) <= total_nanos(stages),
    decreases stages.len(),
{
    if n < stages.len() {
        assert(stages.drop_last().take(n) =~= stages.take(n));
        lemma_total_prefix(stages.drop_last(), n);
    } else {
        assert(stages.take(n) =~= stages);
        lemma_total_nonneg(stages);
    }
}

proof fn lemma_total_nonneg(stages: Seq<StageMetrics>)
    ensures
        total_nanos(stages) >= 0,
    decreases stages.len(),
{
    if stages.len() > 0 {
        lemma_total_nonneg(stages.drop_last());
    }
}

/// Recording a stage adds exactly its duration to the total.
pub proof fn add_stage_adds_to_total(stages: Seq<StageMetrics>, stage: ComicStage, nanos: u128)
    ensures
        total_nanos(stages.push(StageMetrics { stage, nanos })) == total_nanos(stages) + nanos,
{
    assert(stages.push(StageMetrics { stage, nanos }).drop_last() =~= stages);
}

/// The bar that shows a finished comic's stage timings, `width` cells wide.
pub struct StageTimingBar<'a> {
    pub timing: &'a StageTimings,
    pub width: u16,
}

impl<'a> StageTimingBar<'a> {
    /// A bar for the timings, of no width yet.
    pub fn new(timing: &'a StageTimings) -> (r: Self)
        ensures
            r.timing == timing,
            r.width == 0,
    {
        StageTimingBar { timing, width: 0 }
    }

    /// The same bar, `width` cells wide.
    pub fn width(self, width: u16) -> (r: Self)
        ensures
            r.timing == self.timing,
            r.width == width,
    {
        StageTimingBar { timing: self.timing, width }
    }
}

/// A stage's share of the timing bar: its part of the total in percent,
/// rounded to the nearest whole (halves up).
pub open spec fn percent_share(nanos: int, total: int) -> int {
    (nanos * 200 + total) / (total * 2)
}

/// The share in percent of a stage that took `nanos` out of `total`.
pub fn stage_share(nanos: u128, total: u128) -> (r: u16)
    requires
        0 < total <= MAX_DURATION_NANOS,
        nanos <= total,
    ensures
        r == percent_share(nanos as int, total as int),
        r <= 100,
{
    proof {
        assert(nanos * 200 + total <= 201 * total) by (nonlinear_arith)
            requires
                nanos <= total,
        ;
        assert((nanos * 200 + total) / (total * 2) <= 100) by (nonlinear_arith)
            requires
                nanos * 200 + total <= 201 * total,
                0 < total,
        ;
    }
    let q: u128 = (nanos * 200 + total) / (total * 2);
    q as u16
}

/// One stage's time is at most the total of all.
pub proof fn lemma_stage_within_total(stages: Seq<StageMetrics>, i: int)
    requires
        0 <= i < stages.len(),
    ensures
        stages[i].nanos <= total_nanos(stages),
    decreases stages.len(),
{
    if i < stages.len() - 1 {
        lemma_stage_within_total(stages.drop_last(), i);
    } else {
        lemma_total_nonneg(stages.drop_last());
    }
}

impl StageTimings {
    /// The share in percent of each stage in the timing bar, in order; none
    /// when the stages took no time at all.
    pub fn shares(&self) -> (r: Vec<u16>)
        requires
            total_nanos(self.stages@) <= MAX_DURATION_NANOS,
        ensures
            total_nanos(self.stages@) == 0 ==> r@.len() == 0,
            total_nanos(self.stages@) > 0 ==> r@.len() == self.stages@.len() && forall|i: int|
                0 <= i < r@.len() ==> #[trigger] r@[i] == percent_share(
                    self.stages@[i].nanos as int,
                    total_nanos(self.stages@),
                ),
    {
        let total = self.total();
        let mut r: Vec<u16> = Vec::new();
        if total == 0 {
            return r;
        }
        let mut k: usize = 0;
        while k < self.stages.len()
            invariant
                k <= self.stages@.len(),
                0 < total == total_nanos(self.stages@) <= MAX_DURATION_NANOS,
                r@.len() == k,
                forall|i: int|
                    0 <= i < k ==> #[trigger] r@[i] == percent_share(
                        self.stages@[i].nanos as int,
                        total as int,
                    ),
            decreases self.stages@.len() - k,
        {
            proof {
                lemma_stage_within_total(self.stages@, k as int);
            }
            let share = stage_share(self.stages[k].nanos, total);
            r.push(share);
            k += 1;
        }
        r
    }
}

/// How far the progress list can scroll: the rows that do not fit.
pub open spec fn max_scroll(total: int, height: int) -> int {
    if total > height {
        total - height
    } else {
        0
    }
}

/// The rows of the progress list on screen.
#[derive(Debug, Clone, Copy, PartialEq, Eq, Structural)]
pub struct ScrollWindow {
    /// The scroll offset, clamped: the first row shown.
    pub offset: usize,
    /// One past the last row shown.
    pub end: usize,
    /// Whether the list does not fit, so a scrollbar is drawn.
    pub scrollbar: bool,
}

/// The rows shown of a list of `total` comics in `height` rows, scrolled
/// by `offset` (clamped to how far the list can scroll).
pub fn scroll_window(total: usize, height: usize, offset: usize) -> (r: ScrollWindow)
    ensures
        r.offset == (if offset <= max_scroll(total as int, height as int) {
            offset as int
        } else {
            max_scroll(total as int, height as int)
        }),
        r.end == (if r.offset + height <= total {
            r.offset + height
        } else {
            total as int
        }),
        r.scrollbar == (total > height),
{
    let max = if total > height {
        total - height
    } else {
        0
    };
    let first = if offset > max {
        max
    } else {
        offset
    };
    let end = if first + height <= total {
        first + height
    } else {
        total
    };
    ScrollWindow { offset: first, end, scrollbar: total > height }
}

/// The scroll offset after the down key: one row further when there is a
/// list (stopping at the largest offset), else unchanged.
pub fn scroll_down(offset: usize, has_rows: bool) -> (r: usize)
    ensures
        r == (if has_rows && offset < usize::MAX {
            offset + 1
        } else {
            offset as int
        }),
{
    if has_rows && offset < usize::MAX {
        offset + 1
    } else {
        offset
    }
}

/// The scroll offset after the up key: one row back, stopping at 0.
pub fn scroll_up(offset: usize) -> (r: usize)
    ensures
        r == (if offset > 0 {
            offset - 1
        } else {
            0
        }),
{
    if offset > 0 {
        offset - 1
    } else {
        0
    }
}

/// The key hints under the progress list.
pub fn progress_keys(scrollbar: bool) -> (r: &'static str)
    ensures
        r@ == (if scrollbar {
            "q: quit | \u{2191}/k: up | \u{2193}/j: down"@
        } else {
            "q: quit"@
        }),
{
    if scrollbar {
        "q: quit | \u{2191}/k: up | \u{2193}/j: down"
    } else {
        "q: quit"
    }
}

/// The share of a comic's overall progress that a stage stands for, in
/// percent, by output format: processing the pages is most of the work;
/// packaging is small; converting to MOBI is a large part of MOBI output and
/// no part of the others.
pub open spec fn stage_weight_spec(format: OutputFormat, stage: ComicStage) -> int {
    match (format, stage) {
        (OutputFormat::Mobi, ComicStage::Process) => 50,
        (OutputFormat::Mobi, ComicStage::Package) => 5,
        (OutputFormat::Mobi, ComicStage::Convert) => 40,
        (OutputFormat::Epub, ComicStage::Process) => 80,
        (OutputFormat::Epub, ComicStage::Package) => 10,
        (OutputFormat::Epub, ComicStage::Convert) => 0,
        (OutputFormat::Cbz, ComicStage::Process) => 85,
        (OutputFormat::Cbz, ComicStage::Package) => 5,
        (OutputFormat::Cbz, ComicStage::Convert) => 0,
    }
}

/// The weight in percent of `stage` for comics converted to `format`.
pub fn stage_weight(format: OutputFormat, stage: ComicStage) -> (r: u8)
    ensures
        r == stage_weight_spec(format, stage),
{
    match (format, stage) {
        (OutputFormat::Mobi, ComicStage::Process) => 50,
        (OutputFormat::Mobi, ComicStage::Package) => 5,
        (OutputFormat::Mobi, ComicStage::Convert) => 40,
        (OutputFormat::Epub, ComicStage::Process) => 80,
        (OutputFormat::Epub, ComicStage::Package) => 10,
        (OutputFormat::Epub, ComicStage::Convert) => 0,
        (OutputFormat::Cbz, ComicStage::Process) => 85,
        (OutputFormat::Cbz, ComicStage::Package) => 5,
        (OutputFormat::Cbz, ComicStage::Convert) => 0,
    }
}

/// The stage weights of a format add up to at most the whole, and only
/// MOBI output gives the conversion stage any weight.
pub proof fn stage_weights_within_whole(format: OutputFormat)
    ensures
        stage_weight_spec(format, ComicStage::Process) + stage_weight_spec(format, ComicStage::Package)
            + stage_weight_spec(format, ComicStage::Convert) <= 100,
        stage_weight_spec(format, ComicStage::Convert) > 0 <==> format == OutputFormat::Mobi,
{
}

/// What a status update of a comic says, as far as the progress screen
/// tells them apart.
#[derive(Debug, Clone, Copy, PartialEq, Eq, Structural)]
pub enum StatusKind {
    Waiting,
    Processing,
    StageCompleted,
    Success,
    Failed,
}

/// The update that gives a comic's current state: the last one that is not
/// the completion of a stage.
pub fn current_status(statuses: &Vec<StatusKind>) -> (r: Option<usize>)
    ensures
        r matches Some(i) ==> i < statuses@.len() && statuses@[i as int] != StatusKind::StageCompleted
            && forall|j: int|
            i < j < statuses@.len() ==> #[trigger] statuses@[j] == StatusKind::StageCompleted,
        r is None ==> forall|j: int|
            0 <= j < statuses@.len() ==> #[trigger] statuses@[j] == StatusKind::StageCompleted,
{
    let mut k: usize = statuses.len();
    while k > 0
        invariant
            k <= statuses@.len(),
            forall|j: int| k <= j < statuses@.len() ==> #[trigger] statuses@[j] == StatusKind::StageCompleted,
        decreases k,
    {
        if statuses[k - 1] != StatusKind::StageCompleted {
            return Some(k - 1);
        }
        k -= 1;
    }
    None
}

/// How many of the current statuses are `Success` or `Failed` (`finished`)
/// and how many are `Success`.
pub open spec fn finished_counts_spec(current: Seq<StatusKind>) -> (int, int)
    decreases current.len(),
{
    if current.len() == 0 {
        (0, 0)
    } else {
        let (f, s) = finished_counts_spec(current.drop_last());
        let last = current.last();
        (
            f + if last == StatusKind::Success || last == StatusKind::Failed { 1int } else { 0 },
            s + if last == StatusKind::Success { 1int } else { 0 },
        )
    }
}

proof fn lemma_counts_bounded(current: Seq<StatusKind>)
    ensures
        0 <= finished_counts_spec(current).1 <= finished_counts_spec(current).0 <= current.len(),
    decreases current.len(),
{
    if current.len() > 0 {
        lemma_counts_bounded(current.drop_last());
    }
}

/// The header's counts over the comics' current statuses: (finished,
/// successful).
pub fn finished_counts(current: &Vec<StatusKind>) -> (r: (usize, usize))
    ensures
        (r.0 as int, r.1 as int) == finished_counts_spec(current@),
{
    let mut finished: usize = 0;
    let mut successful: usize = 0;
    let mut k: usize = 0;
    while k < current.len()
        invariant
            k <= current@.len(),
            (finished as int, successful as int) == finished_counts_spec(current@.take(k as int)),
        decreases current@.len() - k,
    {
        proof {
            assert(current@.take(k + 1).drop_last() =~= current@.take(k as int));
            lemma_counts_bounded(current@.take(k as int));
        }
        let s = current[k];
        if s == StatusKind::Success || s == StatusKind::Failed {
            finished = finished + 1;
        }
        if s == StatusKind::Success {
            successful = successful + 1;
        }
        k += 1;
    }
    proof {
        assert(current@.take(k as int) =~= current@);
    }
    (finished, successful)
}

} // verus!

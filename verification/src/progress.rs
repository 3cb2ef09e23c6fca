//! Progress aggregation: per-item and per-phase progress folded into one scalar.
//!
//! Every phase of a launch gets the same weight, `PER_STEP`, whatever its
//! size in bytes or items. Inside the "download mods" phase every mod gets the
//! weight `PER_ITEM`.

use vstd::prelude::*;
use vstd::arithmetic::div_mod::lemma_div_is_ordered;
use vstd::arithmetic::div_mod::lemma_div_multiples_vanish;

verus! {

/// Weight of one phase in the overall scale.
pub const PER_STEP: u64 = 1024;

/// Weight of one item inside the "download mods" phase.
pub const PER_ITEM: u64 = 100;

/// Number of phases.
pub const PHASE_COUNT: usize = 4;

/// The phases of a launch, in the order in which they run.
#[derive(Debug, Clone, Copy, PartialEq, Eq, Structural)]
pub enum ProgressUpdateSteps {
    DownloadLiquidBounceMods,
    DownloadClientJar,
    DownloadLibraries,
    DownloadAssets,
}

/// One message to whoever displays progress.
#[derive(Debug, Clone, PartialEq, Eq)]
pub enum ProgressUpdate {
    /// The value that stands for "everything done".
    SetMax(u64),
    /// The current overall value.
    SetProgress(u64),
    /// A text that says what is going on.
    SetLabel(String),
}

/// What a progress message says, with the label as a sequence of characters.
pub enum ProgressUpdateView {
    SetMax(u64),
    SetProgress(u64),
    SetLabel(Seq<char>),
}

impl View for ProgressUpdate {
    type V = ProgressUpdateView;

    open spec fn view(&self) -> ProgressUpdateView {
        match self {
            ProgressUpdate::SetMax(v) => ProgressUpdateView::SetMax(*v),
            ProgressUpdate::SetProgress(v) => ProgressUpdateView::SetProgress(*v),
            ProgressUpdate::SetLabel(s) => ProgressUpdateView::SetLabel(s@),
        }
    }
}

/// What is on display: the current value, the value of "everything done"
/// and the label.
#[derive(Debug, Clone, PartialEq, Eq)]
pub struct ProgressState {
    pub current: u64,
    pub max: u64,
    pub label: String,
}

/// What is on display, with the label as a sequence of characters.
pub struct ProgressStateView {
    pub current: u64,
    pub max: u64,
    pub label: Seq<char>,
}

impl View for ProgressState {
    type V = ProgressStateView;

    open spec fn view(&self) -> ProgressStateView {
        ProgressStateView { current: self.current, max: self.max, label: self.label@ }
    }
}

impl ProgressStateView {
    /// The display after `update`: the message replaces what it is about
    /// and leaves the rest.
    pub open spec fn after(self, update: ProgressUpdateView) -> ProgressStateView {
        match update {
            ProgressUpdateView::SetMax(max) => ProgressStateView { max, ..self },
            ProgressUpdateView::SetProgress(current) => ProgressStateView { current, ..self },
            ProgressUpdateView::SetLabel(label) => ProgressStateView { label, ..self },
        }
    }
}

impl ProgressState {
    /// A display that shows nothing yet.
    pub fn new() -> (r: Self)
        ensures
            r@ == (ProgressStateView { current: 0, max: 0, label: Seq::<char>::empty() }),
    {
        ProgressState { current: 0, max: 0, label: String::new() }
    }

    /// Takes one message into the display.
    pub fn apply(&mut self, update: ProgressUpdate)
        ensures
            final(self)@ == old(self)@.after(update@),
    {
        match update {
            ProgressUpdate::SetMax(max) => {
                self.max = max;
            },
            ProgressUpdate::SetProgress(current) => {
                self.current = current;
            },
            ProgressUpdate::SetLabel(label) => {
                self.label = label;
            },
        }
    }
}

/// The consumer of progress messages.
pub trait ProgressReceiver {
    /// Takes one message. Nothing comes back.
    fn progress_update(&self, update: ProgressUpdate);
}

/// `max`, but at least 1: the divisor of every progress fraction.
pub open spec fn at_least_one(max: int) -> int {
    if max < 1 {
        1
    } else {
        max
    }
}

/// `done` divided by `max`, rounded down, with a `max` below one counting
/// as one.
pub open spec fn portion(done: int, max: int) -> int {
    if max < 1 {
        done
    } else {
        done / max
    }
}

/// Progress inside the "download mods" phase: `idx` items are complete and of
/// the current one `curr` units out of `max` are done.
pub open spec fn spec_get_progress(idx: int, curr: int, max: int) -> int {
    idx * 100 + portion(curr * 100, max)
}

/// Maximum of the "download mods" phase for `len` items.
pub open spec fn spec_get_max(len: int) -> int {
    len * 100
}

/// Overall value for `progress` out of `max` inside phase number `step`.
pub open spec fn spec_for_step(step: int, progress: int, max: int) -> int {
    step * 1024 + portion(progress * 1024, max)
}

/// The overall value that stands for "everything done".
pub open spec fn spec_full_scale() -> int {
    4096
}

/// Progress of item `idx` of which `curr` out of `max` units are done.
///
/// A `max` of zero counts as one. The value has to fit in 64 bits; what is
/// computed on the way need not.
pub fn get_progress(idx: usize, curr: u64, max: u64) -> (r: u64)
    requires
        spec_get_progress(idx as int, curr as int, max as int) <= u64::MAX,
    ensures
        r == spec_get_progress(idx as int, curr as int, max as int),
{
    let wide: u128 = wide_progress(idx, curr, max);
    wide as u64
}

/// `get_progress`, where the value fits; `None` where it does not.
pub fn checked_get_progress(idx: usize, curr: u64, max: u64) -> (r: Option<u64>)
    ensures
        r == (if spec_get_progress(idx as int, curr as int, max as int) <= u64::MAX {
            Some(spec_get_progress(idx as int, curr as int, max as int) as u64)
        } else {
            None
        }),
{
    let wide: u128 = wide_progress(idx, curr, max);
    if wide <= u64::MAX as u128 {
        Some(wide as u64)
    } else {
        None
    }
}

/// Maximum of the "download mods" phase for `len` items. It has to fit in
/// 64 bits.
pub fn get_max(len: usize) -> (r: u64)
    requires
        spec_get_max(len as int) <= u64::MAX,
    ensures
        r == spec_get_max(len as int),
{
    let n: u64 = len as u64;
    n * PER_ITEM
}

/// `get_max`, where the value fits; `None` where it does not.
pub fn checked_get_max(len: usize) -> (r: Option<u64>)
    ensures
        r == (if spec_get_max(len as int) <= u64::MAX {
            Some(spec_get_max(len as int) as u64)
        } else {
            None
        }),
{
    let wide: u128 = (len as u128) * (PER_ITEM as u128);
    if wide <= u64::MAX as u128 {
        Some(wide as u64)
    } else {
        None
    }
}

fn wide_progress(idx: usize, curr: u64, max: u64) -> (r: u128)
    ensures
        r == spec_get_progress(idx as int, curr as int, max as int),
{
    let divisor: u128 = if max < 1 {
        1
    } else {
        max as u128
    };
    let done: u128 = (curr as u128) * (PER_ITEM as u128);
    let part: u128 = done / divisor;
    assert(0 <= done as int / divisor as int <= done as int) by (nonlinear_arith)
        requires
            divisor >= 1,
            done >= 0,
    ;
    (idx as u128) * (PER_ITEM as u128) + part
}

fn wide_for_step(step: usize, progress: u64, max: u64) -> (r: u128)
    requires
        step < 4,
    ensures
        r == spec_for_step(step as int, progress as int, max as int),
{
    let divisor: u128 = if max < 1 {
        1
    } else {
        max as u128
    };
    let done: u128 = (progress as u128) * (PER_STEP as u128);
    let part: u128 = done / divisor;
    assert(0 <= done as int / divisor as int <= done as int) by (nonlinear_arith)
        requires
            divisor >= 1,
            done >= 0,
    ;
    (step as u128) * (PER_STEP as u128) + part
}

impl ProgressUpdateSteps {
    /// Position of the phase in the run, from 0.
    pub open spec fn spec_step_idx(self) -> int {
        match self {
            ProgressUpdateSteps::DownloadLiquidBounceMods => 0,
            ProgressUpdateSteps::DownloadClientJar => 1,
            ProgressUpdateSteps::DownloadLibraries => 2,
            ProgressUpdateSteps::DownloadAssets => 3,
        }
    }

    /// Number of phases.
    pub fn len() -> (r: usize)
        ensures
            r == 4,
            r * 1024 == spec_full_scale(),
    {
        PHASE_COUNT
    }

    /// Position of the phase in the run, from 0.
    pub fn step_idx(&self) -> (r: usize)
        ensures
            r == self.spec_step_idx(),
            r < 4,
    {
        match self {
            ProgressUpdateSteps::DownloadLiquidBounceMods => 0,
            ProgressUpdateSteps::DownloadClientJar => 1,
            ProgressUpdateSteps::DownloadLibraries => 2,
            ProgressUpdateSteps::DownloadAssets => 3,
        }
    }
}

impl ProgressUpdate {
    /// The message that puts the overall value at `progress` out of `max`
    /// inside phase `step`. A `max` of zero counts as one. The value has to
    /// fit in 64 bits; what is computed on the way need not.
    pub fn set_for_step(step: ProgressUpdateSteps, progress: u64, max: u64) -> (r: Self)
        requires
            spec_for_step(step.spec_step_idx(), progress as int, max as int) <= u64::MAX,
        ensures
            r == ProgressUpdate::SetProgress(
                spec_for_step(step.spec_step_idx(), progress as int, max as int) as u64,
            ),
    {
        let wide: u128 = wide_for_step(step.step_idx(), progress, max);
        ProgressUpdate::SetProgress(wide as u64)
    }

    /// `set_for_step`, where the value fits; `None` where it does not.
    pub fn checked_set_for_step(step: ProgressUpdateSteps, progress: u64, max: u64) -> (r: Option<
        Self,
    >)
        ensures
            r == (if spec_for_step(step.spec_step_idx(), progress as int, max as int) <= u64::MAX {
                Some(
                    ProgressUpdate::SetProgress(
                        spec_for_step(step.spec_step_idx(), progress as int, max as int) as u64,
                    ),
                )
            } else {
                None
            }),
    {
        let wide: u128 = wide_for_step(step.step_idx(), progress, max);
        if wide <= u64::MAX as u128 {
            Some(ProgressUpdate::SetProgress(wide as u64))
        } else {
            None
        }
    }

    /// The message that puts the overall value at "everything done".
    pub fn set_to_max() -> (r: Self)
        ensures
            r == ProgressUpdate::SetProgress(spec_full_scale() as u64),
    {
        let phases: u64 = ProgressUpdateSteps::len() as u64;
        ProgressUpdate::SetProgress(phases * PER_STEP)
    }

    /// The message that announces the value of "everything done".
    pub fn set_max() -> (r: Self)
        ensures
            r == ProgressUpdate::SetMax(spec_full_scale() as u64),
    {
        let phases: u64 = ProgressUpdateSteps::len() as u64;
        ProgressUpdate::SetMax(phases * PER_STEP)
    }

    /// The message that shows `label`.
    pub fn set_label(label: &str) -> (r: Self)
        ensures
            r@ == ProgressUpdateView::SetLabel(label@),
    {
        ProgressUpdate::SetLabel(label.to_owned())
    }
}

/// The overall value while item `index` of `count` is being downloaded and
/// `downloaded` out of `total` units of it have arrived; `None` where a
/// value on the way does not fit in 64 bits.
pub open spec fn spec_download_progress(index: int, count: int, downloaded: int, total: int) -> Option<
    u64,
> {
    let progress = spec_get_progress(index, downloaded, total);
    let max = spec_get_max(count);
    let overall = spec_for_step(0, progress, max);
    if progress <= u64::MAX && max <= u64::MAX && overall <= u64::MAX {
        Some(overall as u64)
    } else {
        None
    }
}

/// The message for a download that has got `downloaded` out of `total` units
/// of item `index` of `count`, if its value fits.
pub fn download_progress(index: usize, count: usize, downloaded: u64, total: u64) -> (r: Option<
    ProgressUpdate,
>)
    ensures
        r == (match spec_download_progress(
            index as int,
            count as int,
            downloaded as int,
            total as int,
        ) {
            Some(v) => Some(ProgressUpdate::SetProgress(v)),
            None => None,
        }),
{
    let progress: u64 = match checked_get_progress(index, downloaded, total) {
        Some(p) => p,
        None => {
            return None;
        },
    };
    let max: u64 = match checked_get_max(count) {
        Some(m) => m,
        None => {
            return None;
        },
    };
    ProgressUpdate::checked_set_for_step(
        ProgressUpdateSteps::DownloadLiquidBounceMods,
        progress,
        max,
    )
}

/// A portion is a quotient by the maximum, taken as at least one.
pub proof fn lemma_portion(done: int, max: int)
    ensures
        portion(done, max) == done / at_least_one(max),
{
}

/// Within one item, more units done never give less progress.
pub proof fn lemma_progress_grows_with_units(idx: int, a: int, b: int, max: int)
    requires
        0 <= a <= b,
    ensures
        spec_get_progress(idx, a, max) <= spec_get_progress(idx, b, max),
{
    lemma_portion(a * 100, max);
    lemma_portion(b * 100, max);
    lemma_div_is_ordered(a * 100, b * 100, at_least_one(max));
}

/// An item of which no more than all units are done stays inside its own
/// hundred: from `idx * 100` up to `(idx + 1) * 100`.
pub proof fn lemma_progress_within_item(idx: int, curr: int, max: int)
    requires
        0 <= curr <= at_least_one(max),
    ensures
        idx * 100 <= spec_get_progress(idx, curr, max) <= (idx + 1) * 100,
{
    let d = at_least_one(max);
    lemma_portion(curr * 100, max);
    lemma_div_is_ordered(0, curr * 100, d);
    lemma_div_is_ordered(curr * 100, d * 100, d);
    lemma_div_multiples_vanish(100, d);
    assert(d * 100 == 100 * d);
}

/// A complete item counts one full hundred.
pub proof fn lemma_progress_of_complete_item(idx: int, max: int)
    requires
        1 <= max,
    ensures
        spec_get_progress(idx, max, max) == (idx + 1) * 100,
{
    lemma_portion(max * 100, max);
    lemma_div_multiples_vanish(100, max);
    assert(max * 100 == 100 * max);
}

/// Progress never goes back from one callback to a later one: the later one
/// is about the same item with at least as many units of the same total, or
/// about a later item, and the earlier one had no more than all its units.
pub proof fn lemma_progress_monotonic(
    idx1: int,
    curr1: int,
    max1: int,
    idx2: int,
    curr2: int,
    max2: int,
)
    requires
        0 <= idx1,
        0 <= curr1,
        0 <= curr2,
        (idx1 == idx2 && max1 == max2 && curr1 <= curr2) || (idx1 < idx2 && curr1 <= at_least_one(
            max1,
        )),
    ensures
        spec_get_progress(idx1, curr1, max1) <= spec_get_progress(idx2, curr2, max2),
{
    if idx1 == idx2 && max1 == max2 && curr1 <= curr2 {
        lemma_progress_grows_with_units(idx1, curr1, curr2, max1);
    } else {
        lemma_progress_within_item(idx1, curr1, max1);
        lemma_portion(curr2 * 100, max2);
        lemma_div_is_ordered(0, curr2 * 100, at_least_one(max2));
    }
}

/// Progress never exceeds the maximum of the phase, as long as the item is
/// one of the `len` items and no more than all its units are done.
pub proof fn lemma_progress_bounded(idx: int, curr: int, max: int, len: int)
    requires
        0 <= idx < len,
        0 <= curr <= at_least_one(max),
    ensures
        0 <= spec_get_progress(idx, curr, max) <= spec_get_max(len),
{
    lemma_progress_within_item(idx, curr, max);
}

/// Inside one phase, more progress never gives a smaller overall value.
pub proof fn lemma_for_step_monotonic(step: int, p1: int, p2: int, max: int)
    requires
        0 <= p1 <= p2,
    ensures
        spec_for_step(step, p1, max) <= spec_for_step(step, p2, max),
{
    lemma_portion(p1 * 1024, max);
    lemma_portion(p2 * 1024, max);
    lemma_div_is_ordered(p1 * 1024, p2 * 1024, at_least_one(max));
}

/// A phase stays inside its own share of the scale, and so below the value
/// of "everything done", as long as no more than all of it is done.
pub proof fn lemma_for_step_bounded(step: ProgressUpdateSteps, progress: int, max: int)
    requires
        0 <= progress <= at_least_one(max),
    ensures
        step.spec_step_idx() * 1024 <= spec_for_step(step.spec_step_idx(), progress, max),
        spec_for_step(step.spec_step_idx(), progress, max) <= (step.spec_step_idx() + 1) * 1024,
        spec_for_step(step.spec_step_idx(), progress, max) <= spec_full_scale(),
{
    let d = at_least_one(max);
    lemma_portion(progress * 1024, max);
    lemma_div_is_ordered(0, progress * 1024, d);
    lemma_div_is_ordered(progress * 1024, d * 1024, d);
    lemma_div_multiples_vanish(1024, d);
    assert(d * 1024 == 1024 * d);
}

/// The overall value never goes back from one download callback to a later
/// one of the same run, and stays inside the share of the first phase.
///
/// The later callback is about the same item with at least as many units of
/// the same total, or about a later item. Neither has more than all its
/// units: with more, the value can leave the phase's share.
pub proof fn lemma_download_progress_monotonic(
    count: int,
    idx1: int,
    done1: int,
    total1: int,
    idx2: int,
    done2: int,
    total2: int,
)
    requires
        0 <= idx1 < count,
        0 <= idx2 < count,
        0 <= done1 <= at_least_one(total1),
        0 <= done2 <= at_least_one(total2),
        (idx1 == idx2 && total1 == total2 && done1 <= done2) || idx1 < idx2,
        count * 100 <= u64::MAX,
    ensures
        spec_download_progress(idx1, count, done1, total1) is Some,
        spec_download_progress(idx2, count, done2, total2) is Some,
        spec_download_progress(idx1, count, done1, total1)->0 <= spec_download_progress(
            idx2,
            count,
            done2,
            total2,
        )->0,
        spec_download_progress(idx2, count, done2, total2)->0 <= 1024,
        spec_download_progress(idx2, count, done2, total2)->0 <= spec_full_scale(),
{
    let p1 = spec_get_progress(idx1, done1, total1);
    let p2 = spec_get_progress(idx2, done2, total2);
    let max = spec_get_max(count);
    lemma_progress_monotonic(idx1, done1, total1, idx2, done2, total2);
    lemma_progress_bounded(idx1, done1, total1, count);
    lemma_progress_bounded(idx2, done2, total2, count);
    lemma_for_step_monotonic(0, p1, p2, max);
    lemma_for_step_bounded(ProgressUpdateSteps::DownloadLiquidBounceMods, p1, max);
    lemma_for_step_bounded(ProgressUpdateSteps::DownloadLiquidBounceMods, p2, max);
}

/// A display that has been told the full scale and then takes the messages
/// of download callbacks, each in its turn, never shows less than before
/// and never more than its maximum.
pub proof fn lemma_display_never_goes_back(
    shown: ProgressStateView,
    count: int,
    idx1: int,
    done1: int,
    total1: int,
    idx2: int,
    done2: int,
    total2: int,
)
    requires
        shown.max == spec_full_scale(),
        0 <= idx1 < count,
        0 <= idx2 < count,
        0 <= done1 <= at_least_one(total1),
        0 <= done2 <= at_least_one(total2),
        (idx1 == idx2 && total1 == total2 && done1 <= done2) || idx1 < idx2,
        count * 100 <= u64::MAX,
    ensures
        ({
            let first = spec_download_progress(idx1, count, done1, total1)->0;
            let second = spec_download_progress(idx2, count, done2, total2)->0;
            let earlier = shown.after(ProgressUpdateView::SetProgress(first));
            let later = earlier.after(ProgressUpdateView::SetProgress(second));
            &&& earlier.current <= later.current
            &&& later.current <= later.max
            &&& later.max == shown.max
        }),
{
    lemma_download_progress_monotonic(count, idx1, done1, total1, idx2, done2, total2);
}

} // verus!

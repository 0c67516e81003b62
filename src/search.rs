use crate::error::LiqError;
use vstd::prelude::*;

verus! {

/// The largest palette.
pub const MAX_COLORS: u32 = 256;

/// The largest trial budget of a palette search.
pub const MAX_TRIALS: i32 = 32767;

/// Whether the histogram's own colors, with the fixed colors, already make the
/// palette: they fit in the budget and the quality target asks for no error.
pub fn use_histogram_as_palette(hist_len: usize, fixed_len: usize, max_colors: u32, target_mse_is_zero: bool) -> (r: bool)
    ensures
        r == (hist_len + fixed_len <= max_colors && target_mse_is_zero),
{
    target_mse_is_zero && hist_len <= max_colors as usize && fixed_len <= max_colors as usize - hist_len
}

/// The bookkeeping of the palette search: the color budget, the trials that
/// are left, the rejected trials since the last accepted one, and whether a
/// palette has been accepted yet, and whether the progress observer asked to
/// stop.
#[derive(Debug, Clone, Copy, PartialEq, Eq, Structural)]
pub struct SearchState {
    pub max_colors: u32,
    pub trials_left: i32,
    pub fails_in_a_row: i32,
    pub has_best: bool,
    pub stop_requested: bool,
}

impl SearchState {
    /// The bounds that the search keeps.
    pub open spec fn wf(&self) -> bool {
        &&& self.max_colors <= MAX_COLORS
        &&& 0 <= self.fails_in_a_row
        &&& self.trials_left + self.fails_in_a_row <= MAX_TRIALS
    }

    /// The state before the first trial.
    pub fn start(max_colors: u32, total_trials: i16) -> (r: SearchState)
        requires
            max_colors <= MAX_COLORS,
        ensures
            r.wf(),
            r == (SearchState {
                max_colors,
                trials_left: total_trials as i32,
                fails_in_a_row: 0,
                has_best: false,
                stop_requested: false,
            }),
    {
        SearchState {
            max_colors,
            trials_left: total_trials as i32,
            fails_in_a_row: 0,
            has_best: false,
            stop_requested: false,
        }
    }

    /// The number of colors that median cut may choose: the budget less the
    /// fixed colors, none when they fill it.
    pub fn mediancut_budget(&self, fixed_len: usize) -> (r: u32)
        ensures
            r == if fixed_len >= self.max_colors { 0 } else { self.max_colors - fixed_len },
    {
        if fixed_len >= self.max_colors as usize {
            0
        } else {
            self.max_colors - fixed_len as u32
        }
    }

    /// Whether the palette of this trial is measured and weighed. With no
    /// trials left, the median-cut palette is taken as it is.
    pub fn measures_trial(&self) -> (r: bool)
        ensures
            r == (self.trials_left > 0),
    {
        self.trials_left > 0
    }

    /// Whether the k-means pass of this trial may subsample the histogram: not
    /// on the first trial under a quality target, whose measure must be exact.
    pub fn kmeans_fast_mode(&self, target_mse_positive: bool) -> (r: bool)
        ensures
            r == !(!self.has_best && target_mse_positive),
    {
        self.has_best || !target_mse_positive
    }

    /// Whether the trial's palette replaces the best one: there is none yet,
    /// its error is below the best error, or its error meets the target with
    /// fewer colors than the budget.
    pub fn accepts(&self, error_below_best: bool, error_within_target: bool, palette_len: usize) -> (r: bool)
        ensures
            r == (!self.has_best || error_below_best || (error_within_target && palette_len < self.max_colors)),
    {
        !self.has_best || error_below_best || (error_within_target && palette_len < self.max_colors as usize)
    }

    /// Records the outcome of a measured trial. An accepted palette of
    /// `palette_len` colors caps the budget at one more color than it has,
    /// costs one trial and clears the run of failures; a rejected one costs
    /// five trials plus the length of the run of failures, itself included.
    pub fn record_trial(&mut self, accepted: bool, palette_len: usize)
        requires
            old(self).wf(),
            old(self).trials_left > 0,
            palette_len <= MAX_COLORS,
        ensures
            final(self).wf(),
            final(self).trials_left < old(self).trials_left,
            final(self).max_colors <= old(self).max_colors,
            accepted ==> *final(self) == (SearchState {
                max_colors: if palette_len + 1 < old(self).max_colors {
                    (palette_len + 1) as u32
                } else {
                    old(self).max_colors
                },
                trials_left: (old(self).trials_left - 1) as i32,
                fails_in_a_row: 0,
                has_best: true,
                stop_requested: old(self).stop_requested,
            }),
            !accepted ==> *final(self) == (SearchState {
                fails_in_a_row: (old(self).fails_in_a_row + 1) as i32,
                trials_left: (old(self).trials_left - 6 - old(self).fails_in_a_row) as i32,
                ..*old(self)
            }),
    {
        if accepted {
            if (palette_len as u32) + 1 < self.max_colors {
                self.max_colors = (palette_len + 1) as u32;
            }
            self.trials_left = self.trials_left - 1;
            self.fails_in_a_row = 0;
            self.has_best = true;
        } else {
            self.fails_in_a_row = self.fails_in_a_row + 1;
            self.trials_left = self.trials_left - (5 + self.fails_in_a_row);
        }
    }

    /// Records whether the progress observer asked to stop after a trial, and
    /// returns whether another trial follows: trials are left and no stop was
    /// asked for.
    pub fn keeps_searching(&mut self, stop_requested: bool) -> (r: bool)
        ensures
            *final(self) == (SearchState { stop_requested: old(self).stop_requested || stop_requested, ..*old(self) }),
            r == (!final(self).stop_requested && old(self).trials_left > 0),
    {
        self.stop_requested = self.stop_requested || stop_requested;
        !self.stop_requested && self.trials_left > 0
    }
}

/// The next refinement iteration: one step on, or two where the error is over
/// one and a half times the hard limit, so that hopeless palettes stop sooner.
pub fn next_refine_iteration(i: u32, hopeless: bool) -> (r: u32)
    requires
        i <= u32::MAX - 2,
    ensures
        r == if hopeless { i + 2 } else { i + 1 },
        r > i,
{
    if hopeless {
        i + 2
    } else {
        i + 1
    }
}

/// Whether refinement stops after an iteration: the progress observer asked
/// to stop, or the error moved by less than the convergence limit since the
/// previous iteration, or the iterations are spent.
pub fn refine_stops(stop_requested: bool, converged: bool, next_iteration: u32, iterations: u32) -> (r: bool)
    ensures
        r == (stop_requested || converged || next_iteration >= iterations),
{
    stop_requested || converged || next_iteration >= iterations
}

/// The outcome of quantization from its checks, in the order they are made: the
/// observer stopped it on entry, or during the palette search or refinement,
/// the search found no palette, the observer stopped it after the search, the
/// palette's error is over the limit. Any stop asked for gives `Aborted`.
pub fn quantization_outcome(
    stopped_on_entry: bool,
    stopped_during_search: bool,
    palette_found: bool,
    stopped_after_search: bool,
    error_over_limit: bool,
) -> (r: Result<(), LiqError>)
    ensures
        r == if stopped_on_entry || stopped_during_search {
            Err::<(), LiqError>(LiqError::Aborted)
        } else if !palette_found {
            Err(LiqError::ValueOutOfRange)
        } else if stopped_after_search {
            Err(LiqError::Aborted)
        } else if error_over_limit {
            Err(LiqError::QualityTooLow)
        } else {
            Ok(())
        },
{
    if stopped_on_entry || stopped_during_search {
        return Err(LiqError::Aborted);
    }
    if !palette_found {
        return Err(LiqError::ValueOutOfRange);
    }
    if stopped_after_search {
        return Err(LiqError::Aborted);
    }
    if error_over_limit {
        return Err(LiqError::QualityTooLow);
    }
    Ok(())
}

} // verus!

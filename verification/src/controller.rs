//! The quality-search controller.
//!
//! The controller drives an external transcoder toward an output no larger
//! than a byte budget, but never touches a process or the filesystem itself.
//! It is a state machine: the caller performs one external action at a time
//! (merge the audio tracks, transcode at a given quality, read the output
//! size) and reports the result; the controller answers with the next
//! [`Action`].  The quality parameter only ever escalates — the search looks
//! for a first point under budget, not for an optimum — and any collaborator
//! failure abandons the run at once.

use vstd::prelude::*;

verus! {

use crate::step::step_ok;
use crate::step::compute_step;

/// How one external collaborator invocation (merge or transcode) ended.
/// There is no partial success: the process either completed cleanly or the
/// attempt is abandoned, with a description of the failure.
#[derive(Debug, PartialEq, Eq)]
pub enum ExitOutcome {
    Success,
    ProcessFailure(String),
}

/// Why a run was abandoned.
#[derive(Debug, PartialEq, Eq)]
pub enum ControlError {
    /// No usable input was given; nothing was attempted.
    Usage,
    /// The merge step or a transcode invocation failed; never retried.
    CollaboratorProcess(String),
    /// The output size could not be read after a reported success: the
    /// collaborator or the filesystem broke its contract.
    Environment,
    /// Escalation pushed the quality parameter past its representable range.
    QualityOverflow,
}

/// What the controller asks its caller to do next.
#[derive(Debug, PartialEq, Eq)]
pub enum Action {
    /// Run the audio-merge preprocessing step.
    RunMerge,
    /// Run one transcode at the given quality parameter, overwriting the
    /// output in place, and block until it exits.
    RunTranscode(u64),
    /// Read the size in bytes of the (successfully written) output.
    ReadSize,
    /// The output fits the budget; the run is complete.
    Finish,
    /// The run is abandoned; no further attempts.
    Abort(ControlError),
}

/// Where the controller stands between two events.
#[derive(Debug, Clone, Copy, PartialEq, Eq, Structural)]
pub enum SearchPhase {
    /// Waiting for the result of the audio-merge step.
    AwaitingMerge,
    /// A transcode at the current quality is in flight.
    AwaitingTranscode,
    /// The transcode succeeded; waiting for the measured output size.
    AwaitingSize,
    /// An output no larger than the budget was produced.
    Succeeded,
    /// The run was abandoned.
    Failed,
}

/// The fixed parameters of one search run.
#[derive(Debug, Clone, Copy, PartialEq, Eq, Structural)]
pub struct SearchConfig {
    /// Maximum acceptable output size in bytes; positive.
    pub budget: u64,
    /// Quality parameter of the first transcode attempt.
    pub initial_quality: u64,
    /// Adjustment scale: the raw step `3 * log2(size / budget)` is scaled by
    /// this factor to over-correct deliberately; positive.
    pub scale: u32,
}

impl SearchConfig {
    pub open spec fn wf(self) -> bool {
        &&& self.budget >= 1
        &&& self.scale >= 1
    }
}

/// The quality-search controller: the current quality parameter, the phase
/// of the protocol, and the run's fixed configuration.
pub struct Controller {
    pub config: SearchConfig,
    pub quality: u64,
    pub phase: SearchPhase,
}

impl Controller {
    pub open spec fn wf(self) -> bool {
        self.config.wf()
    }

    /// The controller is prepared to consume an output-size report.  This
    /// holds only directly after a transcode reported success: a size is
    /// never read after a failed attempt.
    pub open spec fn awaiting_size(self) -> bool {
        self.phase is AwaitingSize
    }

    /// A fresh controller, ready to ask for the merge step.
    pub fn new(config: SearchConfig) -> (c: Controller)
        requires
            config.wf(),
        ensures
            c.wf(),
            c.config == config,
            c.quality == config.initial_quality,
            c.phase is AwaitingMerge,
    {
        Controller { config, quality: config.initial_quality, phase: SearchPhase::AwaitingMerge }
    }

    /// The first action of a run: merge the audio tracks.
    pub fn start(&self) -> (a: Action)
        requires
            self.phase is AwaitingMerge,
        ensures
            a == Action::RunMerge,
    {
        Action::RunMerge
    }

    /// Digest the outcome of the merge step.  On success the first transcode
    /// is requested at the initial quality; on failure the run is abandoned
    /// before any transcode is attempted.
    pub fn on_merge_result(&mut self, outcome: ExitOutcome) -> (a: Action)
        requires
            old(self).wf(),
            old(self).phase is AwaitingMerge,
        ensures
            final(self).wf(),
            final(self).config == old(self).config,
            final(self).quality == old(self).quality,
            outcome is Success ==> {
                &&& final(self).phase is AwaitingTranscode
                &&& a == Action::RunTranscode(old(self).quality)
            },
            outcome matches ExitOutcome::ProcessFailure(d) ==> {
                &&& final(self).phase is Failed
                &&& a == Action::Abort(ControlError::CollaboratorProcess(d))
            },
    {
        match outcome {
            ExitOutcome::Success => {
                self.phase = SearchPhase::AwaitingTranscode;
                Action::RunTranscode(self.quality)
            },
            ExitOutcome::ProcessFailure(d) => {
                self.phase = SearchPhase::Failed;
                Action::Abort(ControlError::CollaboratorProcess(d))
            },
        }
    }

    /// Digest the outcome of one transcode attempt.  On success the output
    /// size must be read next; on failure the run is abandoned at once, and
    /// in particular the controller never asks for the size of a failed
    /// attempt's output.
    pub fn on_transcode_result(&mut self, outcome: ExitOutcome) -> (a: Action)
        requires
            old(self).wf(),
            old(self).phase is AwaitingTranscode,
        ensures
            final(self).wf(),
            final(self).config == old(self).config,
            final(self).quality == old(self).quality,
            outcome is Success ==> {
                &&& final(self).awaiting_size()
                &&& a == Action::ReadSize
            },
            outcome matches ExitOutcome::ProcessFailure(d) ==> {
                &&& final(self).phase is Failed
                &&& !final(self).awaiting_size()
                &&& a == Action::Abort(ControlError::CollaboratorProcess(d))
            },
    {
        match outcome {
            ExitOutcome::Success => {
                self.phase = SearchPhase::AwaitingSize;
                Action::ReadSize
            },
            ExitOutcome::ProcessFailure(d) => {
                self.phase = SearchPhase::Failed;
                Action::Abort(ControlError::CollaboratorProcess(d))
            },
        }
    }

    /// The output of a reported-successful transcode could not be measured:
    /// a broken collaborator or filesystem contract, fatal.
    pub fn on_size_unavailable(&mut self) -> (a: Action)
        requires
            old(self).wf(),
            old(self).awaiting_size(),
        ensures
            final(self).wf(),
            final(self).config == old(self).config,
            final(self).quality == old(self).quality,
            final(self).phase is Failed,
            a == Action::Abort(ControlError::Environment),
    {
        self.phase = SearchPhase::Failed;
        Action::Abort(ControlError::Environment)
    }

    /// Digest the measured output size of a successful transcode.
    ///
    /// If the output fits the budget the run is complete at the current
    /// quality.  Otherwise the quality parameter escalates — never decreases
    /// — by the exact step of `step_ok`, and another transcode is requested;
    /// a step that would overflow the parameter abandons the run instead.
    pub fn on_output_size(&mut self, size: u64) -> (a: Action)
        requires
            old(self).wf(),
            old(self).awaiting_size(),
        ensures
            final(self).wf(),
            final(self).config == old(self).config,
            final(self).quality >= old(self).quality,
            size <= old(self).config.budget ==> {
                &&& final(self).phase is Succeeded
                &&& final(self).quality == old(self).quality
                &&& a == Action::Finish
            },
            size > old(self).config.budget ==> exists|st: u64|
                {
                    &&& #[trigger] step_ok(
                        size as nat,
                        old(self).config.budget as nat,
                        3 * old(self).config.scale as nat,
                        st as nat,
                    )
                    &&& st <= 192 * old(self).config.scale as nat
                    &&& if old(self).quality + st <= u64::MAX {
                        &&& final(self).phase is AwaitingTranscode
                        &&& final(self).quality == old(self).quality + st
                        &&& final(self).quality > old(self).quality
                        &&& a == Action::RunTranscode((old(self).quality + st) as u64)
                    } else {
                        &&& final(self).phase is Failed
                        &&& final(self).quality == old(self).quality
                        &&& a == Action::Abort(ControlError::QualityOverflow)
                    }
                },
    {
        if size <= self.config.budget {
            self.phase = SearchPhase::Succeeded;
            Action::Finish
        } else {
            let st = compute_step(size, self.config.budget, self.config.scale);
            if st <= u64::MAX - self.quality {
                self.quality = self.quality + st;
                self.phase = SearchPhase::AwaitingTranscode;
                Action::RunTranscode(self.quality)
            } else {
                self.phase = SearchPhase::Failed;
                Action::Abort(ControlError::QualityOverflow)
            }
        }
    }
}

/// Sizes drop at least linearly along an escalation, while they stay over
/// budget.  `m` maps a quality parameter to the size the transcoder would
/// produce for it; the two hypotheses say that a higher quality parameter
/// never produces a larger output, and produces a strictly smaller one as
/// long as the output is still over budget.
proof fn lemma_sizes_drop(m: spec_fn(nat) -> nat, budget: nat, q0: nat, i: nat)
    requires
        forall|q1: nat, q2: nat| q1 <= q2 ==> #[trigger] m(q2) <= #[trigger] m(q1),
        forall|q: nat| #[trigger] m(q) > budget ==> m((q + 1) as nat) < m(q),
    ensures
        m((q0 + i) as nat) <= budget || m((q0 + i) as nat) + i <= m(q0),
    decreases i,
{
    if i > 0 {
        lemma_sizes_drop(m, budget, q0, (i - 1) as nat);
        let prev: nat = (q0 + i - 1) as nat;
        if m(prev) <= budget {
            assert(m((q0 + i) as nat) <= m(prev));
        } else {
            assert(m((prev + 1) as nat) < m(prev));
        }
    }
}

/// Quality parameters of a run grow at least one per attempt.
proof fn lemma_quality_chain(qs: Seq<nat>, i: int)
    requires
        forall|j: int| 1 <= j < qs.len() ==> qs[j - 1] < #[trigger] qs[j],
        0 <= i < qs.len(),
    ensures
        qs[0] + i <= qs[i],
    decreases i,
{
    if i > 0 {
        lemma_quality_chain(qs, i - 1);
    }
}

/// Termination of the search: against a transcoder whose output sizes never
/// grow with the quality parameter and strictly shrink while over budget,
/// a run makes only finitely many attempts.
///
/// `qs` is the sequence of quality parameters actually used, one per
/// transcode attempt: it strictly escalates (every continued iteration
/// raises the quality by at least 1), and every attempt except possibly the
/// last came out over budget — otherwise the loop would have stopped.  Then
/// the run is at most `m(qs[0]) - budget + 1` attempts long.
pub proof fn lemma_escalating_run_is_finite(m: spec_fn(nat) -> nat, budget: nat, qs: Seq<nat>)
    requires
        forall|q1: nat, q2: nat| q1 <= q2 ==> #[trigger] m(q2) <= #[trigger] m(q1),
        forall|q: nat| #[trigger] m(q) > budget ==> m((q + 1) as nat) < m(q),
        qs.len() >= 1,
        forall|j: int| 1 <= j < qs.len() ==> qs[j - 1] < #[trigger] qs[j],
        forall|i: int| 0 <= i < qs.len() - 1 ==> #[trigger] m(qs[i]) > budget,
    ensures
        m(qs[0]) > budget ==> qs.len() <= m(qs[0]) - budget + 1,
        m(qs[0]) <= budget ==> qs.len() == 1,
{
    if qs.len() >= 2 {
        let last: int = qs.len() - 2;
        assert(m(qs[last]) > budget);
        lemma_quality_chain(qs, last);
        lemma_sizes_drop(m, budget, qs[0], (qs[last] - qs[0]) as nat);
        // the size at qs[last] is still over budget, so the linear drop
        // bounds how far qs[last] can sit above qs[0]
        assert(m(qs[last]) <= m((qs[0] + (qs[last] - qs[0])) as nat));
        assert(m(qs[last]) + (qs[last] - qs[0]) <= m(qs[0]));
    }
}

} // verus!

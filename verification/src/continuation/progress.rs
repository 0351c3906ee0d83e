//! How far the proof of an execution has come: the execution is traced and
//! sliced, and then every slice goes its own way from circuit to verified
//! proof.

use vstd::prelude::*;

verus! {

/// How far one slice has come.
#[derive(Clone, Copy, Debug, PartialEq, Eq, Structural, Hash)]
pub enum SliceStage {
    /// The slice was cut; nothing was built from it yet.
    Sliced,
    CircuitBuilt,
    Proven,
    Verified,
}

/// How far the execution as a whole has come.
#[derive(Clone, Copy, Debug, PartialEq, Eq, Structural, Hash)]
pub enum Phase {
    NotStarted,
    Tracing,
    Sliced,
}

/// A step that the state of the execution does not allow.
#[derive(Clone, Copy, Debug, PartialEq, Eq, Structural, Hash)]
pub enum ProgressError {
    /// The execution is not in the phase the step starts from.
    WrongPhase,
    /// The execution has no slice of that index.
    NoSuchSlice,
    /// The slice is not in the stage the step starts from.
    WrongStage,
    /// An execution has at least one slice.
    NoSlices,
}

/// The progress of one execution.
#[derive(Debug, PartialEq, Eq)]
pub struct Progress {
    phase: Phase,
    slices: Vec<SliceStage>,
}

/// `Progress` as a value.
pub ghost struct ProgressView {
    pub phase: Phase,
    pub slices: Seq<SliceStage>,
}

impl View for Progress {
    type V = ProgressView;

    closed spec fn view(&self) -> ProgressView {
        ProgressView { phase: self.phase, slices: self.slices@ }
    }
}

/// The stage that follows a stage.
pub open spec fn next_stage(stage: SliceStage) -> Option<SliceStage> {
    match stage {
        SliceStage::Sliced => Some(SliceStage::CircuitBuilt),
        SliceStage::CircuitBuilt => Some(SliceStage::Proven),
        SliceStage::Proven => Some(SliceStage::Verified),
        SliceStage::Verified => None,
    }
}

/// What moving slice `index` one stage on does to the progress.
pub open spec fn after_advance(progress: ProgressView, index: int) -> Result<
    ProgressView,
    ProgressError,
> {
    if progress.phase != Phase::Sliced {
        Err(ProgressError::WrongPhase)
    } else if !(0 <= index < progress.slices.len()) {
        Err(ProgressError::NoSuchSlice)
    } else {
        match next_stage(progress.slices[index]) {
            Some(stage) => Ok(
                ProgressView { phase: progress.phase, slices: progress.slices.update(index, stage) },
            ),
            None => Err(ProgressError::WrongStage),
        }
    }
}

/// What giving up the work on slice `index` does to the progress: the slice
/// starts over, whatever was built or proved of it is dropped.
pub open spec fn after_failure(progress: ProgressView, index: int) -> Result<
    ProgressView,
    ProgressError,
> {
    if progress.phase != Phase::Sliced {
        Err(ProgressError::WrongPhase)
    } else if !(0 <= index < progress.slices.len()) {
        Err(ProgressError::NoSuchSlice)
    } else {
        Ok(
            ProgressView {
                phase: progress.phase,
                slices: progress.slices.update(index, SliceStage::Sliced),
            },
        )
    }
}

/// Whether the execution is proved: it was sliced, and every slice is
/// verified.
pub open spec fn proved(progress: ProgressView) -> bool {
    &&& progress.phase == Phase::Sliced
    &&& forall|i: int| 0 <= i < progress.slices.len() ==> progress.slices[i] == SliceStage::Verified
}

/// Whether the public outputs may be asserted from slice `index`: only from
/// the last slice.
pub open spec fn outputs_at(progress: ProgressView, index: int) -> bool {
    progress.phase == Phase::Sliced && index == progress.slices.len() - 1
}

impl Progress {
    /// The progress of an execution that has not started.
    pub fn new() -> (r: Self)
        ensures
            r@.phase == Phase::NotStarted,
            r@.slices.len() == 0,
    {
        Progress { phase: Phase::NotStarted, slices: Vec::new() }
    }

    pub fn phase(&self) -> (r: Phase)
        ensures
            r == self@.phase,
    {
        self.phase
    }

    /// The stage of slice `index`, if there is such a slice.
    pub fn stage(&self, index: usize) -> (r: Option<SliceStage>)
        ensures
            r == if index < self@.slices.len() {
                Some(self@.slices[index as int])
            } else {
                None
            },
    {
        if index < self.slices.len() {
            Some(self.slices[index])
        } else {
            None
        }
    }

    /// The interpreter starts to run.
    pub fn start_tracing(&mut self) -> (r: Result<(), ProgressError>)
        ensures
            old(self)@.phase == Phase::NotStarted ==> r is Ok && final(self)@ == (ProgressView {
                phase: Phase::Tracing,
                slices: old(self)@.slices,
            }),
            old(self)@.phase != Phase::NotStarted ==> r == Err::<(), ProgressError>(
                ProgressError::WrongPhase,
            ) && final(self)@ == old(self)@,
    {
        match self.phase {
            Phase::NotStarted => {
                self.phase = Phase::Tracing;
                Ok(())
            },
            _ => Err(ProgressError::WrongPhase),
        }
    }

    /// The run has ended and was cut into `total_slices` slices.
    pub fn sliced(&mut self, total_slices: usize) -> (r: Result<(), ProgressError>)
        ensures
            match r {
                Ok(_) => {
                    &&& old(self)@.phase == Phase::Tracing
                    &&& total_slices > 0
                    &&& final(self)@.phase == Phase::Sliced
                    &&& final(self)@.slices == Seq::new(
                        total_slices as nat,
                        |i: int| SliceStage::Sliced,
                    )
                },
                Err(e) => {
                    &&& final(self)@ == old(self)@
                    &&& e == if old(self)@.phase != Phase::Tracing {
                        ProgressError::WrongPhase
                    } else {
                        ProgressError::NoSlices
                    }
                    &&& old(self)@.phase != Phase::Tracing || total_slices == 0
                },
            },
    {
        match self.phase {
            Phase::Tracing => {},
            _ => {
                return Err(ProgressError::WrongPhase);
            },
        }
        if total_slices == 0 {
            return Err(ProgressError::NoSlices);
        }
        let mut slices: Vec<SliceStage> = Vec::new();
        let mut i: usize = 0;
        while i < total_slices
            invariant
                i <= total_slices,
                slices@ == Seq::new(i as nat, |j: int| SliceStage::Sliced),
            decreases total_slices - i,
        {
            slices.push(SliceStage::Sliced);
            i += 1;
            proof {
                assert(slices@ =~= Seq::new(i as nat, |j: int| SliceStage::Sliced));
            }
        }
        self.slices = slices;
        self.phase = Phase::Sliced;
        Ok(())
    }

    /// Slice `index` has reached its next stage: its circuit was built, its
    /// proof was created, or its proof was verified. No other slice is
    /// touched.
    pub fn advance(&mut self, index: usize) -> (r: Result<SliceStage, ProgressError>)
        ensures
            match after_advance(old(self)@, index as int) {
                Ok(next) => final(self)@ == next && r == Ok::<SliceStage, ProgressError>(
                    next.slices[index as int],
                ),
                Err(e) => final(self)@ == old(self)@ && r == Err::<SliceStage, ProgressError>(e),
            },
    {
        match self.phase {
            Phase::Sliced => {},
            _ => {
                return Err(ProgressError::WrongPhase);
            },
        }
        if index >= self.slices.len() {
            return Err(ProgressError::NoSuchSlice);
        }
        let next = match self.slices[index] {
            SliceStage::Sliced => SliceStage::CircuitBuilt,
            SliceStage::CircuitBuilt => SliceStage::Proven,
            SliceStage::Proven => SliceStage::Verified,
            SliceStage::Verified => {
                return Err(ProgressError::WrongStage);
            },
        };
        self.slices.set(index, next);
        Ok(next)
    }

    /// The work on slice `index` failed and is given up: the slice starts
    /// over. No other slice is touched.
    pub fn fail(&mut self, index: usize) -> (r: Result<(), ProgressError>)
        ensures
            match after_failure(old(self)@, index as int) {
                Ok(next) => final(self)@ == next && r is Ok,
                Err(e) => final(self)@ == old(self)@ && r == Err::<(), ProgressError>(e),
            },
    {
        match self.phase {
            Phase::Sliced => {},
            _ => {
                return Err(ProgressError::WrongPhase);
            },
        }
        if index >= self.slices.len() {
            return Err(ProgressError::NoSuchSlice);
        }
        self.slices.set(index, SliceStage::Sliced);
        Ok(())
    }

    /// Whether the execution is proved.
    pub fn is_proved(&self) -> (r: bool)
        ensures
            r == proved(self@),
    {
        match self.phase {
            Phase::Sliced => {},
            _ => {
                return false;
            },
        }
        let mut i: usize = 0;
        while i < self.slices.len()
            invariant
                i <= self.slices@.len(),
                forall|j: int| 0 <= j < i ==> self.slices@[j] == SliceStage::Verified,
            decreases self.slices@.len() - i,
        {
            match self.slices[i] {
                SliceStage::Verified => {},
                _ => {
                    return false;
                },
            }
            i += 1;
        }
        true
    }

    /// Whether the public outputs may be asserted from slice `index`.
    pub fn may_assert_outputs(&self, index: usize) -> (r: bool)
        ensures
            r == outputs_at(self@, index as int),
    {
        match self.phase {
            Phase::Sliced => self.slices.len() > 0 && index == self.slices.len() - 1,
            _ => false,
        }
    }
}

/// A failure is local to its slice: it leaves every other slice in the
/// stage it had, and a slice that was verified stays verified.
pub proof fn lemma_failure_is_local(progress: ProgressView, failed: int, other: int)
    requires
        after_failure(progress, failed) is Ok,
        0 <= other < progress.slices.len(),
        other != failed,
    ensures
        after_failure(progress, failed)->Ok_0.slices[other] == progress.slices[other],
        after_failure(progress, failed)->Ok_0.slices.len() == progress.slices.len(),
{
}

/// An execution whose slice failed is not proved until that slice has been
/// verified again.
pub proof fn lemma_failed_slice_blocks_proof(progress: ProgressView, failed: int)
    requires
        after_failure(progress, failed) is Ok,
    ensures
        !proved(after_failure(progress, failed)->Ok_0),
{
    let next = after_failure(progress, failed)->Ok_0;
    assert(next.slices[failed] == SliceStage::Sliced);
}

} // verus!

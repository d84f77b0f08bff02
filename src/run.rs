//! Run-level decisions: whether a run may start, and the tally of outcomes
//! that decides whether it succeeded.
use vstd::prelude::*;

verus! {

/// Why a run cannot start.
#[derive(PartialEq, Eq, Structural, Debug, Clone, Copy)]
pub enum StartError {
    /// The source root does not exist or cannot be accessed.
    SourceMissing,
    /// The destination already holds at least one entry.
    DestinationNotEmpty,
}

/// What to do with the destination root before the walk begins.
#[derive(PartialEq, Eq, Structural, Debug, Clone, Copy)]
pub enum StartStep {
    /// It does not exist yet: create it.
    CreateDestination,
    /// It exists and is empty: use it as it is.
    UseDestination,
}

/// Decides whether a run may start, from what is known of the two roots.
/// `destination_has_entry` is only looked at where the destination exists.
pub fn check_args(source_exists: bool, destination_exists: bool, destination_has_entry: bool) -> (r: Result<StartStep, StartError>)
    ensures
        !source_exists ==> r == Err::<StartStep, StartError>(StartError::SourceMissing),
        source_exists && !destination_exists ==> r == Ok::<StartStep, StartError>(StartStep::CreateDestination),
        source_exists && destination_exists && destination_has_entry ==> r == Err::<StartStep, StartError>(StartError::DestinationNotEmpty),
        source_exists && destination_exists && !destination_has_entry ==> r == Ok::<StartStep, StartError>(StartStep::UseDestination),
{
    if !source_exists {
        Err(StartError::SourceMissing)
    } else if !destination_exists {
        Ok(StartStep::CreateDestination)
    } else if destination_has_entry {
        Err(StartError::DestinationNotEmpty)
    } else {
        Ok(StartStep::UseDestination)
    }
}

/// How one item of the walk ended.
#[derive(PartialEq, Eq, Structural, Debug, Clone, Copy)]
pub enum Outcome {
    /// The entry was mirrored.
    Success,
    /// The file was written, but its timestamps could not be set: a success
    /// that carries a warning.
    PartialSuccess,
    /// The entry could not be read or mirrored.
    Error,
    /// The entry matched a skip pattern and was left out.
    FilteredOut,
}

/// Why a whole run failed after the walk.
#[derive(PartialEq, Eq, Structural, Debug, Clone, Copy)]
pub enum RunError {
    /// No entry was mirrored; `errors` entries failed.
    NoSuccess { errors: u128 },
}

/// The running counts of a run. `warnings` counts the partial successes,
/// which are among `success` too.
#[derive(PartialEq, Eq, Structural, Debug, Clone, Copy)]
pub struct Tally {
    pub success: u128,
    pub errors: u128,
    pub skipped: u128,
    pub warnings: u128,
}

impl Tally {
    /// All counts at zero.
    pub fn new() -> (r: Tally)
        ensures
            r.success == 0 && r.errors == 0 && r.skipped == 0 && r.warnings == 0,
    {
        Tally { success: 0, errors: 0, skipped: 0, warnings: 0 }
    }

    /// Whether the count that `o` raises can still grow.
    pub open spec fn has_room(&self, o: Outcome) -> bool {
        match o {
            Outcome::Success => self.success < u128::MAX,
            Outcome::PartialSuccess => self.success < u128::MAX && self.warnings < u128::MAX,
            Outcome::Error => self.errors < u128::MAX,
            Outcome::FilteredOut => self.skipped < u128::MAX,
        }
    }

    /// Counts one outcome: the matching count grows by one, the others stay;
    /// a partial success raises both `success` and `warnings`.
    pub fn record(&mut self, o: Outcome)
        requires
            old(self).has_room(o),
        ensures
            final(self).success == old(self).success + if o == Outcome::Success || o == Outcome::PartialSuccess { 1int } else { 0int },
            final(self).warnings == old(self).warnings + if o == Outcome::PartialSuccess { 1int } else { 0int },
            final(self).errors == old(self).errors + if o == Outcome::Error { 1int } else { 0int },
            final(self).skipped == old(self).skipped + if o == Outcome::FilteredOut { 1int } else { 0int },
    {
        match o {
            Outcome::Success => self.success = self.success + 1,
            Outcome::PartialSuccess => {
                self.success = self.success + 1;
                self.warnings = self.warnings + 1;
            },
            Outcome::Error => self.errors = self.errors + 1,
            Outcome::FilteredOut => self.skipped = self.skipped + 1,
        }
    }

    /// The verdict on a finished run: it failed exactly when nothing was mirrored.
    pub fn finish(&self) -> (r: Result<(), RunError>)
        ensures
            self.success == 0 ==> r == Err::<(), RunError>(RunError::NoSuccess { errors: self.errors }),
            self.success > 0 ==> r is Ok,
    {
        if self.success == 0 {
            Err(RunError::NoSuccess { errors: self.errors })
        } else {
            Ok(())
        }
    }
}

} // verus!

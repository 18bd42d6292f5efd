//! The diagnostic sink: one flag that records whether a scan met a lexical error.

use vstd::prelude::*;

verus! {

/// Records whether any lexical error has been reported since the flag was last cleared.
#[derive(Debug)]
pub struct ErrorReporter {
    happened: bool,
}

impl View for ErrorReporter {
    type V = bool;

    /// The flag itself: `true` once an error has been reported and not yet cleared.
    closed spec fn view(&self) -> bool {
        self.happened
    }
}

impl ErrorReporter {
    /// The reporter as `report` leaves it.
    pub closed spec fn reported(self) -> Self {
        ErrorReporter { happened: true }
    }

    /// The reporter as `clear` leaves it.
    pub closed spec fn cleared(self) -> Self {
        ErrorReporter { happened: false }
    }

    /// A reporter with no error recorded.
    pub fn new() -> (r: Self)
        ensures
            !r@,
    {
        Self { happened: false }
    }

    /// Forgets any recorded error.
    pub fn clear(&mut self)
        ensures
            *final(self) == old(self).cleared(),
            !final(self)@,
            !old(self)@ ==> *final(self) == *old(self),
    {
        self.happened = false
    }

    /// Records that an error occurred.
    pub fn report(&mut self)
        ensures
            *final(self) == old(self).reported(),
            final(self)@,
            old(self)@ ==> *final(self) == *old(self),
    {
        self.happened = true
    }

    /// Whether an error is recorded. The reporter is left as it was.
    pub fn happened(&mut self) -> (r: bool)
        ensures
            r == old(self)@,
            *final(self) == *old(self),
    {
        self.happened
    }

    /// Clearing after any number of reports leaves no error recorded, reporting is
    /// idempotent, and clearing a reporter that holds no error changes nothing.
    pub proof fn lemma_clear_resets(self)
        ensures
            !self.reported().cleared()@,
            !self.cleared()@,
            self.reported()@,
            self.reported().reported() == self.reported(),
            self.cleared().cleared() == self.cleared(),
            !self@ ==> self.cleared() == self,
            self@ ==> self.reported() == self,
    {
    }
}

} // verus!

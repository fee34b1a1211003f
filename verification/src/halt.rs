//! Durability progress, and the terminal failure that ends it.

use vstd::prelude::*;

use crate::types::StrataLsn;

verus! {

/// Latest crash-durable store LSN, or a terminal failure that prevents further publication.
#[derive(Clone, Debug, PartialEq, Eq)]
pub struct DurabilityProgress {
    /// Every operation through this LSN survives a crash.
    pub published_lsn: StrataLsn,
    /// Set when this store can no longer accept or durably publish new writes.
    pub halt_reason: Option<String>,
}

/// The store is halted.
#[derive(Clone, Debug, PartialEq, Eq)]
pub struct StoreHalted {
    pub reason: String,
}

/// Terminal state of one store instance. The first failure stays the reason.
#[derive(Debug)]
pub struct StoreHalt {
    pub progress: DurabilityProgress,
}

/// A reason, as characters.
pub open spec fn reason_view(reason: Option<String>) -> Option<Seq<char>> {
    match reason {
        Some(reason) => Some(reason@),
        None => None,
    }
}

impl StoreHalt {
    pub open spec fn reason(&self) -> Option<Seq<char>> {
        reason_view(self.progress.halt_reason)
    }

    pub fn new(published_lsn: StrataLsn) -> (halt: StoreHalt)
        ensures
            halt.progress.published_lsn == published_lsn,
            halt.reason() is None,
    {
        StoreHalt { progress: DurabilityProgress { published_lsn, halt_reason: None } }
    }

    /// Publishes a later LSN; an earlier one changes nothing. Says whether subscribers have to be
    /// told.
    pub fn publish_lsn(&mut self, published_lsn: StrataLsn) -> (changed: bool)
        ensures
            final(self).reason() == old(self).reason(),
            changed == (published_lsn > old(self).progress.published_lsn),
            final(self).progress.published_lsn == (if changed {
                published_lsn
            } else {
                old(self).progress.published_lsn
            }),
    {
        if published_lsn <= self.progress.published_lsn {
            return false;
        }
        self.progress.published_lsn = published_lsn;
        true
    }

    /// Halts the store. Says whether this was the first failure; a later one keeps the reason.
    pub fn halt(&mut self, reason: String) -> (first: bool)
        ensures
            final(self).progress.published_lsn == old(self).progress.published_lsn,
            first == old(self).reason() is None,
            final(self).reason() == (match old(self).reason() {
                Some(earlier) => Some(earlier),
                None => Some(reason@),
            }),
    {
        if self.progress.halt_reason.is_some() {
            return false;
        }
        self.progress.halt_reason = Some(reason);
        true
    }

    /// Fails where the store is halted.
    pub fn check(&self) -> (result: Result<(), StoreHalted>)
        ensures
            match result {
                Ok(()) => self.reason() is None,
                Err(halted) => self.reason() == Some(halted.reason@),
            },
    {
        match &self.progress.halt_reason {
            Some(reason) => Err(StoreHalted { reason: reason.clone() }),
            None => Ok(()),
        }
    }
}

impl Default for StoreHalt {
    fn default() -> (halt: StoreHalt)
        ensures
            halt.progress.published_lsn == 0,
            halt.reason() is None,
    {
        StoreHalt::new(0)
    }
}

} // verus!

//! A logger that hands every record to several loggers.
use vstd::prelude::*;

verus! {

/// A list of loggers that each record goes to.
pub struct Teelogger<L> {
    loggers: Vec<L>,
}

impl<L> Teelogger<L> {
    /// The loggers, in the order they were added.
    pub closed spec fn logger_list(&self) -> Seq<L> {
        self.loggers@
    }

    /// A logger with no loggers to hand records to.
    pub fn new() -> (r: Teelogger<L>)
        ensures
            r.logger_list() == Seq::<L>::empty(),
    {
        Teelogger { loggers: Vec::new() }
    }

    /// Adds a logger after the others; returns the tee itself, so that
    /// calls can be chained.
    pub fn add_logger(&mut self, logger: L) -> (r: &mut Self)
        ensures
            r.logger_list() == old(self).logger_list().push(logger),
            *final(self) == *final(r),
    {
        self.loggers.push(logger);
        self
    }

    /// The loggers, in the order they were added.
    pub fn loggers(&self) -> (r: &Vec<L>)
        ensures
            r@ == self.logger_list(),
    {
        &self.loggers
    }
}

} // verus!

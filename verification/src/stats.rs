//! Numbering of arbitrage executions and where their records are kept.

use vstd::prelude::*;

verus! {

/// Numbers executions and knows the JSON Lines file their records go to.
pub struct StatsLogger {
    file_path: String,
    execution_count: u64,
}

impl StatsLogger {
    /// The file the records are appended to.
    pub closed spec fn path(&self) -> Seq<char> {
        self.file_path@
    }

    /// How many executions have been numbered.
    pub closed spec fn count(&self) -> u64 {
        self.execution_count
    }

    pub fn new(file_name: &str) -> (r: Self)
        ensures
            r.path() == file_name@,
            r.count() == 0,
    {
        StatsLogger { file_path: file_name.to_string(), execution_count: 0 }
    }

    /// The next execution id: 1 for the first, then one more each time.
    pub fn next_id(&mut self) -> (r: u64)
        requires
            old(self).count() < u64::MAX,
        ensures
            r == old(self).count() + 1,
            final(self).count() == r,
            final(self).path() == old(self).path(),
    {
        self.execution_count = self.execution_count + 1;
        self.execution_count
    }

    /// The file the records are appended to.
    pub fn file_path(&self) -> (r: &str)
        ensures
            r@ == self.path(),
    {
        self.file_path.as_str()
    }
}

/// The file that arbitrage opportunities are logged to.
pub fn get_arb_log_path() -> (r: String)
    ensures
        r@ == "arb_opportunities.log"@,
{
    "arb_opportunities.log".to_string()
}

} // verus!

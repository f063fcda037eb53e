use vstd::prelude::*;

verus! {

/// The error returned when a worker's task limit has no free slot left
/// ("WebWorker capacity reached").
#[derive(Debug, Clone, Copy, PartialEq, Eq, Structural)]
pub struct Full;

impl Full {
    /// The message that describes this error.
    pub fn message() -> (msg: &'static str)
        ensures
            msg@ == "WebWorker capacity reached"@,
    {
        "WebWorker capacity reached"
    }
}

} // verus!

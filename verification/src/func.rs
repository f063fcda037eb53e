//! Handles that name a function exported to the worker.
use vstd::prelude::*;

verus! {

/// A function that a worker can run, known by the name under which it is exported.
pub struct WebWorkerFn {
    pub name: &'static str,
}

impl WebWorkerFn {
    /// A handle for the exported function `func_name`; `_f` is the function
    /// itself, taken only so that the compiler checks that a function of the
    /// right type (from bytes to bytes) stands behind the name. Nothing checks
    /// that it was exported under that name.
    pub fn new_unchecked<F: Fn(Box<[u8]>) -> Box<[u8]>>(func_name: &'static str, _f: F) -> (r: Self)
        ensures
            r.name == func_name,
    {
        WebWorkerFn { name: func_name }
    }

    /// A handle for the exported function `func_name`, by name alone.
    pub fn from_name_unchecked(func_name: &'static str) -> (r: Self)
        ensures
            r.name == func_name,
    {
        WebWorkerFn { name: func_name }
    }
}

} // verus!

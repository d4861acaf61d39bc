use vstd::prelude::*;
use crate::qemu::ExitCode;

verus! {

/// A test case that the runner can run; a failing test panics.
pub trait Testable {
    fn run(&self);
}

/// Runs every test in order and reports success: a test that fails never
/// returns here.
pub fn test_runner<T: Testable>(tests: &[T]) -> (r: ExitCode)
    ensures
        r == ExitCode::Success,
{
    let mut i: usize = 0;
    while i < tests.len()
        invariant
            i <= tests@.len(),
        decreases tests@.len() - i,
    {
        tests[i].run();
        i += 1;
    }
    ExitCode::Success
}

} // verus!

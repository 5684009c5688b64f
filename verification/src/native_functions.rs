use vstd::prelude::*;
use vstd::string::StringExecFns;

verus! {

/// The built-in `clock`: no parameters; a call asks the host for the time in
/// microseconds since the Unix epoch.
#[derive(Debug)]
pub struct Clock {}

impl Clock {
    pub fn arity(&self) -> (count: usize)
        ensures
            count == 0,
    {
        0
    }

    pub fn display(&self) -> (text: String)
        ensures
            text@ == "native clock function"@,
    {
        String::from_str("native clock function")
    }
}

} // verus!

//! Reading a variable from a listing of the environment.
//!
//! The agent may run inside a process in which the C library's lookup does
//! not see the variables it was started with, so it goes through the whole
//! listing itself.

use vstd::prelude::*;
use vstd::string::*;

verus! {

/// The value of the first variable called `name` in the listing `vars`.
pub fn get(vars: &Vec<(String, String)>, name: &str) -> (r: Option<String>)
    ensures
        match r {
            Some(value) => exists|i: int|
                {
                    &&& 0 <= i < vars.len()
                    &&& (#[trigger] vars[i]).0@ == name@
                    &&& value@ == vars[i].1@
                    &&& forall|j: int| 0 <= j < i ==> (#[trigger] vars[j]).0@ != name@
                },
            None => forall|j: int| 0 <= j < vars.len() ==> (#[trigger] vars[j]).0@ != name@,
        },
{
    let wanted = String::from_str(name);
    let mut i: usize = 0;
    while i < vars.len()
        invariant
            i <= vars.len(),
            wanted@ == name@,
            forall|j: int| 0 <= j < i ==> (#[trigger] vars[j]).0@ != name@,
        decreases vars.len() - i,
    {
        if vars[i].0 == wanted {
            let value = vars[i].1.clone();
            assert(vars[i as int].0@ == name@ && value@ == vars[i as int].1@);
            return Some(value);
        }
        i += 1;
    }
    None
}

} // verus!

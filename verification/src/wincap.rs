//! Finding a module among those loaded into the process.
//!
//! The caller lists the base names of the loaded modules, in the order in
//! which the system reports them; the search goes by name, without regard
//! to case.

use vstd::prelude::*;
use vstd::string::*;

verus! {

/// The lowercase form of a string, as `str::to_lowercase` gives it.
pub uninterp spec fn lowercase(s: Seq<char>) -> Seq<char>;

/// The lowercase form of `s`.
///
/// Calls `str::to_lowercase`, whose result depends on the characters of
/// the string alone.
#[verifier::external_body]
fn to_lowercase(s: &str) -> (r: String)
    ensures
        r@ == lowercase(s@),
{
    s.to_lowercase()
}

/// Index of the first of `names` that equals `wanted`, character by
/// character.
pub fn position_of(names: &Vec<String>, wanted: &str) -> (r: Option<usize>)
    ensures
        match r {
            Some(i) => {
                &&& i < names.len()
                &&& names[i as int]@ == wanted@
                &&& forall|j: int| 0 <= j < i ==> names[j]@ != wanted@
            },
            None => forall|j: int| 0 <= j < names.len() ==> names[j]@ != wanted@,
        },
{
    let target = String::from_str(wanted);
    let mut i: usize = 0;
    while i < names.len()
        invariant
            i <= names.len(),
            target@ == wanted@,
            forall|j: int| 0 <= j < i ==> names[j]@ != wanted@,
        decreases names.len() - i,
    {
        if names[i] == target {
            return Some(i);
        }
        i += 1;
    }
    None
}

/// Index of the first of the loaded `modules` whose base name is `name`,
/// without regard to case; `None` where no such module is loaded.
pub fn get_module_if_loaded(modules: &Vec<String>, name: &str) -> (r: Option<usize>)
    ensures
        match r {
            Some(i) => {
                &&& i < modules.len()
                &&& lowercase(modules[i as int]@) == lowercase(name@)
                &&& forall|j: int| 0 <= j < i ==> lowercase(modules[j]@) != lowercase(name@)
            },
            None => forall|j: int|
                0 <= j < modules.len() ==> lowercase(modules[j]@) != lowercase(name@),
        },
{
    let wanted = to_lowercase(name);
    let mut lowered: Vec<String> = Vec::new();
    let mut i: usize = 0;
    while i < modules.len()
        invariant
            i <= modules.len(),
            lowered.len() == i,
            forall|j: int| 0 <= j < i ==> lowered[j]@ == lowercase(modules[j]@),
        decreases modules.len() - i,
    {
        lowered.push(to_lowercase(modules[i].as_str()));
        i += 1;
    }
    let r = position_of(&lowered, wanted.as_str());
    proof {
        match r {
            Some(k) => {
                assert forall|j: int| 0 <= j < k implies lowercase(modules[j]@) != lowercase(
                    name@,
                ) by {
                    assert(lowered[j]@ != wanted@);
                }
            },
            None => {
                assert forall|j: int| 0 <= j < modules.len() implies lowercase(modules[j]@)
                    != lowercase(name@) by {
                    assert(lowered[j]@ != wanted@);
                }
            },
        }
    }
    r
}

} // verus!

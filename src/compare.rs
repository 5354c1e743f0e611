use vstd::prelude::*;
use vstd::std_specs::cmp::PartialEqSpec;

verus! {

/// True when `argument` is absent (no constraint) or equals `given`.
pub fn maybe_absent_compare<T: PartialEq>(argument: &Option<T>, given: &T) -> (r: bool)
    ensures
        T::obeys_eq_spec() ==> r == match argument {
            Some(a) => a.eq_spec(given),
            None => true,
        },
{
    match argument {
        Some(a) => *a == *given,
        None => true,
    }
}

/// True when `argument` is empty (no constraint) or holds `given`.
pub fn maybe_absent_list<T: PartialEq>(argument: &Vec<T>, given: &T) -> (r: bool)
    ensures
        T::obeys_eq_spec() ==> r == (argument@.len() == 0 || exists|i: int|
            0 <= i < argument@.len() && (#[trigger] argument@[i]).eq_spec(given)),
{
    if argument.len() == 0 {
        return true;
    }
    let mut i: usize = 0;
    while i < argument.len()
        invariant
            i <= argument@.len(),
            T::obeys_eq_spec() ==> forall|j: int| 0 <= j < i ==> !(#[trigger] argument@[j]).eq_spec(given),
        decreases argument@.len() - i,
    {
        if argument[i] == *given {
            return true;
        }
        i = i + 1;
    }
    false
}

/// The IP version gate: `args` says which of (IPv4, IPv6) is required,
/// `given` which of them the mirror supports.
pub fn ip_filter(args: (bool, bool), given: (bool, bool)) -> (r: bool)
    ensures
        r == ((!args.0 || given.0) && (!args.1 || given.1)),
{
    if args.0 && !given.0 {
        return false;
    }
    if args.1 && !given.1 {
        return false;
    }
    true
}

} // verus!

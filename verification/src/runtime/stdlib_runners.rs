//! The standard-library functions and methods that the machine runs
//! natively, by name.
use vstd::prelude::*;

verus! {

/// Names of the native standard-library routines, in the order of their
/// runner indexes (the operand of a `CALL_STD` instruction).
pub open spec fn std_runner_names() -> Seq<Seq<char>> {
    seq![
        "std::print"@,
        "std::println"@,
        "std::range"@,
        "std::Bool::to_string"@,
        "std::Int::to_string"@,
        "std::Float::to_string"@,
        "std::List::push"@,
        "std::List::size"@,
    ]
}

/// The names of the native standard-library routines (see `std_runner_names`).
pub fn std_runners() -> (r: Vec<&'static str>)
    ensures
        r@.map_values(|s: &str| s@) == std_runner_names(),
{
    let mut r: Vec<&'static str> = Vec::new();
    r.push("std::print");
    r.push("std::println");
    r.push("std::range");
    r.push("std::Bool::to_string");
    r.push("std::Int::to_string");
    r.push("std::Float::to_string");
    r.push("std::List::push");
    r.push("std::List::size");
    assert(r@.map_values(|s: &str| s@) =~= std_runner_names());
    r
}

} // verus!

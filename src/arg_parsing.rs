//! Picking the text to convert out of a program's argument list.
use vstd::prelude::*;

verus! {

/// The error returned when no text follows the program name.
pub const MISSING_ARGUMENT: &'static str = "Did not pass in a string to be converted";

/// Returns the first argument after the program name, which `args[0]` is
/// taken to be; later arguments are ignored.
pub fn read_args(args: Vec<String>) -> (r: Result<String, &'static str>)
    ensures
        args@.len() >= 2 ==> r == Ok::<String, &'static str>(args@[1]),
        args@.len() < 2 ==> r == Err::<String, &'static str>(MISSING_ARGUMENT),
{
    let mut args = args;
    if args.len() >= 2 {
        Ok(args.swap_remove(1))
    } else {
        Err(MISSING_ARGUMENT)
    }
}

} // verus!

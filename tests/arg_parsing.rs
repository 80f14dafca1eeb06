use sb::arg_parsing::{read_args, MISSING_ARGUMENT};

#[test]
fn missing_argument_is_an_error() {
    let args = vec!["prog".to_string()];
    assert_eq!(read_args(args), Err("Did not pass in a string to be converted"));
}

#[test]
fn no_arguments_at_all_is_an_error() {
    assert_eq!(read_args(Vec::new()), Err(MISSING_ARGUMENT));
}

#[test]
fn first_argument_is_returned() {
    let args = vec!["prog".to_string(), "hi".to_string()];
    assert_eq!(read_args(args), Ok("hi".to_string()));
}

#[test]
fn later_arguments_are_ignored() {
    let args = vec!["prog".to_string(), "one".to_string(), "two".to_string()];
    assert_eq!(read_args(args), Ok("one".to_string()));
}

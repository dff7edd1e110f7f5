use vstd::prelude::*;

verus! {

/// Whether a command line of `args` words, the name of the program
/// included, is one of `expected_args_num` words that names a settings file.
pub open spec fn names_settings(args: Seq<String>, expected_args_num: usize) -> bool {
    args.len() == expected_args_num && args.len() >= 2
}

/// Reads the command line: where it has as many words as expected, the word
/// behind the name of the program is the path of the settings file.
pub fn parse_input_args(args: &Vec<String>, expected_args_num: usize) -> (path: Option<String>)
    ensures
        match path {
            Some(name) => names_settings(args@, expected_args_num) && name == args@[1],
            None => !names_settings(args@, expected_args_num),
        },
{
    if args.len() == expected_args_num && args.len() >= 2 {
        Some(args[1].clone())
    } else {
        None
    }
}

} // verus!

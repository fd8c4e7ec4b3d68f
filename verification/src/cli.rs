//! The command line: an input string and, optionally, the output file.

use vstd::prelude::*;
use vstd::string::StringExecFns;

verus! {

/// What a run was asked to do.
#[derive(Clone, Debug)]
pub struct Request {
    /// The string whose variants are generated.
    pub input: String,
    /// The path of the file that receives them.
    pub output: String,
}

/// The output file where none is named.
pub open spec fn default_output_text() -> Seq<char> {
    "combinations.txt"@
}

/// Whether `count` arguments, the program's name included, make a valid
/// command line: the input string, with or without an output file.
pub open spec fn valid_argument_count(count: nat) -> bool {
    count == 2 || count == 3
}

/// The output file where none is named.
pub fn default_output() -> (path: String)
    ensures
        path@ == default_output_text(),
{
    String::from_str("combinations.txt")
}

/// Reads the command line. `args` starts with the program's name; the input
/// string follows, then the output file if there is one. Any other number
/// of arguments is refused.
pub fn parse_arguments(args: &Vec<String>) -> (request: Option<Request>)
    ensures
        request.is_some() <==> valid_argument_count(args@.len()),
        request.is_some() ==> request.unwrap().input@ == args@[1]@,
        request.is_some() && args@.len() == 3 ==> request.unwrap().output@ == args@[2]@,
        request.is_some() && args@.len() == 2 ==> request.unwrap().output@
            == default_output_text(),
{
    if args.len() < 2 || args.len() > 3 {
        return None;
    }
    let input = args[1].clone();
    let output = if args.len() == 3 {
        args[2].clone()
    } else {
        default_output()
    };
    Some(Request { input, output })
}

/// The line that tells how the program is called.
pub fn usage_message(program: &str) -> (message: String)
    ensures
        message@ == "Usage: "@ + program@ + " <input_string> [output_file]"@,
{
    let mut message = String::from_str("Usage: ");
    message.append(program);
    message.append(" <input_string> [output_file]");
    message
}

/// The line that closes a run that wrote `output`.
pub fn completion_message(output: &str) -> (message: String)
    ensures
        message@ == "\nFile creation is complete, "@ + output@ + " is ready!"@,
{
    let mut message = String::from_str("\nFile creation is complete, ");
    message.append(output);
    message.append(" is ready!");
    message
}

} // verus!

use vstd::prelude::*;

verus! {

/// A syntax error found while parsing, with the line it was found on.
#[derive(Debug)]
pub struct ParseErr {
    pub msg: String,
    pub line: u32,
}

impl ParseErr {
    pub fn new(line: u32, msg: &str) -> (r: Self)
        ensures
            r.line == line,
            r.msg@ == msg@,
    {
        proof {
            broadcast use vstd::string::to_string_from_display_ensures_for_str;
        }
        ParseErr { msg: msg.to_string(), line }
    }
}

} // verus!

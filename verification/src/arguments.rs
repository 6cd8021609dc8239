//! The options the assembler's command line carries, as plain data; the
//! embedding application fills them from its environment.

use vstd::prelude::*;

verus! {

/// Input path, output path and the run-after-assembly request.
pub struct Arguments {
    /// The source file to assemble.
    pub input: Option<String>,
    /// Where to write the binary.
    pub output: Option<String>,
    /// Whether to execute the program after assembling it.
    pub run: bool,
}

impl Default for Arguments {
    /// No paths, no run request.
    fn default() -> (a: Arguments)
        ensures
            a.input is None,
            a.output is None,
            !a.run,
    {
        Arguments { input: None, output: None, run: false }
    }
}

} // verus!

//! Programs to run: what is started, and with which arguments.

use vstd::prelude::*;

verus! {

/// A program with its arguments, in their order.
pub struct Invocation {
    pub program: String,
    pub args: Vec<String>,
}

/// What an invocation is.
#[verifier::ext_equal]
pub struct InvocationView {
    pub program: Seq<char>,
    pub args: Seq<Seq<char>>,
}

impl DeepView for Invocation {
    type V = InvocationView;

    open spec fn deep_view(&self) -> InvocationView {
        InvocationView { program: self.program@, args: self.args.deep_view() }
    }
}

/// How a program that has run to its end went: whether it reported success, and what it
/// wrote to its standard output.
pub struct Finished {
    pub success: bool,
    pub stdout: Vec<u8>,
}

} // verus!

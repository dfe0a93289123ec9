//! The command line.

use vstd::prelude::*;

use crate::text::same_text;
use crate::ytdlp::{arg_texts, opt};

verus! {

/// What the command line asks for.
#[derive(Debug)]
pub enum Start {
    /// Run the start-up work that needs no window and exit, so a downloaded build
    /// can prove it loads its libraries on this machine before it replaces the
    /// installed one.
    SelfTest,
    /// Show the window, with this file open if one is named.
    Window(Option<String>),
}

/// The flag that asks for a self-test.
pub open spec fn self_test_flag() -> Seq<char> {
    "--self-test"@
}

/// Reads the arguments after the program's name: the flag anywhere asks for a
/// self-test, else the first argument names a file.
pub fn parse_args(args: &Vec<String>) -> (start: Start)
    ensures
        arg_texts(args@).contains(self_test_flag()) ==> start is SelfTest,
        !arg_texts(args@).contains(self_test_flag()) ==> start is Window && opt(
            start->Window_0,
        ) == (if args@.len() > 0 {
            Some(args@[0]@)
        } else {
            None
        }),
{
    let mut i: usize = 0;
    while i < args.len()
        invariant
            i <= args@.len(),
            forall|j: int| 0 <= j < i ==> (#[trigger] args@[j])@ != self_test_flag(),
        decreases args@.len() - i,
    {
        if same_text(args[i].as_str(), "--self-test") {
            assert(arg_texts(args@)[i as int] == self_test_flag());
            return Start::SelfTest;
        }
        i = i + 1;
    }
    proof {
        if arg_texts(args@).contains(self_test_flag()) {
            let j = arg_texts(args@).index_of(self_test_flag());
            assert(args@[j]@ == self_test_flag());
        }
    }
    Start::Window(
        if args.len() > 0 {
            Some(args[0].clone())
        } else {
            None
        },
    )
}

/// The flag is what a build is tested with before it is put in place.
pub proof fn law_flag_is_stable()
    ensures
        self_test_flag() == "--self-test"@,
{
}

} // verus!

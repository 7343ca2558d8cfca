//! Running external commands, behind a trait so that a run can be observed.

use crate::errors::DotstrapError;
use vstd::prelude::*;

verus! {

/// Something that can run a program with arguments and report whether it succeeded.
pub trait CommandExecutor {
    /// Runs `program` with `args` and says whether it succeeded.
    fn run(&mut self, program: &str, args: &[&str]) -> Result<(), DotstrapError>;
}

/// The status reported for a command that ended without an exit code.
pub const NO_EXIT_CODE: i32 = -1;

/// What the end of a command means: success is `Ok`, anything else is a failure that
/// names the program and carries the exit code, or -1 where there is none.
pub fn exit_result(program: &str, success: bool, code: Option<i32>) -> (r: Result<
    (),
    DotstrapError,
>)
    ensures
        success ==> r is Ok,
        !success ==> (r matches Err(DotstrapError::CommandFailed { program: p, status }) && p@
            == program@ && status == match code {
            Some(c) => c,
            None => NO_EXIT_CODE,
        }),
{
    if success {
        Ok(())
    } else {
        let status: i32 = match code {
            Some(c) => c,
            None => NO_EXIT_CODE,
        };
        Err(DotstrapError::CommandFailed { program: String::from_str(program), status })
    }
}

/// One recorded invocation: the program and its arguments.
pub type Invocation = (Seq<char>, Seq<Seq<char>>);

/// The texts of a list of arguments.
pub open spec fn arg_texts(args: Seq<&str>) -> Seq<Seq<char>> {
    Seq::new(args.len(), |i: int| args[i]@)
}

/// The texts of a list of owned strings.
pub open spec fn string_texts(items: Seq<String>) -> Seq<Seq<char>> {
    Seq::new(items.len(), |i: int| items[i]@)
}

/// An executor that runs nothing: it records each invocation, and fails those of one
/// chosen program.
pub struct RecordingCommandExecutor {
    calls: Vec<(String, Vec<String>)>,
    fail_on: Option<String>,
}

impl RecordingCommandExecutor {
    /// The invocations recorded so far, oldest first.
    pub closed spec fn history(&self) -> Seq<Invocation> {
        Seq::new(self.calls@.len(), |i: int| (self.calls@[i].0@, string_texts(self.calls@[i].1@)))
    }

    /// The program whose invocations fail, if any.
    pub closed spec fn failing(&self) -> Option<Seq<char>> {
        match self.fail_on {
            Some(p) => Some(p@),
            None => None,
        }
    }

    /// An executor with an empty record that fails every invocation of `program`.
    pub fn with_failure(program: &str) -> (r: Self)
        ensures
            r.history() == Seq::<Invocation>::empty(),
            r.failing() == Some(program@),
    {
        let r = RecordingCommandExecutor {
            calls: Vec::new(),
            fail_on: Some(String::from_str(program)),
        };
        assert(r.history() =~= Seq::<Invocation>::empty());
        r
    }

    /// A copy of the record.
    pub fn calls(&self) -> (r: Vec<(String, Vec<String>)>)
        ensures
            r@.len() == self.history().len(),
            forall|i: int|
                0 <= i < r@.len() ==> (#[trigger] r@[i]).0@ == self.history()[i].0 && string_texts(
                    r@[i].1@,
                ) == self.history()[i].1,
    {
        let mut out: Vec<(String, Vec<String>)> = Vec::new();
        let mut i: usize = 0;
        while i < self.calls.len()
            invariant
                i <= self.calls.len(),
                out@.len() == i,
                forall|j: int|
                    0 <= j < i ==> (#[trigger] out@[j]).0@ == self.calls@[j].0@ && string_texts(
                        out@[j].1@,
                    ) == string_texts(self.calls@[j].1@),
            decreases self.calls.len() - i,
        {
            let program = self.calls[i].0.clone();
            let args = copy_strings(&self.calls[i].1);
            out.push((program, args));
            i += 1;
        }
        out
    }
}

/// A copy of a list of strings.
pub fn copy_strings(items: &Vec<String>) -> (out: Vec<String>)
    ensures
        string_texts(out@) == string_texts(items@),
{
    let mut out: Vec<String> = Vec::new();
    let mut i: usize = 0;
    while i < items.len()
        invariant
            i <= items.len(),
            out@.len() == i,
            forall|j: int| 0 <= j < i ==> (#[trigger] out@[j])@ == items@[j]@,
        decreases items.len() - i,
    {
        out.push(items[i].clone());
        i += 1;
    }
    assert(string_texts(out@) =~= string_texts(items@));
    out
}

/// Owned copies of a list of arguments.
pub fn own_args(args: &[&str]) -> (out: Vec<String>)
    ensures
        string_texts(out@) == arg_texts(args@),
{
    let mut out: Vec<String> = Vec::new();
    let mut i: usize = 0;
    while i < args.len()
        invariant
            i <= args.len(),
            out@.len() == i,
            forall|j: int| 0 <= j < i ==> (#[trigger] out@[j])@ == args@[j]@,
        decreases args.len() - i,
    {
        out.push(String::from_str(args[i]));
        i += 1;
    }
    assert(string_texts(out@) =~= arg_texts(args@));
    out
}

impl Default for RecordingCommandExecutor {
    fn default() -> (r: Self)
        ensures
            r.history() == Seq::<Invocation>::empty(),
            r.failing() == None::<Seq<char>>,
    {
        let r = RecordingCommandExecutor { calls: Vec::new(), fail_on: None };
        assert(r.history() =~= Seq::<Invocation>::empty());
        r
    }
}

impl CommandExecutor for RecordingCommandExecutor {
    /// Records the invocation; fails with status 1 where the program is the failing one.
    fn run(&mut self, program: &str, args: &[&str]) -> (r: Result<(), DotstrapError>)
        ensures
            final(self).history() == old(self).history().push((program@, arg_texts(args@))),
            final(self).failing() == old(self).failing(),
            old(self).failing() == Some(program@) ==> (r matches Err(
                DotstrapError::CommandFailed { program: p, status },
            ) && p@ == program@ && status == 1),
            old(self).failing() != Some(program@) ==> r is Ok,
    {
        let name = String::from_str(program);
        let owned = own_args(args);
        self.calls.push((name, owned));
        assert(self.history() =~= old(self).history().push((program@, arg_texts(args@))));
        let fails = match &self.fail_on {
            Some(p) => {
                let q = String::from_str(program);
                *p == q
            },
            None => false,
        };
        if fails {
            Err(DotstrapError::CommandFailed { program: String::from_str(program), status: 1 })
        } else {
            Ok(())
        }
    }
}

} // verus!

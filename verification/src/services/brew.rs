//! Package installation: the Homebrew commands that a package list asks for, logged
//! and, outside a dry run, handed to an executor.

use crate::config::BrewSpec;
use crate::errors::DotstrapError;
use crate::infrastructure::command::{arg_texts, string_texts, CommandExecutor};
use vstd::prelude::*;

verus! {

/// Words put together with one space between neighbours.
pub open spec fn join_words(words: Seq<Seq<char>>) -> Seq<char>
    decreases words.len(),
{
    if words.len() == 0 {
        Seq::empty()
    } else if words.len() == 1 {
        words[0]
    } else {
        join_words(words.drop_last()) + seq![' '] + words.last()
    }
}

/// A command as it is logged: the program, a space, and the arguments separated by spaces.
pub open spec fn command_line(program: Seq<char>, args: Seq<Seq<char>>) -> Seq<char> {
    program + seq![' '] + join_words(args)
}

/// The logged line that taps `tap`.
pub open spec fn tap_line(tap: Seq<char>) -> Seq<char> {
    command_line("brew"@, seq!["tap"@, tap, "--force"@])
}

/// The logged line that installs the formula `formula`.
pub open spec fn formula_line(formula: Seq<char>) -> Seq<char> {
    command_line("brew"@, seq!["install"@, formula])
}

/// The logged line that installs the cask `cask`.
pub open spec fn cask_line(cask: Seq<char>) -> Seq<char> {
    command_line("brew"@, seq!["install"@, "--cask"@, cask])
}

/// The whole log of a package list that asks for something: the update, then one line
/// for each tap, each formula and each cask, in that order.
pub open spec fn plan_lines(
    taps: Seq<Seq<char>>,
    formulae: Seq<Seq<char>>,
    casks: Seq<Seq<char>>,
) -> Seq<Seq<char>> {
    seq![command_line("brew"@, seq!["update"@])] + Seq::new(taps.len(), |i: int| tap_line(taps[i]))
        + Seq::new(formulae.len(), |i: int| formula_line(formulae[i])) + Seq::new(
        casks.len(),
        |i: int| cask_line(casks[i]),
    )
}

/// A package list with no tap, formula or cask asks for nothing.
pub open spec fn spec_is_empty(spec: &BrewSpec) -> bool {
    spec.taps@.len() == 0 && spec.formulae@.len() == 0 && spec.casks@.len() == 0
}

/// Writes a command as it is logged.
pub fn format_command(program: &str, args: &[&str]) -> (line: String)
    ensures
        line@ == command_line(program@, arg_texts(args@)),
{
    let mut words = String::new();
    let mut i: usize = 0;
    while i < args.len()
        invariant
            i <= args.len(),
            words@ == join_words(arg_texts(args@).take(i as int)),
        decreases args.len() - i,
    {
        proof {
            reveal_strlit(" ");
            let next = arg_texts(args@).take(i + 1);
            assert(next.drop_last() =~= arg_texts(args@).take(i as int));
            assert(next.last() == args@[i as int]@);
        }
        if i > 0 {
            words.append(" ");
        }
        words.append(args[i]);
        proof {
            assert(words@ =~= join_words(arg_texts(args@).take(i + 1)));
        }
        i += 1;
    }
    proof {
        reveal_strlit(" ");
        assert(arg_texts(args@).take(args@.len() as int) =~= arg_texts(args@));
    }
    let mut line = String::from_str(program);
    line.append(" ");
    line.append(words.as_str());
    assert(line@ =~= command_line(program@, arg_texts(args@)));
    line
}

/// Logs a command as `shown` and, outside a dry run, hands `args` to the executor.
///
/// The line is logged whatever the executor answers. In a dry run the executor is left
/// alone and the result is `Ok`.
pub fn log_and_run<E: CommandExecutor>(
    executor: &mut E,
    dry_run: bool,
    log: &mut Vec<String>,
    program: &str,
    shown: &[&str],
    args: &[&str],
) -> (r: Result<(), DotstrapError>)
    ensures
        string_texts(final(log)@) == string_texts(old(log)@).push(
            command_line(program@, arg_texts(shown@)),
        ),
        dry_run ==> r is Ok && *final(executor) == *old(executor),
{
    let line = format_command(program, shown);
    log.push(line);
    assert(string_texts(log@) =~= string_texts(old(log)@).push(
        command_line(program@, arg_texts(shown@)),
    ));
    if dry_run {
        return Ok(());
    }
    executor.run(program, args)
}

/// Logs a command and, outside a dry run, hands it to the executor as it is logged.
///
/// The line is logged whatever the executor answers. In a dry run the executor is left
/// alone and the result is `Ok`.
pub fn maybe_run<E: CommandExecutor>(
    executor: &mut E,
    dry_run: bool,
    log: &mut Vec<String>,
    program: &str,
    args: &[&str],
) -> (r: Result<(), DotstrapError>)
    ensures
        string_texts(final(log)@) == string_texts(old(log)@).push(
            command_line(program@, arg_texts(args@)),
        ),
        dry_run ==> r is Ok && *final(executor) == *old(executor),
{
    log_and_run(executor, dry_run, log, program, args, args)
}

/// What the availability probe's answer means: any failure says that Homebrew cannot
/// be run.
pub fn availability(probe: Result<(), DotstrapError>) -> (r: Result<(), DotstrapError>)
    ensures
        probe is Ok ==> r is Ok,
        probe is Err ==> r == Err::<(), DotstrapError>(DotstrapError::BrewUnavailable),
{
    match probe {
        Ok(()) => Ok(()),
        Err(_) => Err(DotstrapError::BrewUnavailable),
    }
}

/// The arguments with which Homebrew is probed.
pub open spec fn spec_probe_args() -> Seq<Seq<char>> {
    seq!["--version"@]
}

/// The arguments handed to Homebrew for the availability probe.
pub fn probe_args() -> (args: Vec<&'static str>)
    ensures
        arg_texts(args@) == spec_probe_args(),
{
    let args: Vec<&'static str> = vec!["--version"];
    assert(arg_texts(args@) =~= spec_probe_args());
    args
}

/// Asks the executor for Homebrew's version to learn whether it can be run.
pub fn ensure_available<E: CommandExecutor>(executor: &mut E) -> (r: Result<(), DotstrapError>)
    ensures
        r is Err ==> r == Err::<(), DotstrapError>(DotstrapError::BrewUnavailable),
{
    let args = probe_args();
    availability(executor.run("brew", args.as_slice()))
}

/// The log after the update and the first `t` taps, `f` formulae and `c` casks.
pub open spec fn plan_prefix(spec: &BrewSpec, t: int, f: int, c: int) -> Seq<Seq<char>> {
    plan_lines(
        string_texts(spec.taps@).take(t),
        string_texts(spec.formulae@).take(f),
        string_texts(spec.casks@).take(c),
    )
}

/// The whole log that a package list asks for.
pub open spec fn full_plan(spec: &BrewSpec) -> Seq<Seq<char>> {
    plan_lines(
        string_texts(spec.taps@),
        string_texts(spec.formulae@),
        string_texts(spec.casks@),
    )
}

/// Installs what the package list asks for and returns the log of commands.
///
/// An empty package list gives an empty log and leaves the executor alone. Otherwise
/// Homebrew is probed first, in a dry run too, and a failed probe ends the run. Then
/// the update and one command for each tap, formula and cask are logged in order and,
/// outside a dry run, handed to the executor; the first failure ends the run. A tap
/// is logged with `--force` and handed to the executor without it.
pub fn install_brew<E: CommandExecutor>(spec: &BrewSpec, executor: &mut E, dry_run: bool) -> (r:
    Result<Vec<String>, DotstrapError>)
    ensures
        spec_is_empty(spec) ==> (r matches Ok(log) && log@.len() == 0) && *final(executor) == *old(
            executor,
        ),
        !spec_is_empty(spec) ==> match r {
            Ok(log) => string_texts(log@) == full_plan(spec),
            Err(e) => dry_run ==> e == DotstrapError::BrewUnavailable,
        },
{
    let mut executed: Vec<String> = Vec::new();
    if spec.taps.len() == 0 && spec.formulae.len() == 0 && spec.casks.len() == 0 {
        return Ok(executed);
    }
    match ensure_available(executor) {
        Ok(()) => {},
        Err(e) => {
            return Err(e);
        },
    }
    let update: Vec<&str> = vec!["update"];
    match maybe_run(executor, dry_run, &mut executed, "brew", update.as_slice()) {
        Ok(()) => {},
        Err(e) => {
            return Err(e);
        },
    }
    proof {
        assert(arg_texts(update@) =~= seq!["update"@]);
        assert(string_texts(executed@) =~= plan_prefix(spec, 0, 0, 0));
    }
    let mut t: usize = 0;
    while t < spec.taps.len()
        invariant
            t <= spec.taps.len(),
            string_texts(executed@) == plan_prefix(spec, t as int, 0, 0),
        decreases spec.taps.len() - t,
    {
        let args: Vec<&str> = vec!["tap", spec.taps[t].as_str(), "--force"];
        let handed: Vec<&str> = vec!["tap", spec.taps[t].as_str()];
        match log_and_run(
            executor,
            dry_run,
            &mut executed,
            "brew",
            args.as_slice(),
            handed.as_slice(),
        ) {
            Ok(()) => {},
            Err(e) => {
                return Err(e);
            },
        }
        proof {
            assert(arg_texts(args@) =~= seq!["tap"@, spec.taps@[t as int]@, "--force"@]);
            assert(string_texts(spec.taps@).take(t + 1) =~= string_texts(spec.taps@).take(
                t as int,
            ).push(spec.taps@[t as int]@));
            assert(string_texts(executed@) =~= plan_prefix(spec, t + 1, 0, 0));
        }
        t += 1;
    }
    let mut f: usize = 0;
    while f < spec.formulae.len()
        invariant
            t == spec.taps.len(),
            f <= spec.formulae.len(),
            string_texts(executed@) == plan_prefix(spec, t as int, f as int, 0),
        decreases spec.formulae.len() - f,
    {
        let args: Vec<&str> = vec!["install", spec.formulae[f].as_str()];
        match maybe_run(executor, dry_run, &mut executed, "brew", args.as_slice()) {
            Ok(()) => {},
            Err(e) => {
                return Err(e);
            },
        }
        proof {
            assert(arg_texts(args@) =~= seq!["install"@, spec.formulae@[f as int]@]);
            assert(string_texts(spec.formulae@).take(f + 1) =~= string_texts(spec.formulae@).take(
                f as int,
            ).push(spec.formulae@[f as int]@));
            assert(string_texts(executed@) =~= plan_prefix(spec, t as int, f + 1, 0));
        }
        f += 1;
    }
    let mut c: usize = 0;
    while c < spec.casks.len()
        invariant
            t == spec.taps.len(),
            f == spec.formulae.len(),
            c <= spec.casks.len(),
            string_texts(executed@) == plan_prefix(spec, t as int, f as int, c as int),
        decreases spec.casks.len() - c,
    {
        let args: Vec<&str> = vec!["install", "--cask", spec.casks[c].as_str()];
        match maybe_run(executor, dry_run, &mut executed, "brew", args.as_slice()) {
            Ok(()) => {},
            Err(e) => {
                return Err(e);
            },
        }
        proof {
            assert(arg_texts(args@) =~= seq!["install"@, "--cask"@, spec.casks@[c as int]@]);
            assert(string_texts(spec.casks@).take(c + 1) =~= string_texts(spec.casks@).take(
                c as int,
            ).push(spec.casks@[c as int]@));
            assert(string_texts(executed@) =~= plan_prefix(spec, t as int, f as int, c + 1));
        }
        c += 1;
    }
    proof {
        assert(string_texts(spec.taps@).take(t as int) =~= string_texts(spec.taps@));
        assert(string_texts(spec.formulae@).take(f as int) =~= string_texts(spec.formulae@));
        assert(string_texts(spec.casks@).take(c as int) =~= string_texts(spec.casks@));
    }
    Ok(executed)
}

} // verus!

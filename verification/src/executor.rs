//! The logic of one command invocation: planning the argv from the
//! configured command line, aggregating the child's exit status and captured
//! output into an [`ExecutionResult`], and deriving the program's own exit
//! code from it. Spawning the child and draining its streams is process
//! work that the embedding binary performs around these functions.

use vstd::prelude::*;

use crate::config::Command;
use crate::text::join_lines;
use crate::text::join_lines_exec;
use crate::text::seq_views;
use crate::text::split_whitespace_tokens;
use crate::text::split_ws;

verus! {

/// The immutable outcome of one command invocation: whether the child
/// exited normally with code 0, how long it ran, its exit code (absent when
/// it was terminated without one, e.g. by a signal), and the captured text
/// of each stream.
#[derive(Debug)]
pub struct ExecutionResult {
    pub success: bool,
    pub duration_ms: u64,
    pub exit_code: Option<i32>,
    pub stdout: String,
    pub stderr: String,
}

/// The mathematical content of an [`ExecutionResult`].
#[verifier::ext_equal]
pub struct ExecutionResultView {
    pub success: bool,
    pub duration_ms: u64,
    pub exit_code: Option<i32>,
    pub stdout: Seq<char>,
    pub stderr: Seq<char>,
}

impl View for ExecutionResult {
    type V = ExecutionResultView;

    open spec fn view(&self) -> ExecutionResultView {
        ExecutionResultView {
            success: self.success,
            duration_ms: self.duration_ms,
            exit_code: self.exit_code,
            stdout: self.stdout@,
            stderr: self.stderr@,
        }
    }
}

impl Clone for ExecutionResult {
    fn clone(&self) -> (r: Self)
        ensures
            r@ == self@,
    {
        let r = ExecutionResult {
            success: self.success,
            duration_ms: self.duration_ms,
            exit_code: self.exit_code,
            stdout: self.stdout.clone(),
            stderr: self.stderr.clone(),
        };
        proof {
            assert(r@ =~= self@);
        }
        r
    }
}

/// A result is well formed when its success flag is the one derived from
/// the exit status: success holds exactly of a normal exit with code 0.
pub open spec fn result_wf(r: ExecutionResultView) -> bool {
    r.success <==> r.exit_code == Some(0i32)
}

/// The argv of one planned invocation: the program and its arguments, in
/// the order they are handed to the operating system.
#[derive(Debug, PartialEq, Eq)]
pub struct Invocation {
    pub program: String,
    pub args: Vec<String>,
}

/// Why an invocation could not be planned.
#[derive(Debug, PartialEq, Eq, Structural)]
pub enum ExecError {
    /// The configured command line holds no token: there is no program to
    /// spawn.
    MalformedCommand,
}

/// Plan the argv of an invocation: tokenize the configured command line on
/// whitespace into the program and its own arguments, then append the
/// caller-supplied extra arguments verbatim, without any re-parsing. Fails
/// exactly when the command line tokenizes to nothing, before any process
/// work is done.
pub fn plan_invocation(cmd: &Command, extra_args: &Vec<String>) -> (r: Result<
    Invocation,
    ExecError,
>)
    ensures
        r is Err <==> split_ws(cmd.command@).len() == 0,
        match r {
            Ok(inv) => {
                &&& inv.program@ == split_ws(cmd.command@)[0]
                &&& seq_views(inv.args@) == split_ws(cmd.command@).drop_first() + seq_views(
                    extra_args@,
                )
            },
            Err(e) => e == ExecError::MalformedCommand,
        },
{
    let mut tokens = split_whitespace_tokens(cmd.command.as_str());
    let ghost all = split_ws(cmd.command@);
    if tokens.len() == 0 {
        proof {
            assert(all.len() == seq_views(tokens@).len());
        }
        return Err(ExecError::MalformedCommand);
    }
    proof {
        assert(all.len() == seq_views(tokens@).len());
        assert(tokens@[0]@ == all[0]);
    }
    let program = tokens.remove(0);
    let mut args = tokens;
    proof {
        assert(seq_views(args@) =~= all.drop_first());
        assert(seq_views(extra_args@).take(0) =~= Seq::<Seq<char>>::empty());
        assert(seq_views(args@) + seq_views(extra_args@).take(0) =~= seq_views(args@));
    }
    let mut i: usize = 0;
    while i < extra_args.len()
        invariant
            i <= extra_args@.len(),
            seq_views(args@) == all.drop_first() + seq_views(extra_args@).take(i as int),
        decreases extra_args@.len() - i,
    {
        let ghost args0 = args@;
        let nx = extra_args[i].clone();
        proof {
            crate::text::lemma_seq_views_push(args0, nx);
        }
        args.push(nx);
        proof {
            assert(seq_views(args@) == seq_views(args0).push(extra_args@[i as int]@));
            assert(seq_views(args@) =~~= all.drop_first() + seq_views(extra_args@).take(
                i as int + 1,
            ));
        }
        i += 1;
    }
    proof {
        assert(seq_views(extra_args@).take(extra_args@.len() as int) =~= seq_views(extra_args@));
    }
    Ok(Invocation { program, args })
}

/// Re-insert a literal `--` separator in front of the trailing arguments
/// when the original invocation carried one and trailing arguments exist,
/// so the child's own argument parser still sees the separator; otherwise
/// hand the arguments back unchanged.
pub fn restore_arg_separator(args: &Vec<String>, had_separator: bool) -> (r: Vec<String>)
    ensures
        seq_views(r@) == if had_separator && args@.len() > 0 {
            seq![("--")@] + seq_views(args@)
        } else {
            seq_views(args@)
        },
{
    let mut r: Vec<String> = Vec::new();
    if had_separator && args.len() > 0 {
        r.push("--".to_owned());
    }
    let ghost lead = r@;
    let mut i: usize = 0;
    proof {
        assert(seq_views(args@).take(0) =~= Seq::<Seq<char>>::empty());
        assert(seq_views(r@) =~= seq_views(lead) + seq_views(args@).take(0));
    }
    while i < args.len()
        invariant
            i <= args@.len(),
            seq_views(r@) == seq_views(lead) + seq_views(args@).take(i as int),
        decreases args@.len() - i,
    {
        let ghost r0 = r@;
        let nx = args[i].clone();
        proof {
            crate::text::lemma_seq_views_push(r0, nx);
        }
        r.push(nx);
        proof {
            assert(seq_views(r@) == seq_views(r0).push(args@[i as int]@));
            assert(seq_views(r@) =~~= seq_views(lead) + seq_views(args@).take(i as int + 1));
        }
        i += 1;
    }
    proof {
        assert(seq_views(args@).take(args@.len() as int) =~= seq_views(args@));
        if had_separator && args@.len() > 0 {
            assert(seq_views(lead) =~= seq![("--")@]);
            assert(seq_views(r@) =~= seq![("--")@] + seq_views(args@));
        } else {
            assert(seq_views(lead) =~= Seq::<Seq<char>>::empty());
            assert(seq_views(r@) =~= seq_views(args@));
        }
    }
    r
}

/// Build the immutable result of one invocation. The success flag is
/// derived from the exit status: it holds exactly of a normal exit with
/// code 0. Each stream's captured text is the newline-join of its captured
/// lines when the stream was enabled, and empty when the stream was
/// disabled, whatever was captured.
pub fn aggregate_result(
    stdout_enabled: bool,
    stderr_enabled: bool,
    exit_code: Option<i32>,
    duration_ms: u64,
    stdout_lines: &Vec<String>,
    stderr_lines: &Vec<String>,
) -> (r: ExecutionResult)
    ensures
        r.success == (exit_code == Some(0i32)),
        r.exit_code == exit_code,
        r.duration_ms == duration_ms,
        r.stdout@ == if stdout_enabled {
            join_lines(seq_views(stdout_lines@))
        } else {
            Seq::<char>::empty()
        },
        r.stderr@ == if stderr_enabled {
            join_lines(seq_views(stderr_lines@))
        } else {
            Seq::<char>::empty()
        },
        result_wf(r@),
{
    let success = match exit_code {
        Some(c) => c == 0,
        None => false,
    };
    let stdout = if stdout_enabled {
        join_lines_exec(stdout_lines)
    } else {
        String::new()
    };
    let stderr = if stderr_enabled {
        join_lines_exec(stderr_lines)
    } else {
        String::new()
    };
    ExecutionResult { success, duration_ms, exit_code, stdout, stderr }
}

/// The process exit code the program ends with, given the child's result:
/// the child's own exit code, or 1 when the child was terminated without
/// one. Nothing besides the child's result enters this value.
pub open spec fn program_exit_code(r: ExecutionResultView) -> int {
    if r.success {
        0
    } else {
        match r.exit_code {
            Some(c) => c as int,
            None => 1,
        }
    }
}

/// Compute the exit code the program must end with.
pub fn final_exit_code(r: &ExecutionResult) -> (code: i32)
    ensures
        code as int == program_exit_code(r@),
{
    if r.success {
        0
    } else {
        match r.exit_code {
            Some(c) => c,
            None => 1,
        }
    }
}

} // verus!

//! The decisions of the launcher around its child: the command line it
//! starts, and how the child's end becomes the launcher's own.
use vstd::prelude::*;

verus! {

/// How the launcher ends once its child has ended.
#[derive(Debug, Clone, Copy, PartialEq, Eq, Structural)]
pub enum ExitAction {
    /// Raise `signal` against the launcher itself; should that not end the
    /// process, exit with `fallback_code`.
    RaiseSignal { signal: i32, fallback_code: i32 },
    /// Exit with this code.
    Exit(i32),
}

/// The code the launcher exits with when it has no better one.
pub const FALLBACK_EXIT_CODE: i32 = 1;

/// What the launcher does after its child ended, by the signal that killed
/// the child (if any) and the child's exit code (if any).
pub fn exit_action(signal: Option<i32>, code: Option<i32>) -> (r: ExitAction)
    ensures
        signal matches Some(s) ==> r == (ExitAction::RaiseSignal {
            signal: s,
            fallback_code: FALLBACK_EXIT_CODE,
        }),
        signal is None && code is Some ==> r == ExitAction::Exit(code->0),
        signal is None && code is None ==> r == ExitAction::Exit(FALLBACK_EXIT_CODE),
{
    match signal {
        Some(s) => ExitAction::RaiseSignal { signal: s, fallback_code: FALLBACK_EXIT_CODE },
        None => match code {
            Some(c) => ExitAction::Exit(c),
            None => ExitAction::Exit(FALLBACK_EXIT_CODE),
        },
    }
}

/// The texts of a list of strings.
pub open spec fn texts(v: Seq<String>) -> Seq<Seq<char>> {
    v.map_values(|s: String| s@)
}

/// The arguments of the server child: the execve wrapper and the Bash build,
/// each after its flag, then the launcher's own arguments unchanged.
pub fn child_args(execve_wrapper: &str, bash_path: &str, passthrough: Vec<String>) -> (r: Vec<String>)
    ensures
        texts(r@) == seq!["--execve"@, execve_wrapper@, "--bash"@, bash_path@] + texts(passthrough@),
{
    let mut r: Vec<String> = Vec::new();
    r.push(String::from_str("--execve"));
    r.push(String::from_str(execve_wrapper));
    r.push(String::from_str("--bash"));
    r.push(String::from_str(bash_path));
    let ghost head = texts(r@);
    assert(head =~= seq!["--execve"@, execve_wrapper@, "--bash"@, bash_path@]);
    let mut i: usize = 0;
    while i < passthrough.len()
        invariant
            i <= passthrough@.len(),
            head == seq!["--execve"@, execve_wrapper@, "--bash"@, bash_path@],
            texts(r@) == head + texts(passthrough@.take(i as int)),
        decreases passthrough@.len() - i,
    {
        let ghost before = texts(r@);
        r.push(passthrough[i].clone());
        assert(texts(r@) =~= before + seq![passthrough@[i as int]@]);
        assert(texts(passthrough@.take(i as int + 1)) =~= texts(passthrough@.take(i as int)) + seq![
            passthrough@[i as int]@,
        ]);
        i = i + 1;
    }
    assert(passthrough@.take(passthrough@.len() as int) =~= passthrough@);
    r
}

} // verus!

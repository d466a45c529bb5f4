//! Launch strategy: plans the replacement launch, either directly
//! from the executable or routed through the sandbox runtime as one
//! shell command.  Every argument of the composite shell string is
//! single-quoted, so arguments holding whitespace or shell
//! metacharacters survive the shell intact.

use vstd::prelude::*;
use crate::gpu::pair_views;
use crate::locator::{clone_args, seq_views, LunarProcess};
use crate::text::{
    ci_contains, ci_contains_substr, find_newline_from, has_second_token, is_second_token,
    line_at, second_token,
};

verus! {

/// Why planning or performing a relaunch failed.
#[derive(Clone, Copy, Debug, PartialEq, Eq, Structural)]
pub enum LaunchError {
    SandboxAppNotFound,
    SandboxQueryFailed,
    SpawnFailed,
}

/// A planned child process: the program to spawn, its argument
/// vector, its working directory if one is set, and the environment
/// overrides merged into its environment.  Both output streams of
/// the spawned child are piped to the output relay.
pub struct LaunchPlan {
    pub program: String,
    pub args: Vec<String>,
    pub cwd: Option<String>,
    pub env: Vec<(String, String)>,
}

/// How one character is written inside a single-quoted shell word.
pub open spec fn quote_char(c: char) -> Seq<char> {
    if c == '\'' {
        seq!['\'', '\\', '\'', '\'']
    } else {
        seq![c]
    }
}

/// The body of a single-quoted shell word.
pub open spec fn quote_body(a: Seq<char>) -> Seq<char>
    decreases a.len(),
{
    if a.len() == 0 {
        Seq::empty()
    } else {
        quote_body(a.drop_last()) + quote_char(a.last())
    }
}

/// One argument as a single-quoted shell word.
pub open spec fn quoted_spec(a: Seq<char>) -> Seq<char> {
    seq!['\''] + quote_body(a) + seq!['\'']
}

/// Wraps an argument in single quotes, escaping embedded quotes, so
/// the shell reads it back as exactly one word.
pub fn shell_quote(arg: &str) -> (r: String)
    ensures
        r@ == quoted_spec(arg@),
{
    let len: usize = arg.unicode_len();
    let mut out = "'".to_owned();
    proof {
        reveal_strlit("'");
        assert(out@ =~= seq!['\''] + quote_body(arg@.take(0)));
    }
    let mut i: usize = 0;
    while i < len
        invariant
            i <= len,
            len == arg@.len(),
            out@ == seq!['\''] + quote_body(arg@.take(i as int)),
        decreases len - i,
    {
        let c = arg.get_char(i);
        proof {
            assert(arg@.take(i + 1).drop_last() =~= arg@.take(i as int));
            assert(arg@.take(i + 1).last() == arg@[i as int]);
        }
        if c == '\'' {
            out.append("'\\''");
            proof {
                reveal_strlit("'\\''");
                assert("'\\''"@ =~= quote_char(c));
                assert(out@ =~= seq!['\''] + quote_body(arg@.take(i + 1)));
            }
        } else {
            let piece = arg.substring_char(i, i + 1);
            out.append(piece);
            proof {
                assert(piece@ =~= quote_char(c));
                assert(out@ =~= seq!['\''] + quote_body(arg@.take(i + 1)));
            }
        }
        i = i + 1;
    }
    out.append("'");
    proof {
        reveal_strlit("'");
        assert(arg@.take(len as int) =~= arg@);
        assert(out@ =~= quoted_spec(arg@));
    }
    out
}

/// The quoted-argument tail of the composite command: one leading
/// space and one quoted word per argument.
pub open spec fn args_tail_spec(args: Seq<Seq<char>>) -> Seq<char>
    decreases args.len(),
{
    if args.len() == 0 {
        Seq::empty()
    } else {
        args_tail_spec(args.drop_last()) + " "@ + quoted_spec(args.last())
    }
}

/// The composite sandbox command: change into the home directory,
/// then run the executable with the rewritten arguments, each quoted.
pub open spec fn command_spec(home: Seq<char>, exe: Seq<char>, args: Seq<Seq<char>>) -> Seq<char> {
    "cd "@ + quoted_spec(home) + " && "@ + quoted_spec(exe) + args_tail_spec(args)
}

/// Joins home directory, executable and arguments into the composite
/// shell command.
pub fn join_command(home: &str, exe: &str, args: &Vec<String>) -> (r: String)
    ensures
        r@ == command_spec(home@, exe@, seq_views(args@)),
{
    let mut out = "cd ".to_owned();
    let qh = shell_quote(home);
    out.append(qh.as_str());
    out.append(" && ");
    let qe = shell_quote(exe);
    out.append(qe.as_str());
    proof {
        assert(seq_views(args@).take(0) =~= Seq::<Seq<char>>::empty());
        assert(out@ =~= "cd "@ + quoted_spec(home@) + " && "@ + quoted_spec(exe@)
            + args_tail_spec(seq_views(args@).take(0)));
    }
    let mut i: usize = 0;
    while i < args.len()
        invariant
            i <= args.len(),
            out@ == "cd "@ + quoted_spec(home@) + " && "@ + quoted_spec(exe@) + args_tail_spec(
                seq_views(args@).take(i as int),
            ),
        decreases args.len() - i,
    {
        out.append(" ");
        let q = shell_quote(args[i].as_str());
        out.append(q.as_str());
        proof {
            let av = seq_views(args@);
            assert(av.take(i + 1).drop_last() =~= av.take(i as int));
            assert(av.take(i + 1).last() == av[i as int]);
            assert(out@ =~= "cd "@ + quoted_spec(home@) + " && "@ + quoted_spec(exe@)
                + args_tail_spec(av.take(i + 1)));
        }
        i = i + 1;
    }
    proof {
        assert(seq_views(args@).take(args@.len() as int) =~= seq_views(args@));
    }
    out
}

/// The case-folded name marker that picks the client's entry out of
/// the sandbox application listing.
pub open spec fn sandbox_name_marker() -> Seq<char> {
    "lunar"@
}

/// `[a, b)` spans a listing line whose text holds the name marker
/// under ASCII case folding.
pub open spec fn lunar_line_at(s: Seq<char>, a: int, b: int) -> bool {
    line_at(s, a, b) && ci_contains(s.subrange(a, b), sandbox_name_marker())
}

/// The listing yields no application identifier: either no line
/// holds the name marker, or the first such line has no second
/// whitespace-separated token.
pub open spec fn no_app_id(s: Seq<char>) -> bool {
    (forall|a: int, b: int| !lunar_line_at(s, a, b)) || (exists|a: int, b: int|
        lunar_line_at(s, a, b) && (forall|a2: int, b2: int|
            lunar_line_at(s, a2, b2) ==> a <= a2) && !has_second_token(s.subrange(a, b)))
}

/// Two line ends over the same start coincide.
proof fn lemma_line_end_unique(s: Seq<char>, a: int, b1: int, b2: int)
    requires
        0 <= a <= b1 <= s.len(),
        0 <= a <= b2 <= s.len(),
        b1 == s.len() || s[b1] == '\n',
        b2 == s.len() || s[b2] == '\n',
        forall|k: int| a <= k < b1 ==> s[k] != '\n',
        forall|k: int| a <= k < b2 ==> s[k] != '\n',
    ensures
        b1 == b2,
{
    if b1 < b2 {
        assert(s[b1] != '\n');
    }
    if b2 < b1 {
        assert(s[b2] != '\n');
    }
}

/// The application identifier of the client's sandbox entry: the
/// second whitespace-separated token of the first listing line whose
/// name holds the marker, case-insensitively.
pub fn find_sandbox_app_id(listing: &str) -> (r: Option<String>)
    ensures
        match r {
            Some(id) => exists|a: int, b: int|
                lunar_line_at(listing@, a, b) && (forall|a2: int, b2: int|
                    lunar_line_at(listing@, a2, b2) ==> a <= a2) && is_second_token(
                    listing@.subrange(a, b),
                    id@,
                ),
            None => no_app_id(listing@),
        },
{
    let len: usize = listing.unicode_len();
    let mut pos: usize = 0;
    loop
        invariant
            pos <= len,
            len == listing@.len(),
            pos == 0 || listing@[pos - 1] == '\n',
            forall|a: int, b: int| lunar_line_at(listing@, a, b) ==> a >= pos,
        ensures
            forall|a: int, b: int| !lunar_line_at(listing@, a, b),
        decreases len - pos,
    {
        let end = find_newline_from(listing, pos);
        let line = listing.substring_char(pos, end);
        let hit = ci_contains_substr(line, "lunar");
        if hit {
            proof {
                assert(lunar_line_at(listing@, pos as int, end as int));
            }
            let tok = second_token(line);
            match tok {
                Some(id) => {
                    proof {
                        assert(lunar_line_at(listing@, pos as int, end as int) && (forall|
                            a2: int,
                            b2: int,
                        |
                            lunar_line_at(listing@, a2, b2) ==> pos as int <= a2)
                            && is_second_token(
                            listing@.subrange(pos as int, end as int),
                            id@,
                        ));
                    }
                    return Some(id);
                },
                None => {
                    proof {
                        assert(lunar_line_at(listing@, pos as int, end as int) && (forall|
                            a2: int,
                            b2: int,
                        |
                            lunar_line_at(listing@, a2, b2) ==> pos as int <= a2)
                            && !has_second_token(listing@.subrange(pos as int, end as int)));
                    }
                    return None;
                },
            }
        }
        proof {
            assert forall|a: int, b: int| lunar_line_at(listing@, a, b) implies a >= end + 1 by {
                if lunar_line_at(listing@, a, b) {
                    assert(a >= pos);
                    if a == pos {
                        lemma_line_end_unique(listing@, pos as int, b, end as int);
                        assert(!ci_contains(
                            listing@.subrange(pos as int, end as int),
                            sandbox_name_marker(),
                        ));
                    } else if a <= end {
                        assert(listing@[a - 1] != '\n');
                    }
                }
            }
        }
        if end >= len {
            proof {
                assert forall|a: int, b: int| !lunar_line_at(listing@, a, b) by {
                    if lunar_line_at(listing@, a, b) {
                        assert(a >= end + 1);
                        assert(a <= listing@.len());
                    }
                }
            }
            break ;
        }
        pos = end + 1;
    }
    None
}

/// Plans the direct relaunch: the executable itself, the rewritten
/// arguments, the home directory as working directory, and the GPU
/// overrides merged into the child's environment.
pub fn plan_direct_launch(p: &LunarProcess, gpu_env: Vec<(String, String)>) -> (r: LaunchPlan)
    ensures
        r.program@ == p.exe@,
        seq_views(r.args@) == seq_views(p.launch_cmd_modified@),
        r.cwd matches Some(c) && c@ == p.home_path@,
        r.env == gpu_env,
{
    LaunchPlan {
        program: p.exe.clone(),
        args: clone_args(&p.launch_cmd_modified),
        cwd: Some(p.home_path.clone()),
        env: gpu_env,
    }
}

/// Plans the sandboxed relaunch from the sandbox runtime's
/// application listing: picks the client's application identifier
/// and routes the composite command through the sandbox runner as
/// one shell string; fails when the listing names no such
/// application.
pub fn launch_flatpak(p: &LunarProcess, listing: &str) -> (r: Result<LaunchPlan, LaunchError>)
    ensures
        match r {
            Ok(plan) => plan.program@ == "flatpak"@ && plan.args@.len() == 5 && seq_views(
                plan.args@,
            )[0] == "run"@ && seq_views(plan.args@)[1] == "--command=sh"@ && seq_views(
                plan.args@,
            )[3] == "-c"@ && seq_views(plan.args@)[4] == command_spec(
                p.home_path@,
                p.exe@,
                seq_views(p.launch_cmd_modified@),
            ) && (exists|a: int, b: int|
                lunar_line_at(listing@, a, b) && (forall|a2: int, b2: int|
                    lunar_line_at(listing@, a2, b2) ==> a <= a2) && is_second_token(
                    listing@.subrange(a, b),
                    seq_views(plan.args@)[2],
                )) && plan.cwd is None && plan.env@.len() == 0,
            Err(e) => e == LaunchError::SandboxAppNotFound && no_app_id(listing@),
        },
{
    match find_sandbox_app_id(listing) {
        Some(app_id) => {
            let ghost id_view = app_id@;
            let cmd = join_command(
                p.home_path.as_str(),
                p.exe.as_str(),
                &p.launch_cmd_modified,
            );
            let mut args: Vec<String> = Vec::new();
            args.push("run".to_owned());
            args.push("--command=sh".to_owned());
            args.push(app_id);
            args.push("-c".to_owned());
            args.push(cmd);
            proof {
                assert(seq_views(args@)[2] == id_view);
            }
            Ok(
                LaunchPlan {
                    program: "flatpak".to_owned(),
                    args,
                    cwd: None,
                    env: Vec::new(),
                },
            )
        },
        None => Err(LaunchError::SandboxAppNotFound),
    }
}

} // verus!

//! Process locator: finds the running client among an OS process
//! snapshot, rewrites its launch arguments, derives its home
//! directory and sandbox status.

use vstd::prelude::*;
use crate::text::{
    contains_seq, contains_substr, find_substr, match_at, prefix_of, starts_with_str,
};

verus! {

/// The executable-path segment that marks the managed runtime binary.
pub open spec fn runtime_marker() -> Seq<char> {
    "bin/java"@
}

/// The executable-path segment that marks the client installation.
pub open spec fn install_marker() -> Seq<char> {
    ".lunarclient"@
}

/// The deprecated flag dropped from the argument vector; every
/// argument that starts with this name is removed.
pub open spec fn filter_flag() -> Seq<char> {
    "-Dichor.filteredGenesisSentries"@
}

/// The two fixed subdirectory segments under the installation root.
pub open spec fn home_suffix() -> Seq<char> {
    "/offline/multiver"@
}

/// The agent-injection argument for a given loader path.
pub open spec fn agent_flag_spec(weave: Seq<char>) -> Seq<char> {
    "-javaagent:"@ + weave
}

/// The views of a sequence of strings.
pub open spec fn seq_views(v: Seq<String>) -> Seq<Seq<char>> {
    v.map_values(|s: String| s@)
}

/// One process of the OS snapshot, as plain values: its identifier,
/// its resolved executable path if one could be read, and its
/// command-line argument vector.
pub struct ProcessEntry {
    pub pid: u32,
    pub exe: Option<String>,
    pub cmd: Vec<String>,
}

/// The located client instance: a snapshot, recomputed on every poll.
pub struct LunarProcess {
    pub pid: u32,
    pub exe: String,
    pub launch_cmd_modified: Vec<String>,
    pub weave_installed: bool,
    pub flatpak: bool,
    pub home_path: String,
}

/// An executable path names the target when it holds both the runtime
/// marker and the installation marker.
pub open spec fn is_target_exe(exe: Seq<char>) -> bool {
    contains_seq(exe, runtime_marker()) && contains_seq(exe, install_marker())
}

/// A snapshot entry is the target when its path resolved and names
/// the target.
pub open spec fn entry_is_target(e: ProcessEntry) -> bool {
    e.exe matches Some(s) && is_target_exe(s@)
}

/// An argument survives the rewrite when it does not start with the
/// deprecated flag.
pub open spec fn keeps_arg(a: Seq<char>) -> bool {
    !prefix_of(a, filter_flag())
}

/// The arguments kept from the original vector once its first entry
/// (the executable path) is dropped.
pub open spec fn kept_args(cmd: Seq<Seq<char>>) -> Seq<Seq<char>> {
    let rest = if cmd.len() == 0 {
        cmd
    } else {
        cmd.drop_first()
    };
    rest.filter(|a: Seq<char>| keeps_arg(a))
}

/// The rewritten argument vector: the kept arguments with the agent
/// flag inserted at index 1, or alone when nothing was kept.
pub open spec fn rewrite_spec(cmd: Seq<Seq<char>>, weave: Seq<char>) -> Seq<Seq<char>> {
    let kept = kept_args(cmd);
    if kept.len() >= 1 {
        kept.subrange(0, 1) + seq![agent_flag_spec(weave)] + kept.subrange(1, kept.len() as int)
    } else {
        seq![agent_flag_spec(weave)]
    }
}

/// The index of the first occurrence of `n` in `h`; meaningful only
/// when `contains_seq(h, n)` holds.
pub open spec fn first_index_of_seq(h: Seq<char>, n: Seq<char>) -> int {
    choose|i: int| match_at(h, n, i) && (forall|j: int| 0 <= j < i ==> !match_at(h, n, j))
}

/// The derived home directory: the executable path up to and
/// including the first installation marker, then the two fixed
/// subdirectories.
pub open spec fn home_path_spec(exe: Seq<char>) -> Seq<char> {
    exe.subrange(0, first_index_of_seq(exe, install_marker()) + install_marker().len() as int)
        + home_suffix()
}

/// Law: an argument vector that holds the deprecated flag exactly
/// once — at index `k` and nowhere else — is rewritten to a vector in
/// which no entry starts with the flag's name.
pub proof fn lemma_rewrite_drops_filtered_flag(cmd: Seq<Seq<char>>, weave: Seq<char>, k: int)
    requires
        0 <= k < cmd.len(),
        !keeps_arg(cmd[k]),
        forall|j: int| 0 <= j < cmd.len() && j != k ==> keeps_arg(#[trigger] cmd[j]),
    ensures
        forall|i: int|
            0 <= i < rewrite_spec(cmd, weave).len() ==> keeps_arg(
                #[trigger] rewrite_spec(cmd, weave)[i],
            ),
{
    broadcast use vstd::seq_lib::group_filter_ensures;

    assert(keeps_arg(agent_flag_spec(weave))) by {
        reveal_strlit("-javaagent:");
        reveal_strlit("-Dichor.filteredGenesisSentries");
        if prefix_of(agent_flag_spec(weave), filter_flag()) {
            assert(agent_flag_spec(weave).subrange(0, filter_flag().len() as int)[1]
                == filter_flag()[1]);
            assert(agent_flag_spec(weave)[1] == filter_flag()[1]);
        }
    }
    let kept = kept_args(cmd);
    let out = rewrite_spec(cmd, weave);
    let pred = |a: Seq<char>| keeps_arg(a);
    assert forall|i: int| 0 <= i < out.len() implies keeps_arg(out[i]) by {
        if kept.len() >= 1 {
            if i == 0 {
                assert(out[0] == kept[0]);
                assert(pred(kept[0]));
            } else if i == 1 {
                assert(out[1] == agent_flag_spec(weave));
            } else {
                assert(out[i] == kept[i - 1]);
                assert(pred(kept[i - 1]));
            }
        } else {
            assert(out[i] == agent_flag_spec(weave));
        }
    }
}

/// Every element of a filtered sequence stands somewhere in the
/// sequence it was filtered from.
proof fn lemma_filter_element_source<A>(s: Seq<A>, pred: spec_fn(A) -> bool, i: int)
    requires
        0 <= i < s.filter(pred).len(),
    ensures
        exists|j: int| 0 <= j < s.len() && s[j] == #[trigger] s.filter(pred)[i],
    decreases s.len(),
{
    reveal(Seq::filter);
    if s.len() > 0 {
        let sub = s.drop_last().filter(pred);
        if i < sub.len() {
            lemma_filter_element_source(s.drop_last(), pred, i);
            let j = choose|j: int| 0 <= j < s.drop_last().len() && s.drop_last()[j] == sub[i];
            assert(s[j] == s.filter(pred)[i]);
        } else {
            assert(s[s.len() - 1] == s.filter(pred)[i]);
        }
    }
}

/// Law: when no entry of the original vector equals the agent flag,
/// the rewritten vector holds the agent flag exactly once — at index
/// 1 when an argument survived, else at index 0.
pub proof fn lemma_rewrite_agent_exactly_once(cmd: Seq<Seq<char>>, weave: Seq<char>)
    requires
        forall|j: int| 0 <= j < cmd.len() ==> #[trigger] cmd[j] != agent_flag_spec(weave),
    ensures
        ({
            let out = rewrite_spec(cmd, weave);
            let at = if kept_args(cmd).len() >= 1 {
                1int
            } else {
                0int
            };
            out[at] == agent_flag_spec(weave) && (forall|i: int|
                0 <= i < out.len() && i != at ==> #[trigger] out[i] != agent_flag_spec(weave))
        }),
{
    let out = rewrite_spec(cmd, weave);
    let kept = kept_args(cmd);
    let agent = agent_flag_spec(weave);
    let pred = |a: Seq<char>| keeps_arg(a);
    if kept.len() >= 1 {
        let rest = cmd.drop_first();
        assert(out[1] == seq![agent][0]);
        assert forall|i: int| 0 <= i < out.len() && i != 1 implies out[i] != agent by {
            let k = if i == 0 {
                0int
            } else {
                i - 1
            };
            assert(out[i] == kept[k]);
            lemma_filter_element_source(rest, pred, k);
            let j = choose|j: int| 0 <= j < rest.len() && rest[j] == kept[k];
            assert(rest[j] == cmd[j + 1]);
        }
    } else {
        assert(out[0] == seq![agent][0]);
    }
}

/// Law: whenever at least one argument survives once the executable
/// entry is dropped and the deprecated flag filtered out, the
/// rewritten vector holds the agent-injection argument at index 1.
pub proof fn lemma_agent_at_index_one(cmd: Seq<Seq<char>>, weave: Seq<char>)
    requires
        kept_args(cmd).len() >= 1,
    ensures
        rewrite_spec(cmd, weave).len() >= 2,
        rewrite_spec(cmd, weave)[1] == agent_flag_spec(weave),
{
    let kept = kept_args(cmd);
    assert(rewrite_spec(cmd, weave)[1] == seq![agent_flag_spec(weave)][0]);
}

/// Builds the agent-injection argument for a loader path.
pub fn agent_flag(weave_path: &str) -> (r: String)
    ensures
        r@ == agent_flag_spec(weave_path@),
{
    let head = "-javaagent:".to_owned();
    head.concat(weave_path)
}

/// Rewrites an original argument vector: drops its first entry, drops
/// every entry that starts with the deprecated flag, and inserts the
/// agent flag at index 1 of what remains (at index 0 when nothing
/// remains).
pub fn rewrite_launch_args(cmd: &Vec<String>, weave_path: &str) -> (r: Vec<String>)
    ensures
        seq_views(r@) == rewrite_spec(seq_views(cmd@), weave_path@),
{
    let ghost cs = seq_views(cmd@);
    let agent = agent_flag(weave_path);
    let mut out: Vec<String> = Vec::new();
    let mut idx: usize = 1;
    proof {
        if cs.len() == 0 {
            assert(cs.filter(|a: Seq<char>| keeps_arg(a)) =~= cs) by {
                reveal(Seq::filter);
            }
        } else {
            assert(cs.drop_first().subrange(0, 0) =~= Seq::<Seq<char>>::empty());
            assert(Seq::<Seq<char>>::empty().filter(|a: Seq<char>| keeps_arg(a))
                =~= Seq::<Seq<char>>::empty()) by {
                reveal(Seq::filter);
            }
        }
        assert(seq_views(out@) =~= Seq::<Seq<char>>::empty());
    }
    while idx < cmd.len()
        invariant
            1 <= idx <= cmd.len() || (cmd.len() == 0 && idx == 1),
            cs == seq_views(cmd@),
            cmd.len() >= 1 ==> seq_views(out@) == cs.drop_first().subrange(
                0,
                idx - 1,
            ).filter(|a: Seq<char>| keeps_arg(a)),
            cmd.len() == 0 ==> seq_views(out@) == Seq::<Seq<char>>::empty(),
        decreases cmd.len() - idx,
    {
        let arg = &cmd[idx];
        let keep = !starts_with_str(arg.as_str(), "-Dichor.filteredGenesisSentries");
        proof {
            let rest = cs.drop_first();
            let pred = |a: Seq<char>| keeps_arg(a);
            assert(rest.subrange(0, idx as int) =~= rest.subrange(0, idx - 1).push(
                rest[idx - 1],
            ));
            assert(rest.subrange(0, idx - 1).push(rest[idx - 1]).drop_last() =~= rest.subrange(
                0,
                idx - 1,
            ));
            assert(rest.subrange(0, idx as int).filter(pred) == if pred(rest[idx - 1]) {
                rest.subrange(0, idx - 1).filter(pred).push(rest[idx - 1])
            } else {
                rest.subrange(0, idx - 1).filter(pred)
            }) by {
                reveal(Seq::filter);
            }
            assert(rest[idx - 1] == arg@);
        }
        if keep {
            let ghost before = out@;
            out.push(arg.clone());
            proof {
                assert(seq_views(out@) =~= seq_views(before).push(arg@));
            }
        }
        idx = idx + 1;
    }
    proof {
        if cmd.len() >= 1 {
            assert(cs.drop_first().subrange(0, cs.len() - 1) =~= cs.drop_first());
        }
        assert(seq_views(out@) == kept_args(cs));
    }
    if out.len() >= 1 {
        out.insert(1, agent);
        proof {
            let kept = kept_args(cs);
            assert(seq_views(out@) =~= kept.subrange(0, 1) + seq![agent_flag_spec(weave_path@)]
                + kept.subrange(1, kept.len() as int));
        }
    } else {
        out.push(agent);
        proof {
            assert(seq_views(out@) =~= seq![agent_flag_spec(weave_path@)]);
        }
    }
    out
}

/// A copy of an argument vector, entry by entry.
pub fn clone_args(v: &Vec<String>) -> (r: Vec<String>)
    ensures
        seq_views(r@) == seq_views(v@),
{
    let mut out: Vec<String> = Vec::new();
    let mut i: usize = 0;
    while i < v.len()
        invariant
            i <= v.len(),
            seq_views(out@) == seq_views(v@).subrange(0, i as int),
        decreases v.len() - i,
    {
        let ghost before = out@;
        out.push(v[i].clone());
        proof {
            assert(seq_views(out@) =~= seq_views(before).push(v@[i as int]@));
            assert(seq_views(v@).subrange(0, i + 1) =~= seq_views(v@).subrange(0, i as int).push(
                v@[i as int]@,
            ));
        }
        i = i + 1;
    }
    proof {
        assert(seq_views(v@).subrange(0, v@.len() as int) =~= seq_views(v@));
    }
    out
}

/// Whether the original argument vector already holds the exact agent
/// flag for this loader path.
pub fn agent_already_installed(cmd: &Vec<String>, weave_path: &str) -> (r: bool)
    ensures
        r == seq_views(cmd@).contains(agent_flag_spec(weave_path@)),
{
    let agent = agent_flag(weave_path);
    let mut i: usize = 0;
    while i < cmd.len()
        invariant
            i <= cmd.len(),
            forall|k: int| 0 <= k < i ==> seq_views(cmd@)[k] != agent_flag_spec(weave_path@),
            agent@ == agent_flag_spec(weave_path@),
        decreases cmd.len() - i,
    {
        if cmd[i].eq(&agent) {
            assert(seq_views(cmd@)[i as int] == agent_flag_spec(weave_path@));
            return true;
        }
        i = i + 1;
    }
    assert(forall|k: int|
        0 <= k < seq_views(cmd@).len() ==> seq_views(cmd@)[k] != agent_flag_spec(weave_path@));
    false
}

/// Derives the home directory from an executable path; `None` exactly
/// when the path holds no installation marker.
pub fn derive_home_path(exe: &str) -> (r: Option<String>)
    ensures
        match r {
            Some(h) => contains_seq(exe@, install_marker()) && h@ == home_path_spec(exe@),
            None => !contains_seq(exe@, install_marker()),
        },
{
    let marker = ".lunarclient";
    proof {
        reveal_strlit(".lunarclient");
    }
    match find_substr(exe, marker) {
        Some(i) => {
            proof {
                assert(first_index_of_seq(exe@, install_marker()) == i) by {
                    assert(match_at(exe@, install_marker(), i as int) && (forall|j: int|
                        0 <= j < i ==> !match_at(exe@, install_marker(), j)));
                    let c = first_index_of_seq(exe@, install_marker());
                    assert(match_at(exe@, install_marker(), c) && (forall|j: int|
                        0 <= j < c ==> !match_at(exe@, install_marker(), j)));
                    if c < i {
                        assert(!match_at(exe@, install_marker(), c));
                    }
                    if i < c {
                        assert(!match_at(exe@, install_marker(), i as int));
                    }
                }
            }
            let prefix = exe.substring_char(0, i + 12);
            let home = prefix.to_owned().concat("/offline/multiver");
            Some(home)
        },
        None => None,
    }
}

/// Index of the first snapshot entry that is the target, if any.
pub fn find_target(entries: &Vec<ProcessEntry>) -> (r: Option<usize>)
    ensures
        match r {
            Some(ix) => ix < entries@.len() && entry_is_target(entries@[ix as int]) && forall|
                j: int,
            | 0 <= j < ix ==> !entry_is_target(entries@[j]),
            None => forall|j: int| 0 <= j < entries@.len() ==> !entry_is_target(entries@[j]),
        },
{
    let mut i: usize = 0;
    while i < entries.len()
        invariant
            i <= entries.len(),
            forall|j: int| 0 <= j < i ==> !entry_is_target(entries@[j]),
        decreases entries.len() - i,
    {
        let e = &entries[i];
        match &e.exe {
            Some(path) => {
                if contains_substr(path.as_str(), "bin/java") && contains_substr(
                    path.as_str(),
                    ".lunarclient",
                ) {
                    return Some(i);
                }
            },
            None => {},
        }
        i = i + 1;
    }
    None
}

/// Builds the located-process description from a matching snapshot
/// entry; `home_exists` answers whether the derived home directory is
/// present on the regular filesystem.
pub fn build_target(e: &ProcessEntry, weave_path: &str, home_exists: bool) -> (r: LunarProcess)
    requires
        entry_is_target(*e),
    ensures
        r.pid == e.pid,
        e.exe matches Some(p) && r.exe@ == p@,
        seq_views(r.launch_cmd_modified@) == rewrite_spec(seq_views(e.cmd@), weave_path@),
        r.weave_installed == seq_views(e.cmd@).contains(agent_flag_spec(weave_path@)),
        r.home_path@ == home_path_spec(r.exe@),
        r.flatpak == !home_exists,
{
    let exe = match &e.exe {
        Some(p) => p.clone(),
        None => {
            proof {
                assert(false);
            }
            String::new()
        },
    };
    let home_path = match derive_home_path(exe.as_str()) {
        Some(h) => h,
        None => {
            proof {
                assert(false);
            }
            String::new()
        },
    };
    LunarProcess {
        pid: e.pid,
        launch_cmd_modified: rewrite_launch_args(&e.cmd, weave_path),
        weave_installed: agent_already_installed(&e.cmd, weave_path),
        flatpak: !home_exists,
        home_path,
        exe,
    }
}

/// Relies on `sysinfo::System::new_all` and `refresh_all` to take a
/// fresh snapshot of the OS process table, and on `Pid::as_u32`,
/// `Process::exe` and `Process::cmd` to read each entry.  The order
/// of the entries and their contents depend on the live system, so
/// nothing is promised of the result.  A path or argument that is not
/// valid UTF-8 is handed on as an unresolved path or dropped.
#[verifier::external_body]
fn snapshot_processes() -> (r: Vec<ProcessEntry>) {
    let mut system = sysinfo::System::new_all();
    system.refresh_all();
    let mut out: Vec<ProcessEntry> = Vec::new();
    for (pid, process) in system.processes() {
        out.push(ProcessEntry {
            pid: pid.as_u32(),
            exe: process.exe().and_then(|p| p.to_str()).map(|s| s.to_owned()),
            cmd: process.cmd().iter().filter_map(|a| a.to_str()).map(|s| s.to_owned()).collect(),
        });
    }
    out
}

/// Relies on `std::path::Path::exists`: true when the path names an
/// existing filesystem entry at the moment of the call, false when it
/// does not or when the query itself fails; the answer depends on the
/// live filesystem, so nothing is promised of it.
#[verifier::external_body]
fn path_exists(path: &str) -> (r: bool) {
    std::path::Path::new(path).exists()
}

/// Scans the live process table for the target process and, on a
/// match, produces its description: rewritten arguments, agent
/// status against the original vector, derived home directory and
/// sandbox status.  `None` is the normal state while no target runs.
pub fn fetch_lunar_client(weave_path: &str) -> (r: Option<LunarProcess>)
    ensures
        match r {
            Some(p) => is_target_exe(p.exe@) && p.home_path@ == home_path_spec(p.exe@) && exists|
                orig: Seq<Seq<char>>,
            |
                seq_views(p.launch_cmd_modified@) == rewrite_spec(orig, weave_path@)
                    && p.weave_installed == orig.contains(agent_flag_spec(weave_path@)),
            None => true,
        },
{
    let entries = snapshot_processes();
    match find_target(&entries) {
        Some(ix) => {
            let e = &entries[ix];
            let exe = match &e.exe {
                Some(p) => p.clone(),
                None => {
                    proof {
                        assert(false);
                    }
                    String::new()
                },
            };
            let home = match derive_home_path(exe.as_str()) {
                Some(h) => h,
                None => {
                    proof {
                        assert(false);
                    }
                    String::new()
                },
            };
            let home_exists = path_exists(home.as_str());
            let p = build_target(e, weave_path, home_exists);
            proof {
                let orig = seq_views(e.cmd@);
                assert(seq_views(p.launch_cmd_modified@) == rewrite_spec(orig, weave_path@)
                    && p.weave_installed == orig.contains(agent_flag_spec(weave_path@)));
            }
            Some(p)
        },
        None => None,
    }
}

} // verus!

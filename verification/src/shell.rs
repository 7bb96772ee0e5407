//! Shell command assembly with substitutions.

use vstd::prelude::*;

use crate::scan::{
    is_ws, lemma_skip_ws_from, lemma_trim_back, matches_at, skip_ws, skip_ws_from, subvec,
    trim_back, trim_back_at,
};
use crate::wdl::{Target, TargetView};

verus! {

/// The first position at or after `i` where `p` matches `s` exactly.
pub open spec fn find_at_from(s: Seq<u8>, p: Seq<char>, i: int) -> Option<int>
    decreases s.len() - i,
{
    if i < 0 || i + p.len() > s.len() {
        None
    } else if matches_at(s, p, i) {
        Some(i)
    } else {
        find_at_from(s, p, i + 1)
    }
}

/// What a found position means: a match there.
pub proof fn lemma_find_at_from(s: Seq<u8>, p: Seq<char>, i: int)
    requires
        i >= 0,
    ensures
        match find_at_from(s, p, i) {
            Some(j) => i <= j && matches_at(s, p, j),
            None => true,
        },
    decreases s.len() - i,
{
    if i + p.len() <= s.len() && !matches_at(s, p, i) {
        lemma_find_at_from(s, p, i + 1);
    }
}

#[via_fn]
proof fn spec_replace_decreases(s: Seq<u8>, p: Seq<char>, rep: Seq<u8>) {
    lemma_find_at_from(s, p, 0);
}

/// Every occurrence of `p` in `s` replaced by `rep`, left to right without
/// overlap.
pub open spec fn spec_replace(s: Seq<u8>, p: Seq<char>, rep: Seq<u8>) -> Seq<u8>
    decreases s.len(),
    when p.len() >= 1
    via spec_replace_decreases
{
    match find_at_from(s, p, 0) {
        None => s,
        Some(j) => s.subrange(0, j) + rep + spec_replace(
            s.subrange(j + p.len(), s.len() as int),
            p,
            rep,
        ),
    }
}

/// The text with surrounding whitespace stripped.
pub open spec fn spec_trim(s: Seq<u8>) -> Seq<u8> {
    let a = skip_ws_from(s, 0);
    s.subrange(a, trim_back(s, a, s.len() as int))
}

/// The first exact match of `p` in `s` at or after `from`.
fn find_at(s: &Vec<u8>, p: &str, from: usize) -> (r: Option<usize>)
    requires
        p.is_ascii(),
    ensures
        match r {
            Some(j) => Some(j as int) == find_at_from(s@, p@, from as int) && from <= j && j
                + p@.len() <= s@.len(),
            None => find_at_from(s@, p@, from as int) is None,
        },
{
    let mut i: usize = from;
    loop
        invariant
            from <= i,
            p.is_ascii(),
            find_at_from(s@, p@, from as int) == find_at_from(s@, p@, i as int),
        decreases s@.len() + 1 - i,
    {
        if i > s.len() || s.len() - i < p.as_bytes().len() {
            broadcast use vstd::string::is_ascii_spec_bytes;

            return None;
        }
        if crate::scan::matches_cs(s, p, i) {
            return Some(i);
        }
        i += 1;
    }
}

/// Every occurrence of `p` in `s` replaced by `rep`.
fn replace_all(s: &Vec<u8>, p: &str, rep: &Vec<u8>) -> (r: Vec<u8>)
    requires
        p.is_ascii(),
        p@.len() >= 1,
    ensures
        r@ == spec_replace(s@, p@, rep@),
    decreases s@.len(),
{
    match find_at(s, p, 0) {
        None => {
            let r = subvec(s, 0, s.len());
            proof {
                assert(r@ =~= spec_replace(s@, p@, rep@));
            }
            r
        },
        Some(j) => {
            let pl = p.as_bytes().len();
            proof {
                broadcast use vstd::string::is_ascii_spec_bytes;

                assert(pl == p@.len());
            }
            let n = s.len();
            proof {
                assert(j + pl <= n);
            }
            let mut out = subvec(s, 0, j);
            let mut rc = subvec(rep, 0, rep.len());
            out.append(&mut rc);
            let rest = subvec(s, j + pl, n);
            let mut tail = replace_all(&rest, p, rep);
            out.append(&mut tail);
            proof {
                broadcast use vstd::string::is_ascii_spec_bytes;

                assert(rest@ =~= s@.subrange(j + p@.len(), s@.len() as int));
                assert(out@ =~= spec_replace(s@, p@, rep@));
            }
            out
        },
    }
}

/// The bytes with surrounding whitespace stripped.
fn trim(s: &Vec<u8>) -> (r: Vec<u8>)
    ensures
        r@ == spec_trim(s@),
{
    let a = skip_ws(s, 0);
    let b = trim_back_at(s, a, s.len());
    subvec(s, a, b)
}

/// The command that substitution builds: the target-kind-specific extra
/// arguments are appended after a space, the four placeholders are replaced
/// by the file path, the inputs path, the outputs path and the target name,
/// and surrounding whitespace is stripped.
pub open spec fn spec_substitute(
    command: Seq<u8>,
    path: Seq<u8>,
    input: Seq<u8>,
    output: Seq<u8>,
    target: TargetView,
    workflow_target_args: Seq<u8>,
    task_target_args: Seq<u8>,
) -> Seq<u8> {
    let args = match target {
        TargetView::Workflow(_) => workflow_target_args,
        TargetView::Task(_) => task_target_args,
    };
    let c = command + seq![32u8] + args;
    let c = spec_replace(c, "~{path}"@, path);
    let c = spec_replace(c, "~{input}"@, input);
    let c = spec_replace(c, "~{output}"@, output);
    let c = spec_replace(c, "~{target}"@, target.name());
    spec_trim(c)
}

/// Builds the command with substitutions and target-specific arguments.
///
/// `~{path}`, `~{input}` and `~{output}` become the given paths, and
/// `~{target}` the workflow or task name; the extra argument string for the
/// target's kind is appended before substitution, and the result is trimmed.
pub fn substitute(
    command: &Vec<u8>,
    path: &Vec<u8>,
    input: &Vec<u8>,
    output: &Vec<u8>,
    target: &Target,
    workflow_target_args: &Vec<u8>,
    task_target_args: &Vec<u8>,
) -> (r: Vec<u8>)
    ensures
        r@ == spec_substitute(
            command@,
            path@,
            input@,
            output@,
            target@,
            workflow_target_args@,
            task_target_args@,
        ),
{
    proof {
        reveal_strlit("~{path}");
        reveal_strlit("~{input}");
        reveal_strlit("~{output}");
        reveal_strlit("~{target}");
        assert("~{path}".is_ascii());
        assert("~{input}".is_ascii());
        assert("~{output}".is_ascii());
        assert("~{target}".is_ascii());
    }
    let mut c = subvec(command, 0, command.len());
    c.push(32);
    let args = match target {
        Target::Workflow(_) => workflow_target_args,
        Target::Task(_) => task_target_args,
    };
    let mut ac = subvec(args, 0, args.len());
    c.append(&mut ac);
    proof {
        let av = match target@ {
            TargetView::Workflow(_) => workflow_target_args@,
            TargetView::Task(_) => task_target_args@,
        };
        assert(c@ =~= command@ + seq![32u8] + av);
    }
    let c = replace_all(&c, "~{path}", path);
    let c = replace_all(&c, "~{input}", input);
    let c = replace_all(&c, "~{output}", output);
    let c = replace_all(&c, "~{target}", target.name());
    trim(&c)
}

} // verus!

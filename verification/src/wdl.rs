//! Shallow WDL declaration scanning.
//!
//! Workflow and task names are read by a line-oriented pattern scan, not a
//! WDL parser: a declaration is a `workflow` or `task` keyword preceded only
//! by whitespace since the start of its line, followed by whitespace, a name
//! of word bytes, optional whitespace and an opening brace. Only the first
//! workflow-looking line governs, and text resembling a declaration inside a
//! string or comment is indistinguishable from a real one; both limitations
//! are deliberate.

use vstd::prelude::*;

use crate::scan::{
    is_ws, is_word_byte, matches_at, skip_ws_from, word_end_from, lemma_skip_ws_from,
    lemma_word_end_from, matches_cs, skip_ws, word_end, ws_byte, subvec,
};

verus! {

/// A target to execute in a WDL file.
#[derive(Debug, Clone, PartialEq, Eq)]
pub enum Target {
    /// A task target.
    Task(Vec<u8>),
    /// A workflow target.
    Workflow(Vec<u8>),
}

/// The mathematical value of a [`Target`]: the kind and the name bytes.
#[verifier::ext_equal]
pub enum TargetView {
    /// A task target.
    Task(Seq<u8>),
    /// A workflow target.
    Workflow(Seq<u8>),
}

impl View for Target {
    type V = TargetView;

    open spec fn view(&self) -> TargetView {
        match self {
            Target::Task(name) => TargetView::Task(name@),
            Target::Workflow(name) => TargetView::Workflow(name@),
        }
    }
}

impl TargetView {
    /// The name of the target, whichever kind it is.
    pub open spec fn name(&self) -> Seq<u8> {
        match self {
            TargetView::Task(name) => *name,
            TargetView::Workflow(name) => *name,
        }
    }
}

impl Target {
    /// The name of the target, whichever kind it is.
    pub open spec fn spec_name(&self) -> Seq<u8> {
        match self {
            Target::Task(name) => name@,
            Target::Workflow(name) => name@,
        }
    }

    /// Gets the name of the target.
    pub fn name(&self) -> (r: &Vec<u8>)
        ensures
            r@ == self.spec_name(),
    {
        match self {
            Target::Task(name) => name,
            Target::Workflow(name) => name,
        }
    }
}

/// Only whitespace stands between the last line break and position `i`.
pub open spec fn bol_ws(s: Seq<u8>, i: int) -> bool
    decreases i,
{
    if i <= 0 {
        true
    } else if s[i - 1] == 10 {
        true
    } else if is_ws(s[i - 1]) {
        bol_ws(s, i - 1)
    } else {
        false
    }
}

/// A declaration of keyword `kw` begins at position `i`: the keyword at the
/// start of a line (up to whitespace), then whitespace, a non-empty name of
/// word bytes, optional whitespace, and `{`.
pub open spec fn decl_match_at(s: Seq<u8>, kw: Seq<char>, i: int) -> bool {
    &&& bol_ws(s, i)
    &&& matches_at(s, kw, i)
    &&& i + kw.len() < s.len()
    &&& is_ws(s[i + kw.len()])
    &&& {
        let ns = skip_ws_from(s, i + kw.len());
        let ne = word_end_from(s, ns);
        &&& ne > ns
        &&& {
            let ob = skip_ws_from(s, ne);
            ob < s.len() && s[ob] == 123
        }
    }
}

/// The name captured by the declaration beginning at `i`.
pub open spec fn decl_name(s: Seq<u8>, kw: Seq<char>, i: int) -> Seq<u8> {
    let ns = skip_ws_from(s, i + kw.len());
    let ne = word_end_from(s, ns);
    s.subrange(ns, ne)
}

/// The position just past the opening brace of the declaration beginning at
/// `i`.
pub open spec fn decl_end(s: Seq<u8>, kw: Seq<char>, i: int) -> int {
    let ns = skip_ws_from(s, i + kw.len());
    let ne = word_end_from(s, ns);
    skip_ws_from(s, ne) + 1
}

/// The declaration's pieces stand in order within `s`.
pub proof fn lemma_decl_bounds(s: Seq<u8>, kw: Seq<char>, i: int)
    requires
        0 <= i,
        kw.len() >= 1,
        decl_match_at(s, kw, i),
    ensures
        i < decl_end(s, kw, i) <= s.len(),
        i + kw.len() <= skip_ws_from(s, i + kw.len()),
        skip_ws_from(s, i + kw.len()) < word_end_from(s, skip_ws_from(s, i + kw.len()))
            <= s.len(),
{
    lemma_skip_ws_from(s, i + kw.len());
    let ns = skip_ws_from(s, i + kw.len());
    lemma_word_end_from(s, ns);
    let ne = word_end_from(s, ns);
    lemma_skip_ws_from(s, ne);
}

/// The name of the first declaration of keyword `kw` at or after `i`, if any.
pub open spec fn first_decl_name(s: Seq<u8>, kw: Seq<char>, i: int) -> Option<Seq<u8>>
    decreases s.len() - i,
{
    if i < 0 || i >= s.len() {
        None
    } else if decl_match_at(s, kw, i) {
        Some(decl_name(s, kw, i))
    } else {
        first_decl_name(s, kw, i + 1)
    }
}

#[via_fn]
proof fn scan_decl_names_decreases(s: Seq<u8>, kw: Seq<char>, i: int) {
    if 0 <= i < s.len() && kw.len() >= 1 && decl_match_at(s, kw, i) {
        lemma_decl_bounds(s, kw, i);
    }
}

/// The names of all declarations of keyword `kw` at or after `i`, in order of
/// appearance; scanning resumes after each declaration's opening brace.
pub open spec fn scan_decl_names(s: Seq<u8>, kw: Seq<char>, i: int) -> Seq<Seq<u8>>
    decreases s.len() - i,
    when kw.len() >= 1
    via scan_decl_names_decreases
{
    if i < 0 || i >= s.len() {
        Seq::empty()
    } else if decl_match_at(s, kw, i) {
        seq![decl_name(s, kw, i)] + scan_decl_names(s, kw, decl_end(s, kw, i))
    } else {
        scan_decl_names(s, kw, i + 1)
    }
}

/// The workflow name that a WDL source declares, if any: the first
/// `workflow`-declaration line of the text.
pub open spec fn spec_workflow(s: Seq<u8>) -> Option<Seq<u8>> {
    first_decl_name(s, "workflow"@, 0)
}

/// The task names that a WDL source declares, in order of appearance.
pub open spec fn spec_tasks(s: Seq<u8>) -> Seq<Seq<u8>> {
    scan_decl_names(s, "task"@, 0)
}

/// The declarations found in a WDL file.
#[derive(Debug, Clone, PartialEq, Eq)]
pub struct WdlDeclarations {
    /// The workflow name, if one exists.
    pub workflow: Option<Vec<u8>>,
    /// The task names.
    pub tasks: Vec<Vec<u8>>,
}

impl WdlDeclarations {
    /// The workflow name as a mathematical value.
    pub open spec fn spec_workflow_of(&self) -> Option<Seq<u8>> {
        match self.workflow {
            Some(w) => Some(w@),
            None => None,
        }
    }

    /// The task names as mathematical values.
    pub open spec fn spec_tasks_of(&self) -> Seq<Seq<u8>> {
        self.tasks.deep_view()
    }

    /// Gets the workflow name.
    pub fn workflow(&self) -> (r: Option<&Vec<u8>>)
        ensures
            match r {
                Some(w) => self.spec_workflow_of() == Some(w@),
                None => self.spec_workflow_of() is None,
            },
    {
        match &self.workflow {
            Some(w) => Some(w),
            None => None,
        }
    }

    /// Gets the task names.
    pub fn tasks(&self) -> (r: &Vec<Vec<u8>>)
        ensures
            r.deep_view() == self.spec_tasks_of(),
    {
        &self.tasks
    }

    /// The single target, as a mathematical value: the workflow if one
    /// exists (workflows dominate tasks unconditionally), else the sole task
    /// if there is exactly one, else nothing.
    pub open spec fn spec_single_target(&self) -> Option<TargetView> {
        match self.workflow {
            Some(w) => Some(TargetView::Workflow(w@)),
            None => if self.tasks@.len() == 1 {
                Some(TargetView::Task(self.tasks@[0]@))
            } else {
                None
            },
        }
    }

    /// Returns the single workflow or task target, if there is exactly one
    /// target to run.
    ///
    /// Returns `Some` if there is a workflow (regardless of tasks), or no
    /// workflow and exactly one task; returns `None` otherwise.
    pub fn single_target(&self) -> (r: Option<Target>)
        ensures
            match r {
                Some(t) => self.spec_single_target() == Some(t@),
                None => self.spec_single_target() is None,
            },
    {
        match &self.workflow {
            Some(w) => {
                let name = subvec(w, 0, w.len());
                proof {
                    assert(name@ =~= w@);
                }
                Some(Target::Workflow(name))
            },
            None => {
                if self.tasks.len() == 1 {
                    let t = &self.tasks[0];
                    let name = subvec(t, 0, t.len());
                    proof {
                        assert(name@ =~= self.tasks@[0]@);
                    }
                    Some(Target::Task(name))
                } else {
                    None
                }
            },
        }
    }
}

/// Tries to read a declaration of keyword `kw` at position `i`; `bw` says
/// whether only whitespace stands between the last line break and `i`.
fn try_decl_at(s: &Vec<u8>, kw: &str, i: usize, bw: bool) -> (r: Option<(usize, usize, usize)>)
    requires
        kw.is_ascii(),
        kw@.len() >= 1,
        i < s@.len(),
        bw == bol_ws(s@, i as int),
    ensures
        match r {
            Some(t) => {
                &&& decl_match_at(s@, kw@, i as int)
                &&& t.0 as int == skip_ws_from(s@, i + kw@.len())
                &&& t.1 as int == word_end_from(s@, t.0 as int)
                &&& t.2 as int == decl_end(s@, kw@, i as int)
                &&& t.0 <= t.1 <= t.2 <= s@.len()
            },
            None => !decl_match_at(s@, kw@, i as int),
        },
{
    broadcast use vstd::string::is_ascii_spec_bytes;

    if !bw {
        return None;
    }
    if !matches_cs(s, kw, i) {
        return None;
    }
    let kl = kw.as_bytes().len();
    if kl >= s.len() - i {
        return None;
    }
    if !ws_byte(s[i + kl]) {
        return None;
    }
    let ns = skip_ws(s, i + kl);
    let ne = word_end(s, ns);
    if ne == ns {
        return None;
    }
    let ob = skip_ws(s, ne);
    if ob >= s.len() || s[ob] != 123 {
        return None;
    }
    proof {
        lemma_decl_bounds(s@, kw@, i as int);
    }
    Some((ns, ne, ob + 1))
}

/// Parses WDL source code to extract workflow and task declarations.
///
/// This is a minimal pattern scan that only extracts declaration names, not a
/// full WDL parser.
pub fn parse_wdl_declarations(source: &Vec<u8>) -> (r: WdlDeclarations)
    ensures
        r.spec_workflow_of() == spec_workflow(source@),
        r.spec_tasks_of() == spec_tasks(source@),
{
    proof {
        reveal_strlit("workflow");
        reveal_strlit("task");
    }
    let workflow = scan_first(source, "workflow");
    let tasks = scan_all(source, "task");
    WdlDeclarations { workflow, tasks }
}

/// The name of the first declaration of `kw` in `source`, if any.
fn scan_first(source: &Vec<u8>, kw: &str) -> (r: Option<Vec<u8>>)
    requires
        kw.is_ascii(),
        kw@.len() >= 1,
    ensures
        match r {
            Some(w) => first_decl_name(source@, kw@, 0) == Some(w@),
            None => first_decl_name(source@, kw@, 0) is None,
        },
{
    let mut i: usize = 0;
    let mut bw: bool = true;
    loop
        invariant
            kw.is_ascii(),
            kw@.len() >= 1,
            0 <= i <= source@.len(),
            bw == bol_ws(source@, i as int),
            first_decl_name(source@, kw@, 0) == first_decl_name(source@, kw@, i as int),
        decreases source@.len() - i,
    {
        if i >= source.len() {
            return None;
        }
        match try_decl_at(source, kw, i, bw) {
            Some(t) => {
                return Some(subvec(source, t.0, t.1));
            },
            None => {
                let c = source[i];
                bw = if c == 10 {
                    true
                } else if ws_byte(c) {
                    bw
                } else {
                    false
                };
                i += 1;
            },
        }
    }
}

/// The names of all declarations of `kw` in `source`, in order.
fn scan_all(source: &Vec<u8>, kw: &str) -> (r: Vec<Vec<u8>>)
    requires
        kw.is_ascii(),
        kw@.len() >= 1,
    ensures
        r.deep_view() == scan_decl_names(source@, kw@, 0),
{
    let mut acc: Vec<Vec<u8>> = Vec::new();
    let mut i: usize = 0;
    let mut bw: bool = true;
    loop
        invariant
            kw.is_ascii(),
            kw@.len() >= 1,
            0 <= i <= source@.len(),
            bw == bol_ws(source@, i as int),
            acc.deep_view() + scan_decl_names(source@, kw@, i as int) == scan_decl_names(
                source@,
                kw@,
                0,
            ),
        decreases source@.len() - i,
    {
        if i >= source.len() {
            proof {
                assert(acc.deep_view() + scan_decl_names(source@, kw@, i as int) =~= acc.deep_view());
            }
            return acc;
        }
        match try_decl_at(source, kw, i, bw) {
            Some(t) => {
                let ghost prev = acc.deep_view();
                let name = subvec(source, t.0, t.1);
                proof {
                    assert(name@ == decl_name(source@, kw@, i as int));
                }
                acc.push(name);
                proof {
                    lemma_decl_bounds(source@, kw@, i as int);
                    assert(acc.deep_view() =~~= prev.push(name@));
                    assert(prev.push(name@) + scan_decl_names(source@, kw@, t.2 as int) =~~= prev
                        + (seq![name@] + scan_decl_names(source@, kw@, t.2 as int)));
                    assert(source@[t.2 - 1] == 123);
                    assert(!bol_ws(source@, t.2 as int));
                }
                i = t.2;
                bw = false;
            },
            None => {
                let c = source[i];
                bw = if c == 10 {
                    true
                } else if ws_byte(c) {
                    bw
                } else {
                    false
                };
                i += 1;
            },
        }
    }
}

} // verus!

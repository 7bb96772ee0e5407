//! Conformance test fixtures and target resolution.

use vstd::prelude::*;

use crate::config::{spec_config_from, spec_default_config, Config, ConfigError, ConfigView};
use crate::json::{json_source_ok, json_value_of, json_view, parse_json, Json, JsonView};
use crate::scan::{
    bytes_eq, find_ci, find_ci_from, lemma_find_ci_from, lemma_skip_ws_from, matches_ci,
    matches_ci_at, skip_ws, skip_ws_from, subvec, trim_back, trim_back_at,
};
use crate::wdl::{
    parse_wdl_declarations, spec_tasks, spec_workflow, Target, TargetView, WdlDeclarations,
};

verus! {

broadcast use vstd::std_specs::vec::group_vec_axioms;

/// A conformance test.
#[derive(Debug)]
pub struct Test {
    /// The path to the test, if it has been written.
    pub path: Option<Vec<u8>>,
    /// The file name of the test.
    pub file_name: Vec<u8>,
    /// The source.
    pub src: Vec<u8>,
    /// The input.
    pub input: Option<Json>,
    /// The output.
    pub output: Option<Json>,
    /// The configuration.
    pub config: Config,
    /// The inferred or validated target workflow/task.
    pub inferred_target: Option<Target>,
}

/// The mathematical value of a [`Test`].
#[verifier::ext_equal]
pub struct TestView {
    /// The path, if set.
    pub path: Option<Seq<u8>>,
    /// The file name.
    pub file_name: Seq<u8>,
    /// The source text.
    pub src: Seq<u8>,
    /// The input, if any.
    pub input: Option<JsonView>,
    /// The expected output, if any.
    pub output: Option<JsonView>,
    /// The configuration.
    pub config: ConfigView,
    /// The resolved target, if resolution has succeeded.
    pub inferred_target: Option<TargetView>,
}

impl View for Test {
    type V = TestView;

    open spec fn view(&self) -> TestView {
        TestView {
            path: match self.path {
                Some(p) => Some(p@),
                None => None,
            },
            file_name: self.file_name@,
            src: self.src@,
            input: match self.input {
                Some(j) => Some(json_view(j)),
                None => None,
            },
            output: match self.output {
                Some(j) => Some(json_view(j)),
                None => None,
            },
            config: self.config@,
            inferred_target: match self.inferred_target {
                Some(t) => Some(t@),
                None => None,
            },
        }
    }
}

/// Why target resolution failed.
#[derive(Debug, Clone, PartialEq, Eq)]
pub enum ResolveError {
    /// The config names a target though the WDL structure already determines
    /// one.
    ConflictConfigWithStructure,
    /// The config names a target though the input JSON already determines
    /// one.
    ConflictConfigWithInput,
    /// The WDL structure and the input JSON determine different targets.
    ConflictStructureInput(Target, Target),
    /// The input JSON's keys use more than one prefix.
    AmbiguousInputPrefixes,
    /// The input JSON's key prefix matches no workflow or task.
    UnmatchedInputPrefix(Vec<u8>),
    /// Several tasks and nothing that picks one.
    TargetRequired,
    /// The config's target is not among the declared tasks.
    UnknownTarget(Vec<u8>),
    /// No workflow or task is declared at all.
    NoDeclaration,
}

/// The mathematical value of a [`ResolveError`].
#[verifier::ext_equal]
pub enum ResolveErrorView {
    /// Config target beside an inferable structure target.
    ConflictConfigWithStructure,
    /// Config target beside an inferable input target.
    ConflictConfigWithInput,
    /// Structure and input disagree.
    ConflictStructureInput(TargetView, TargetView),
    /// More than one input key prefix.
    AmbiguousInputPrefixes,
    /// An input key prefix that names no declaration.
    UnmatchedInputPrefix(Seq<u8>),
    /// Nothing picks one of several tasks.
    TargetRequired,
    /// A config target that names no task.
    UnknownTarget(Seq<u8>),
    /// Nothing to execute.
    NoDeclaration,
}

impl View for ResolveError {
    type V = ResolveErrorView;

    open spec fn view(&self) -> ResolveErrorView {
        match self {
            ResolveError::ConflictConfigWithStructure => ResolveErrorView::ConflictConfigWithStructure,
            ResolveError::ConflictConfigWithInput => ResolveErrorView::ConflictConfigWithInput,
            ResolveError::ConflictStructureInput(s, t) => ResolveErrorView::ConflictStructureInput(
                s@,
                t@,
            ),
            ResolveError::AmbiguousInputPrefixes => ResolveErrorView::AmbiguousInputPrefixes,
            ResolveError::UnmatchedInputPrefix(p) => ResolveErrorView::UnmatchedInputPrefix(p@),
            ResolveError::TargetRequired => ResolveErrorView::TargetRequired,
            ResolveError::UnknownTarget(t) => ResolveErrorView::UnknownTarget(t@),
            ResolveError::NoDeclaration => ResolveErrorView::NoDeclaration,
        }
    }
}

/// The position of the first `.` in `k` at or after `i`, or the end of `k`.
pub open spec fn dot_end_from(k: Seq<u8>, i: int) -> int
    decreases k.len() - i,
{
    if i < 0 || i >= k.len() {
        k.len() as int
    } else if k[i] == 46 {
        i
    } else {
        dot_end_from(k, i + 1)
    }
}

/// The prefix of a key's bytes up to (not including) the first `.`.
pub open spec fn key_prefix(k: Seq<u8>) -> Seq<u8> {
    k.subrange(0, dot_end_from(k, 0))
}

/// The byte encoding of an input key.
pub open spec fn key_bytes(k: Seq<char>) -> Seq<u8> {
    vstd::utf8::encode_utf8(k)
}

/// The single target that a source's declarations determine: the workflow if
/// one exists (workflows dominate tasks unconditionally), else the sole task
/// if there is exactly one, else nothing.
pub open spec fn spec_single_of(w: Option<Seq<u8>>, tasks: Seq<Seq<u8>>) -> Option<TargetView> {
    match w {
        Some(w) => Some(TargetView::Workflow(w)),
        None => if tasks.len() == 1 {
            Some(TargetView::Task(tasks[0]))
        } else {
            None
        },
    }
}

/// What the input JSON says about the target.
#[verifier::ext_equal]
pub enum InputInference {
    /// No input, no object, or an empty object: the input says nothing.
    Absent,
    /// All keys share one prefix and it names this declaration.
    Target(TargetView),
    /// The keys use more than one prefix.
    Ambiguous,
    /// The shared prefix names no declaration.
    Unmatched(Seq<u8>),
}

/// The target inference that an optional input JSON yields against the
/// declarations `(w, tasks)`: the keys of a non-empty object must share one
/// prefix (up to the first `.`), and that prefix must name the workflow or a
/// task; the workflow is checked first.
pub open spec fn spec_input_inference(
    input: Option<JsonView>,
    w: Option<Seq<u8>>,
    tasks: Seq<Seq<u8>>,
) -> InputInference {
    match input {
        None => InputInference::Absent,
        Some(j) => match j {
            JsonView::Obj(pairs) => {
                if pairs.len() == 0 {
                    InputInference::Absent
                } else {
                    let p = key_prefix(key_bytes(pairs[0].0));
                    if exists|i: int|
                        0 <= i < pairs.len() && key_prefix(key_bytes(#[trigger] pairs[i].0)) != p {
                        InputInference::Ambiguous
                    } else if w == Some(p) {
                        InputInference::Target(TargetView::Workflow(p))
                    } else if tasks.contains(p) {
                        InputInference::Target(TargetView::Task(p))
                    } else {
                        InputInference::Unmatched(p)
                    }
                }
            },
            _ => InputInference::Absent,
        },
    }
}

/// The outcome of target resolution for a test with source declarations
/// `(w, tasks)`, input JSON `input` and configured target `cfg`.
///
/// Input-key errors come first; then the decision table over the structure
/// target, the input target and the configured target: a configured target
/// beside either inferred one is a conflict; a single inferred one is used;
/// two equal inferred ones are used and two unequal ones are a conflict;
/// with nothing inferred, tasks present demand a configured target naming
/// one of them, and no declarations at all is an error of its own.
pub open spec fn spec_resolve(
    w: Option<Seq<u8>>,
    tasks: Seq<Seq<u8>>,
    input: Option<JsonView>,
    cfg: Option<Seq<char>>,
) -> Result<TargetView, ResolveErrorView> {
    match spec_input_inference(input, w, tasks) {
        InputInference::Ambiguous => Err(ResolveErrorView::AmbiguousInputPrefixes),
        InputInference::Unmatched(p) => Err(ResolveErrorView::UnmatchedInputPrefix(p)),
        inf => {
            let single = spec_single_of(w, tasks);
            let input_t = match inf {
                InputInference::Target(t) => Some(t),
                _ => None,
            };
            match (single, input_t, cfg) {
                (Some(_), _, Some(_)) => Err(ResolveErrorView::ConflictConfigWithStructure),
                (_, Some(_), Some(_)) => Err(ResolveErrorView::ConflictConfigWithInput),
                (Some(t), None, None) => Ok(t),
                (None, Some(t), None) => Ok(t),
                (Some(s), Some(t), None) => if s == t {
                    Ok(s)
                } else {
                    Err(ResolveErrorView::ConflictStructureInput(s, t))
                },
                (None, None, None) => if tasks.len() > 0 {
                    Err(ResolveErrorView::TargetRequired)
                } else {
                    Err(ResolveErrorView::NoDeclaration)
                },
                (None, None, Some(t)) => if tasks.len() > 0 {
                    if tasks.contains(key_bytes(t)) {
                        Ok(TargetView::Task(key_bytes(t)))
                    } else {
                        Err(ResolveErrorView::UnknownTarget(key_bytes(t)))
                    }
                } else {
                    Err(ResolveErrorView::NoDeclaration)
                },
            }
        },
    }
}

/// Law: a source that declares a workflow resolves to that workflow whatever
/// tasks stand beside it, when no input and no configured target are given.
pub proof fn lemma_workflow_dominates(w: Seq<u8>, tasks: Seq<Seq<u8>>)
    ensures
        spec_resolve(Some(w), tasks, None, None) == Ok::<TargetView, ResolveErrorView>(
            TargetView::Workflow(w),
        ),
{
}

/// Law: with no workflow, more than one task, no input and no configured
/// target, resolution fails demanding a target.
pub proof fn lemma_target_required(tasks: Seq<Seq<u8>>)
    requires
        tasks.len() >= 2,
    ensures
        spec_resolve(None, tasks, None, None) == Err::<TargetView, ResolveErrorView>(
            ResolveErrorView::TargetRequired,
        ),
{
}

/// Law: with no workflow and more than one task, a configured target naming
/// none of them fails, and the error names that target.
pub proof fn lemma_unknown_target(tasks: Seq<Seq<u8>>, cfg: Seq<char>)
    requires
        tasks.len() >= 2,
        !tasks.contains(key_bytes(cfg)),
    ensures
        spec_resolve(None, tasks, None, Some(cfg)) == Err::<TargetView, ResolveErrorView>(
            ResolveErrorView::UnknownTarget(key_bytes(cfg)),
        ),
{
}

/// Law: an input object whose keys all bear the sole task's name as their
/// prefix resolves to that task.
pub proof fn lemma_input_prefix_selects_task(pairs: Seq<(Seq<char>, JsonView)>, t: Seq<u8>)
    requires
        pairs.len() > 0,
        forall|i: int| 0 <= i < pairs.len() ==> key_prefix(key_bytes(#[trigger] pairs[i].0)) == t,
    ensures
        spec_resolve(None, seq![t], Some(JsonView::Obj(pairs)), None) == Ok::<
            TargetView,
            ResolveErrorView,
        >(TargetView::Task(t)),
{
    assert(seq![t][0] == t);
    assert(seq![t].contains(t));
}

/// Law: an input object whose keys bear two distinct prefixes makes
/// resolution fail as ambiguous, whatever is declared or configured.
pub proof fn lemma_input_prefixes_ambiguous(
    pairs: Seq<(Seq<char>, JsonView)>,
    w: Option<Seq<u8>>,
    tasks: Seq<Seq<u8>>,
    cfg: Option<Seq<char>>,
    i: int,
    j: int,
)
    requires
        0 <= i < pairs.len(),
        0 <= j < pairs.len(),
        key_prefix(key_bytes(pairs[i].0)) != key_prefix(key_bytes(pairs[j].0)),
    ensures
        spec_resolve(w, tasks, Some(JsonView::Obj(pairs)), cfg) == Err::<
            TargetView,
            ResolveErrorView,
        >(ResolveErrorView::AmbiguousInputPrefixes),
{
    let p = key_prefix(key_bytes(pairs[0].0));
    if key_prefix(key_bytes(pairs[i].0)) != p {
        assert(exists|k: int|
            0 <= k < pairs.len() && key_prefix(key_bytes(#[trigger] pairs[k].0)) != p);
    } else {
        assert(key_prefix(key_bytes(pairs[j].0)) != p);
        assert(exists|k: int|
            0 <= k < pairs.len() && key_prefix(key_bytes(#[trigger] pairs[k].0)) != p);
    }
}

/// Whether one of the names equals `x`.
pub fn names_contain(v: &Vec<Vec<u8>>, x: &Vec<u8>) -> (r: bool)
    ensures
        r == v.deep_view().contains(x@),
{
    proof {
        crate::scan::lemma_names_deep_view(v);
    }
    let mut i: usize = 0;
    while i < v.len()
        invariant
            0 <= i <= v@.len(),
            v.deep_view().len() == v@.len(),
            forall|k: int| 0 <= k < v@.len() ==> v.deep_view()[k] == v@[k]@,
            forall|k: int| 0 <= k < i ==> v.deep_view()[k] != x@,
        decreases v@.len() - i,
    {
        if bytes_eq(&v[i], x) {
            proof {
                assert(v.deep_view()[i as int] == x@);
            }
            return true;
        }
        i += 1;
    }
    false
}

/// The bytes of a key up to (not including) the first `.`.
fn prefix_of_key(k: &String) -> (r: Vec<u8>)
    ensures
        r@ == key_prefix(key_bytes(k@)),
{
    let kb = k.as_str().as_bytes_vec();
    let mut i: usize = 0;
    while i < kb.len() && kb[i] != 46
        invariant
            0 <= i <= kb@.len(),
            dot_end_from(kb@, 0) == dot_end_from(kb@, i as int),
        decreases kb@.len() - i,
    {
        i += 1;
    }
    proof {
        assert(dot_end_from(kb@, i as int) == i as int);
    }
    subvec(&kb, 0, i)
}

impl Test {
    /// The path to the test.
    pub fn path(&self) -> (r: Option<&Vec<u8>>)
        ensures
            match r {
                Some(p) => self@.path == Some(p@),
                None => self@.path is None,
            },
    {
        match &self.path {
            Some(p) => Some(p),
            None => None,
        }
    }

    /// The file name of the test.
    pub fn file_name(&self) -> (r: &Vec<u8>)
        ensures
            r@ == self@.file_name,
    {
        &self.file_name
    }

    /// The source of the test.
    pub fn src(&self) -> (r: &Vec<u8>)
        ensures
            r@ == self@.src,
    {
        &self.src
    }

    /// The input of the test.
    pub fn input(&self) -> (r: Option<&Json>)
        ensures
            match r {
                Some(j) => self@.input == Some(j@),
                None => self@.input is None,
            },
    {
        match &self.input {
            Some(j) => Some(j),
            None => None,
        }
    }

    /// The output of the test.
    pub fn output(&self) -> (r: Option<&Json>)
        ensures
            match r {
                Some(j) => self@.output == Some(j@),
                None => self@.output is None,
            },
    {
        match &self.output {
            Some(j) => Some(j),
            None => None,
        }
    }

    /// The configuration of the test.
    pub fn config(&self) -> (r: &Config)
        ensures
            r@ == self@.config,
    {
        &self.config
    }

    /// Sets the path for the test.
    pub fn set_path(&mut self, path: Vec<u8>)
        ensures
            final(self)@ == (TestView { path: Some(path@), ..old(self)@ }),
    {
        self.path = Some(path);
    }

    /// Gets the target workflow or task.
    ///
    /// Returns the inferred target if it has been set, otherwise `None`.
    pub fn target(&self) -> (r: Option<&Target>)
        ensures
            match r {
                Some(t) => self@.inferred_target == Some(t@),
                None => self@.inferred_target is None,
            },
    {
        match &self.inferred_target {
            Some(t) => Some(t),
            None => None,
        }
    }

    /// Attempts to infer the target from input JSON parameter prefixes.
    ///
    /// Returns `Some` if all input parameters share a common prefix naming a
    /// declaration, `None` if there is no input to go by, and an error when
    /// the prefixes are ambiguous or unmatched.
    fn infer_target_from_input(&self, decls: &WdlDeclarations) -> (r: Result<
        Option<Target>,
        ResolveError,
    >)
        ensures
            ({
                let inf = spec_input_inference(
                    self@.input,
                    decls.spec_workflow_of(),
                    decls.spec_tasks_of(),
                );
                match r {
                    Ok(Some(t)) => inf == InputInference::Target(t@),
                    Ok(None) => inf == InputInference::Absent,
                    Err(e) => match e@ {
                        ResolveErrorView::AmbiguousInputPrefixes => inf
                            == InputInference::Ambiguous,
                        ResolveErrorView::UnmatchedInputPrefix(p) => inf
                            == InputInference::Unmatched(p),
                        _ => false,
                    },
                }
            }),
    {
        let input = match &self.input {
            Some(input) => input,
            None => {
                return Ok(None);
            },
        };
        let pairs = match input {
            Json::Obj(pairs) => pairs,
            _ => {
                return Ok(None);
            },
        };
        let ghost pv = json_view(*input)->Obj_0;
        proof {
            assert(pv.len() == pairs@.len());
            assert(forall|k: int|
                0 <= k < pairs@.len() ==> #[trigger] pv[k] == (pairs@[k].0@, json_view(
                    pairs@[k].1,
                )));
        }
        if pairs.len() == 0 {
            return Ok(None);
        }
        let p = prefix_of_key(&pairs[0].0);
        let mut i: usize = 1;
        while i < pairs.len()
            invariant
                self@.input == Some(JsonView::Obj(pv)),
                pv.len() == pairs@.len(),
                forall|k: int|
                    0 <= k < pairs@.len() ==> #[trigger] pv[k] == (pairs@[k].0@, json_view(
                        pairs@[k].1,
                    )),
                1 <= i <= pairs@.len(),
                pairs@.len() > 0,
                p@ == key_prefix(key_bytes(pv[0].0)),
                forall|k: int| 0 <= k < i ==> key_prefix(key_bytes(#[trigger] pv[k].0)) == p@,
            decreases pairs@.len() - i,
        {
            let q = prefix_of_key(&pairs[i].0);
            if !bytes_eq(&q, &p) {
                proof {
                    assert(key_prefix(key_bytes(pv[i as int].0)) != p@);
                }
                return Err(ResolveError::AmbiguousInputPrefixes);
            }
            i += 1;
        }
        match decls.workflow() {
            Some(wf) => {
                if bytes_eq(wf, &p) {
                    return Ok(Some(Target::Workflow(p)));
                }
            },
            None => {},
        }
        if names_contain(decls.tasks(), &p) {
            Ok(Some(Target::Task(p)))
        } else {
            Err(ResolveError::UnmatchedInputPrefix(p))
        }
    }

    /// Infers and validates the target workflow/task from the source's
    /// declarations, the input JSON and the configured target.
    ///
    /// This method must be called after test construction to determine what
    /// to execute. On success the inferred target is recorded and nothing
    /// else changes; on failure the test is unchanged.
    pub fn infer_and_validate_target(&mut self) -> (r: Result<(), ResolveError>)
        ensures
            ({
                let rs = spec_resolve(
                    spec_workflow(old(self)@.src),
                    spec_tasks(old(self)@.src),
                    old(self)@.input,
                    old(self)@.config.target,
                );
                match r {
                    Ok(_) => rs is Ok && final(self)@ == (TestView {
                        inferred_target: Some(rs->Ok_0),
                        ..old(self)@
                    }),
                    Err(e) => rs == Err::<TargetView, _>(e@) && final(self)@ == old(self)@,
                }
            }),
    {
        let decls = parse_wdl_declarations(&self.src);
        let input_inf: Option<Target> = match self.infer_target_from_input(&decls) {
            Ok(t) => t,
            Err(e) => {
                return Err(e);
            },
        };
        let single: Option<Target> = decls.single_target();
        let cfg_b: Option<Vec<u8>> = match &self.config.target {
            Some(t) => Some(t.as_str().as_bytes_vec()),
            None => None,
        };
        proof {
            crate::scan::lemma_names_deep_view(&decls.tasks);
            assert(decls.spec_workflow_of() == spec_workflow(self@.src));
            assert(decls.spec_tasks_of() == spec_tasks(self@.src));
        }
        match (single, input_inf, cfg_b) {
            (Some(_), _, Some(_)) => Err(ResolveError::ConflictConfigWithStructure),
            (_, Some(_), Some(_)) => Err(ResolveError::ConflictConfigWithInput),
            (Some(t), None, None) => {
                self.inferred_target = Some(t);
                Ok(())
            },
            (None, Some(t), None) => {
                self.inferred_target = Some(t);
                Ok(())
            },
            (Some(s), Some(t), None) => {
                let names_same = bytes_eq(s.name(), t.name());
                let kinds_same = match (&s, &t) {
                    (Target::Workflow(_), Target::Workflow(_)) => true,
                    (Target::Task(_), Target::Task(_)) => true,
                    _ => false,
                };
                if names_same && kinds_same {
                    proof {
                        assert(s@ =~= t@);
                    }
                    self.inferred_target = Some(s);
                    Ok(())
                } else {
                    proof {
                        assert(s@ != t@);
                    }
                    Err(ResolveError::ConflictStructureInput(s, t))
                }
            },
            (None, None, None) => {
                if decls.tasks().len() > 0 {
                    Err(ResolveError::TargetRequired)
                } else {
                    Err(ResolveError::NoDeclaration)
                }
            },
            (None, None, Some(t)) => {
                if decls.tasks().len() > 0 {
                    if names_contain(decls.tasks(), &t) {
                        self.inferred_target = Some(Target::Task(t));
                        Ok(())
                    } else {
                        Err(ResolveError::UnknownTarget(t))
                    }
                } else {
                    Err(ResolveError::NoDeclaration)
                }
            },
        }
    }
}


/// The raw pieces of one test block: the file name, the WDL source, and the
/// optional input, output and configuration JSON texts.
#[verifier::ext_equal]
pub struct RawFixture {
    /// The file name.
    pub name: Seq<u8>,
    /// The WDL source text.
    pub src: Seq<u8>,
    /// The `Example input:` JSON text, if present.
    pub input: Option<Seq<u8>>,
    /// The `Example output:` JSON text, if present.
    pub output: Option<Seq<u8>>,
    /// The `Test config:` JSON text, if present.
    pub config: Option<Seq<u8>>,
}

/// Whether a fence at `v` ends the WDL source: optional whitespace, then
/// `</summary>`.
pub open spec fn src_tail_ok(s: Seq<u8>, v: int) -> bool {
    matches_ci_at(s, "</summary>"@, skip_ws_from(s, v + 3))
}

/// The first position at or after `i` where the WDL source's closing fence
/// stands.
pub open spec fn src_end_from(s: Seq<u8>, i: int) -> Option<int>
    decreases s.len() - i,
{
    if i < 0 || i + 3 > s.len() {
        None
    } else if matches_ci_at(s, "```"@, i) && src_tail_ok(s, i) {
        Some(i)
    } else {
        src_end_from(s, i + 1)
    }
}

/// What a found source fence means.
pub proof fn lemma_src_end_from(s: Seq<u8>, i: int)
    requires
        i >= 0,
    ensures
        match src_end_from(s, i) {
            Some(v) => i <= v && v + 3 <= s.len() && matches_ci_at(s, "```"@, v) && src_tail_ok(
                s,
                v,
            ),
            None => true,
        },
    decreases s.len() - i,
{
    if i + 3 <= s.len() && !(matches_ci_at(s, "```"@, i) && src_tail_ok(s, i)) {
        lemma_src_end_from(s, i + 1);
    }
}

/// One optional labelled JSON block at position `z`: nothing if the label is
/// absent; the fenced text and the position past it (and its trailing
/// whitespace) if the label stands there well-formed; and a failed match if
/// the label stands there malformed.
pub open spec fn opt_json_block(s: Seq<u8>, label: Seq<char>, z: int) -> Option<
    (Option<Seq<u8>>, int),
> {
    if !matches_ci_at(s, label, z) {
        Some((None, z))
    } else {
        let zi = skip_ws_from(s, z + label.len());
        if !matches_ci_at(s, "```json"@, zi) {
            None
        } else {
            match find_ci_from(s, "```"@, zi + 7) {
                None => None,
                Some(ie) => Some((Some(s.subrange(zi + 7, ie)), skip_ws_from(s, ie + 3))),
            }
        }
    }
}

/// The block's position only moves forward, within the text.
pub proof fn lemma_opt_json_block(s: Seq<u8>, label: Seq<char>, z: int)
    requires
        0 <= z <= s.len(),
    ensures
        match opt_json_block(s, label, z) {
            Some(bz) => z <= bz.1 <= s.len(),
            None => true,
        },
{
    reveal_strlit("```json");
    reveal_strlit("```");
    if matches_ci_at(s, label, z) {
        lemma_skip_ws_from(s, z + label.len());
        let zi = skip_ws_from(s, z + label.len());
        if matches_ci_at(s, "```json"@, zi) {
            lemma_find_ci_from(s, "```"@, zi + 7);
            match find_ci_from(s, "```"@, zi + 7) {
                Some(ie) => {
                    lemma_skip_ws_from(s, ie + 3);
                },
                None => {},
            }
        }
    }
}

/// The test block beginning exactly at `p`, if one does: its raw pieces and
/// the position just past the block.
pub open spec fn try_test_at(s: Seq<u8>, p: int) -> Option<(RawFixture, int)> {
    if !matches_ci_at(s, "<details>"@, p) {
        None
    } else {
        let q = skip_ws_from(s, p + 9);
        if !matches_ci_at(s, "<summary>"@, q) {
            None
        } else {
            let n0 = skip_ws_from(s, q + 9);
            if !matches_ci_at(s, "Example: "@, n0) {
                None
            } else {
                let n1 = n0 + 9;
                match find_ci_from(s, "```wdl"@, n1 + 1) {
                    None => None,
                    Some(w) => {
                        let ne = trim_back(s, n1 + 1, w);
                        match src_end_from(s, w + 7) {
                            None => None,
                            Some(v) => {
                                let u = skip_ws_from(s, v + 3);
                                let z = skip_ws_from(s, u + 10);
                                let name = s.subrange(n1, ne);
                                let src = s.subrange(w + 6, v);
                                if matches_ci_at(s, "<p>"@, z) {
                                    let z1 = skip_ws_from(s, z + 3);
                                    match opt_json_block(s, "Example input:"@, z1) {
                                        None => None,
                                        Some(b1) => match opt_json_block(
                                            s,
                                            "Example output:"@,
                                            b1.1,
                                        ) {
                                            None => None,
                                            Some(b2) => match opt_json_block(
                                                s,
                                                "Test config:"@,
                                                b2.1,
                                            ) {
                                                None => None,
                                                Some(b3) => {
                                                    if !matches_ci_at(s, "</p>"@, b3.1) {
                                                        None
                                                    } else {
                                                        let z5 = skip_ws_from(s, b3.1 + 4);
                                                        if !matches_ci_at(s, "</details>"@, z5) {
                                                            None
                                                        } else {
                                                            Some(
                                                                (
                                                                    RawFixture {
                                                                        name,
                                                                        src,
                                                                        input: b1.0,
                                                                        output: b2.0,
                                                                        config: b3.0,
                                                                    },
                                                                    z5 + 10,
                                                                ),
                                                            )
                                                        }
                                                    }
                                                },
                                            },
                                        },
                                    }
                                } else {
                                    if !matches_ci_at(s, "</details>"@, z) {
                                        None
                                    } else {
                                        Some(
                                            (
                                                RawFixture {
                                                    name,
                                                    src,
                                                    input: None,
                                                    output: None,
                                                    config: None,
                                                },
                                                z + 10,
                                            ),
                                        )
                                    }
                                }
                            },
                        }
                    },
                }
            }
        }
    }
}

/// A matched test block lies within the text and past its start.
pub proof fn lemma_try_test_bounds(s: Seq<u8>, p: int)
    requires
        0 <= p,
        try_test_at(s, p) is Some,
    ensures
        p < try_test_at(s, p).unwrap().1 <= s.len(),
{
    reveal_strlit("<details>");
    reveal_strlit("<summary>");
    reveal_strlit("Example: ");
    reveal_strlit("```wdl");
    reveal_strlit("```");
    reveal_strlit("```json");
    reveal_strlit("</summary>");
    reveal_strlit("<p>");
    reveal_strlit("Example input:");
    reveal_strlit("Example output:");
    reveal_strlit("Test config:");
    reveal_strlit("</p>");
    reveal_strlit("</details>");
    lemma_skip_ws_from(s, p + 9);
    let q = skip_ws_from(s, p + 9);
    lemma_skip_ws_from(s, q + 9);
    let n0 = skip_ws_from(s, q + 9);
    let n1 = n0 + 9;
    lemma_find_ci_from(s, "```wdl"@, n1 + 1);
    match find_ci_from(s, "```wdl"@, n1 + 1) {
        Some(w) => {
            lemma_src_end_from(s, w + 7);
            match src_end_from(s, w + 7) {
                Some(v) => {
                    lemma_skip_ws_from(s, v + 3);
                    let u = skip_ws_from(s, v + 3);
                    lemma_skip_ws_from(s, u + 10);
                    let z = skip_ws_from(s, u + 10);
                    if matches_ci_at(s, "<p>"@, z) {
                        lemma_skip_ws_from(s, z + 3);
                        let z1 = skip_ws_from(s, z + 3);
                        lemma_opt_json_block(s, "Example input:"@, z1);
                        match opt_json_block(s, "Example input:"@, z1) {
                            Some(b1) => {
                                lemma_opt_json_block(s, "Example output:"@, b1.1);
                                match opt_json_block(s, "Example output:"@, b1.1) {
                                    Some(b2) => {
                                        lemma_opt_json_block(s, "Test config:"@, b2.1);
                                        match opt_json_block(s, "Test config:"@, b2.1) {
                                            Some(b3) => {
                                                lemma_skip_ws_from(s, b3.1 + 4);
                                            },
                                            None => {},
                                        }
                                    },
                                    None => {},
                                }
                            },
                            None => {},
                        }
                    }
                },
                None => {},
            }
        },
        None => {},
    }
}

#[via_fn]
proof fn scan_tests_decreases(s: Seq<u8>, i: int) {
    if 0 <= i < s.len() && try_test_at(s, i) is Some {
        lemma_try_test_bounds(s, i);
    }
}

/// All test blocks at or after `i`, in order of appearance; scanning resumes
/// past each block.
pub open spec fn scan_tests(s: Seq<u8>, i: int) -> Seq<RawFixture>
    decreases s.len() - i,
    via scan_tests_decreases
{
    if i < 0 || i >= s.len() {
        Seq::empty()
    } else {
        match try_test_at(s, i) {
            Some(fe) => seq![fe.0] + scan_tests(s, fe.1),
            None => scan_tests(s, i + 1),
        }
    }
}

/// The test blocks of a markdown document, in order of appearance.
pub open spec fn spec_tests_of(s: Seq<u8>) -> Seq<RawFixture> {
    scan_tests(s, 0)
}


/// The owned pieces of one scanned test block.
struct Pieces {
    /// The file name.
    name: Vec<u8>,
    /// The WDL source.
    src: Vec<u8>,
    /// The input JSON text, if present.
    input: Option<Vec<u8>>,
    /// The output JSON text, if present.
    output: Option<Vec<u8>>,
    /// The configuration JSON text, if present.
    config: Option<Vec<u8>>,
}

impl Pieces {
    /// The raw fixture these pieces carry.
    spec fn raw(&self) -> RawFixture {
        RawFixture {
            name: self.name@,
            src: self.src@,
            input: match self.input {
                Some(b) => Some(b@),
                None => None,
            },
            output: match self.output {
                Some(b) => Some(b@),
                None => None,
            },
            config: match self.config {
                Some(b) => Some(b@),
                None => None,
            },
        }
    }
}

/// The first source-closing fence at or after `from`.
#[verifier::loop_isolation(false)]
fn src_end(s: &Vec<u8>, from: usize) -> (r: Option<usize>)
    requires
        from <= s@.len(),
    ensures
        match r {
            Some(v) => src_end_from(s@, from as int) == Some(v as int) && from <= v && v + 3
                <= s@.len(),
            None => src_end_from(s@, from as int) is None,
        },
{
    let slen: usize = s.len();
    proof {
        reveal_strlit("```");
        reveal_strlit("</summary>");
        assert("```".is_ascii());
        assert("</summary>".is_ascii());
        assert(s@.len() == slen as int);
    }
    let mut i: usize = from;
    loop
        invariant
            from <= i,
            src_end_from(s@, from as int) == src_end_from(s@, i as int),
        decreases s@.len() + 1 - i,
    {
        if i > s.len() || s.len() - i < 3 {
            return None;
        }
        if matches_ci(s, "```", i) {
            let u = skip_ws(s, i + 3);
            if matches_ci(s, "</summary>", u) {
                proof {
                    lemma_src_end_from(s@, i as int);
                }
                return Some(i);
            }
        }
        i += 1;
    }
}

/// Reads one optional labelled JSON block at position `z`.
fn opt_json(s: &Vec<u8>, label: &str, z: usize) -> (r: Option<(Option<Vec<u8>>, usize)>)
    requires
        label.is_ascii(),
        z <= s@.len(),
    ensures
        match r {
            Some(bz) => {
                &&& opt_json_block(s@, label@, z as int) matches Some(sz)
                &&& sz.1 == bz.1 as int
                &&& bz.1 <= s@.len()
                &&& (match bz.0 {
                    Some(b) => sz.0 == Some(b@),
                    None => sz.0 is None,
                })
            },
            None => opt_json_block(s@, label@, z as int) is None,
        },
{
    let slen: usize = s.len();
    proof {
        reveal_strlit("```json");
        reveal_strlit("```");
        assert("```json".is_ascii());
        assert("```".is_ascii());
        assert(s@.len() == slen as int);
    }
    if !matches_ci(s, label, z) {
        return Some((None, z));
    }
    let zi = skip_ws(s, z + label.as_bytes().len());
    if !matches_ci(s, "```json", zi) {
        return None;
    }
    let ie = match find_ci(s, "```", zi + 7) {
        Some(ie) => ie,
        None => {
            return None;
        },
    };
    proof {
        lemma_find_ci_from(s@, "```"@, zi as int + 7);
    }
    let text = subvec(s, zi + 7, ie);
    let nz = skip_ws(s, ie + 3);
    Some((Some(text), nz))
}

/// Tries to read a test block at position `p`; on success, its pieces and
/// the position just past the block.
fn try_test(s: &Vec<u8>, p: usize) -> (r: Option<(Pieces, usize)>)
    requires
        p < s@.len(),
    ensures
        match r {
            Some(m) => {
                &&& try_test_at(s@, p as int) matches Some(sm)
                &&& sm.0 == m.0.raw()
                &&& sm.1 == m.1 as int
            },
            None => try_test_at(s@, p as int) is None,
        },
{
    let slen: usize = s.len();
    proof {
        reveal_strlit("<details>");
        reveal_strlit("<summary>");
        reveal_strlit("Example: ");
        reveal_strlit("```wdl");
        reveal_strlit("```");
        reveal_strlit("</summary>");
        reveal_strlit("<p>");
        reveal_strlit("Example input:");
        reveal_strlit("Example output:");
        reveal_strlit("Test config:");
        reveal_strlit("</p>");
        reveal_strlit("</details>");
        assert("<details>".is_ascii());
        assert("<summary>".is_ascii());
        assert("Example: ".is_ascii());
        assert("```wdl".is_ascii());
        assert("</summary>".is_ascii());
        assert("<p>".is_ascii());
        assert("Example input:".is_ascii());
        assert("Example output:".is_ascii());
        assert("Test config:".is_ascii());
        assert("</p>".is_ascii());
        assert("</details>".is_ascii());
        assert(s@.len() == slen as int);
    }
    if !matches_ci(s, "<details>", p) {
        return None;
    }
    let q = skip_ws(s, p + 9);
    if !matches_ci(s, "<summary>", q) {
        return None;
    }
    let n0 = skip_ws(s, q + 9);
    if !matches_ci(s, "Example: ", n0) {
        return None;
    }
    let n1 = n0 + 9;
    if n1 >= s.len() {
        proof {
            lemma_find_ci_from(s@, "```wdl"@, n1 + 1);
        }
        return None;
    }
    let w = match find_ci(s, "```wdl", n1 + 1) {
        Some(w) => w,
        None => {
            return None;
        },
    };
    proof {
        lemma_find_ci_from(s@, "```wdl"@, n1 as int + 1);
    }
    let ne = trim_back_at(s, n1 + 1, w);
    if s.len() - w < 7 {
        return None;
    }
    let v = match src_end(s, w + 7) {
        Some(v) => v,
        None => {
            return None;
        },
    };
    proof {
        lemma_src_end_from(s@, w as int + 7);
    }
    let u = skip_ws(s, v + 3);
    let z = skip_ws(s, u + 10);
    let name = subvec(s, n1, w);
    let name = subvec(&name, 0, ne - n1);
    let src = subvec(s, w + 6, v);
    proof {
        assert(name@ =~= s@.subrange(n1 as int, ne as int));
    }
    if matches_ci(s, "<p>", z) {
        let z1 = skip_ws(s, z + 3);
        let b1 = match opt_json(s, "Example input:", z1) {
            Some(b) => b,
            None => {
                return None;
            },
        };
        let b2 = match opt_json(s, "Example output:", b1.1) {
            Some(b) => b,
            None => {
                return None;
            },
        };
        let b3 = match opt_json(s, "Test config:", b2.1) {
            Some(b) => b,
            None => {
                return None;
            },
        };
        if !matches_ci(s, "</p>", b3.1) {
            return None;
        }
        if b3.1 + 4 > s.len() {
            return None;
        }
        let z5 = skip_ws(s, b3.1 + 4);
        if !matches_ci(s, "</details>", z5) {
            return None;
        }
        let pieces = Pieces { name, src, input: b1.0, output: b2.0, config: b3.0 };
        proof {
            assert(pieces.raw() =~= try_test_at(s@, p as int).unwrap().0);
        }
        Some((pieces, z5 + 10))
    } else {
        if !matches_ci(s, "</details>", z) {
            return None;
        }
        let pieces = Pieces { name, src, input: None, output: None, config: None };
        proof {
            assert(pieces.raw() =~= try_test_at(s@, p as int).unwrap().0);
        }
        Some((pieces, z + 10))
    }
}

/// A configuration block that the compilation step rejected.
#[derive(Debug, Clone, PartialEq, Eq)]
pub enum ExtractError {
    /// The `Test config:` block is not JSON; the parser's description.
    ConfigSyntax(String),
    /// The `Test config:` block violates the configuration schema.
    ConfigSchema(ConfigError),
}

/// Whether a test block's configuration is acceptable: absent, or a
/// well-formed JSON document that the closed schema accepts.
pub open spec fn fixture_ok(rf: RawFixture) -> bool {
    match rf.config {
        None => true,
        Some(cb) => json_source_ok(cb) && spec_config_from(json_value_of(cb)) is Some,
    }
}

/// The JSON value an optional raw block denotes: absent, or absent where
/// the text is not well-formed JSON, else the parsed value.
pub open spec fn raw_json_view(b: Option<Seq<u8>>) -> Option<JsonView> {
    match b {
        None => None,
        Some(t) => if json_source_ok(t) {
            Some(json_value_of(t))
        } else {
            None
        },
    }
}

/// The configuration an optional raw block denotes: the default where
/// absent, else what its JSON value denotes under the closed schema.
pub open spec fn raw_config_view(b: Option<Seq<u8>>) -> ConfigView {
    match b {
        None => spec_default_config(),
        Some(t) => spec_config_from(json_value_of(t)).unwrap(),
    }
}

/// How a compiled test relates to the raw pieces of its block: the name and
/// source are taken as they stand; an input or output block that is not
/// well-formed JSON is discarded; the configuration is what its block
/// denotes, or the default when absent; nothing is resolved or written yet.
pub open spec fn test_matches_raw(t: TestView, rf: RawFixture) -> bool {
    &&& t.path is None
    &&& t.inferred_target is None
    &&& t.file_name == rf.name
    &&& t.src == rf.src
    &&& t.input == raw_json_view(rf.input)
    &&& t.output == raw_json_view(rf.output)
    &&& t.config == raw_config_view(rf.config)
}

/// A set of conformance tests.
#[derive(Debug)]
pub struct Tests(pub Vec<Test>);

impl Tests {
    /// Turns a markdown specification into a set of conformance tests, in
    /// order of appearance.
    ///
    /// Fails exactly when some test block carries a configuration that is
    /// not well-formed JSON or that the closed schema rejects; an input or
    /// output block that is not well-formed JSON is discarded silently.
    pub fn compile(contents: &Vec<u8>) -> (r: Result<Tests, ExtractError>)
        ensures
            match r {
                Ok(ts) => {
                    let raws = spec_tests_of(contents@);
                    &&& ts.0@.len() == raws.len()
                    &&& forall|k: int|
                        0 <= k < raws.len() ==> fixture_ok(#[trigger] raws[k]) && test_matches_raw(
                            ts.0@[k]@,
                            raws[k],
                        )
                },
                Err(_) => exists|k: int|
                    0 <= k < spec_tests_of(contents@).len() && !fixture_ok(
                        #[trigger] spec_tests_of(contents@)[k],
                    ),
            },
    {
        let mut acc: Vec<Test> = Vec::new();
        let ghost whole = scan_tests(contents@, 0);
        let ghost mut done = Seq::<RawFixture>::empty();
        let mut i: usize = 0;
        proof {
            assert(done + scan_tests(contents@, 0) =~= whole);
        }
        loop
            invariant
                0 <= i <= contents@.len(),
                whole == scan_tests(contents@, 0),
                done + scan_tests(contents@, i as int) =~= whole,
                acc@.len() == done.len(),
                forall|k: int|
                    0 <= k < done.len() ==> fixture_ok(#[trigger] done[k]) && test_matches_raw(
                        acc@[k]@,
                        done[k],
                    ),
            decreases contents@.len() - i,
        {
            if i >= contents.len() {
                proof {
                    assert(done =~= whole);
                }
                return Ok(Tests(acc));
            }
            match try_test(contents, i) {
                Some(m) => {
                    let pieces = m.0;
                    let ghost rf = pieces.raw();
                    proof {
                        lemma_try_test_bounds(contents@, i as int);
                        assert(scan_tests(contents@, i as int) == seq![rf] + scan_tests(
                            contents@,
                            m.1 as int,
                        ));
                        assert(scan_tests(contents@, i as int)[0] == rf);
                        assert(whole.len() > done.len());
                        assert(whole[done.len() as int] == rf);
                    }
                    let input: Option<Json> = match pieces.input {
                        Some(b) => match parse_json(&b) {
                            Ok(j) => Some(j),
                            Err(_) => None,
                        },
                        None => None,
                    };
                    let output: Option<Json> = match pieces.output {
                        Some(b) => match parse_json(&b) {
                            Ok(j) => Some(j),
                            Err(_) => None,
                        },
                        None => None,
                    };
                    let config: Config = match pieces.config {
                        Some(b) => match parse_json(&b) {
                            Ok(j) => match Config::from_json(&j) {
                                Ok(c) => c,
                                Err(e) => {
                                    proof {
                                        assert(!fixture_ok(
                                            spec_tests_of(contents@)[done.len() as int],
                                        ));
                                    }
                                    return Err(ExtractError::ConfigSchema(e));
                                },
                            },
                            Err(e) => {
                                proof {
                                    assert(!fixture_ok(
                                        spec_tests_of(contents@)[done.len() as int],
                                    ));
                                }
                                return Err(ExtractError::ConfigSyntax(e));
                            },
                        },
                        None => Config::default(),
                    };
                    let t = Test {
                        path: None,
                        file_name: pieces.name,
                        src: pieces.src,
                        input,
                        output,
                        config,
                        inferred_target: None,
                    };
                    proof {
                        assert(fixture_ok(rf));
                        assert(test_matches_raw(t@, rf));
                    }
                    acc.push(t);
                    proof {
                        done = done.push(rf);
                        assert(done + scan_tests(contents@, m.1 as int) =~= whole);
                    }
                    i = m.1;
                },
                None => {
                    i += 1;
                },
            }
        }
    }

    /// Returns a reference to the conformance tests.
    pub fn tests(&self) -> (r: &Vec<Test>)
        ensures
            r == &self.0,
    {
        &self.0
    }

    /// Returns a mutable reference to the conformance tests.
    pub fn tests_mut(&mut self) -> (r: &mut Vec<Test>)
        ensures
            *r == old(self).0,
            final(self).0 == *final(r),
    {
        &mut self.0
    }

    /// Consumes `self` and returns the conformance tests.
    pub fn into_tests(self) -> (r: Vec<Test>)
        ensures
            r == self.0,
    {
        self.0
    }
}

} // verus!

//! Compiling the conformance test suite into a ready-to-run plan.
//!
//! Compilation extracts the resources and test blocks, resolves each test's
//! target, rejects duplicate file names, rewrites the `version` line when a
//! replacement is requested, and plans every file the suite needs on disk;
//! the caller performs the writes. Compilation is all-or-nothing: any
//! failing fixture aborts it.

use vstd::prelude::*;

use crate::config::spec_config_from;
use crate::json::{json_source_ok, json_value_of, JsonView};
use crate::resource::{spec_resources, RawResource, Resources};
use crate::scan::{
    append_bytes, append_lit, is_ws, lit_bytes, matches_at, matches_cs, skip_ws, skip_ws_from,
    subvec, ws_byte,
};
use crate::test::{
    fixture_ok, raw_config_view, raw_json_view, spec_resolve, spec_tests_of, test_matches_raw,
    ExtractError, RawFixture, ResolveError, ResolveErrorView, Test, TestView, Tests,
};
use crate::wdl::{bol_ws, spec_tasks, spec_workflow};

verus! {

broadcast use vstd::std_specs::vec::group_vec_axioms;

/// The first position at or after `i` holding a byte that is whitespace (or
/// the end of `s`).
pub open spec fn nonws_end_from(s: Seq<u8>, i: int) -> int
    decreases s.len() - i,
{
    if i < 0 {
        i
    } else if i >= s.len() {
        s.len() as int
    } else if !is_ws(s[i]) {
        nonws_end_from(s, i + 1)
    } else {
        i
    }
}

/// Bounds of the non-whitespace run.
pub proof fn lemma_nonws_end_from(s: Seq<u8>, i: int)
    requires
        0 <= i <= s.len(),
    ensures
        i <= nonws_end_from(s, i) <= s.len(),
    decreases s.len() - i,
{
    if i < s.len() && !is_ws(s[i]) {
        lemma_nonws_end_from(s, i + 1);
    }
}

/// A `version` declaration stands at `j`: the keyword at the start of a line
/// (up to whitespace), then whitespace and a non-empty version token.
pub open spec fn version_match_at(s: Seq<u8>, j: int) -> bool {
    &&& bol_ws(s, j)
    &&& matches_at(s, "version"@, j)
    &&& j + 7 < s.len()
    &&& is_ws(s[j + 7])
    &&& {
        let k = skip_ws_from(s, j + 7);
        k < s.len() && !is_ws(s[k])
    }
}

/// The first `version` declaration at or after `i`, if any.
pub open spec fn first_version_from(s: Seq<u8>, i: int) -> Option<int>
    decreases s.len() - i,
{
    if i < 0 || i >= s.len() {
        None
    } else if version_match_at(s, i) {
        Some(i)
    } else {
        first_version_from(s, i + 1)
    }
}

/// The source with its first `version` declaration's value replaced by `v`;
/// a source without one is unchanged.
pub open spec fn spec_inject_version(s: Seq<u8>, v: Seq<u8>) -> Seq<u8> {
    match first_version_from(s, 0) {
        None => s,
        Some(j) => {
            let e = nonws_end_from(s, skip_ws_from(s, j + 7));
            s.subrange(0, j) + lit_bytes("version "@) + v + s.subrange(e, s.len() as int)
        },
    }
}

/// Replaces the value of the first `version` declaration in `src` with
/// `version`; a source without one is returned unchanged.
#[verifier::loop_isolation(false)]
pub fn inject_version(src: &Vec<u8>, version: &Vec<u8>) -> (r: Vec<u8>)
    ensures
        r@ == spec_inject_version(src@, version@),
{
    proof {
        reveal_strlit("version");
        reveal_strlit("version ");
        assert("version".is_ascii());
        assert("version ".is_ascii());
    }
    let mut i: usize = 0;
    let mut bw: bool = true;
    loop
        invariant
            0 <= i <= src@.len(),
            bw == bol_ws(src@, i as int),
            first_version_from(src@, 0) == first_version_from(src@, i as int),
        decreases src@.len() - i,
    {
        if i >= src.len() {
            let r = subvec(src, 0, src.len());
            proof {
                assert(r@ =~= spec_inject_version(src@, version@));
            }
            return r;
        }
        if bw && matches_cs(src, "version", i) && i + 7 < src.len() && ws_byte(src[i + 7]) {
            let k = skip_ws(src, i + 7);
            if k < src.len() && !ws_byte(src[k]) {
                proof {
                    lemma_nonws_end_from(src@, k as int);
                }
                let mut e: usize = k;
                while e < src.len() && !ws_byte(src[e])
                    invariant
                        k <= e <= src@.len(),
                        nonws_end_from(src@, k as int) == nonws_end_from(src@, e as int),
                    decreases src@.len() - e,
                {
                    e += 1;
                }
                let mut out = subvec(src, 0, i);
                append_lit(&mut out, "version ");
                append_bytes(&mut out, version);
                let tail = subvec(src, e, src.len());
                let mut tc = tail;
                out.append(&mut tc);
                proof {
                    assert(version_match_at(src@, i as int));
                    assert(out@ =~= spec_inject_version(src@, version@));
                }
                return out;
            }
        }
        let c = src[i];
        bw = if c == 10 {
            true
        } else if ws_byte(c) {
            bw
        } else {
            false
        };
        i += 1;
    }
}

/// One file the compiled suite needs on disk.
#[derive(Debug, Clone, PartialEq, Eq)]
pub struct FileWrite {
    /// Where the file goes.
    pub path: Vec<u8>,
    /// What it holds.
    pub contents: Vec<u8>,
}

/// The mathematical value of a [`FileWrite`].
#[verifier::ext_equal]
pub struct FileWriteView {
    /// Where the file goes.
    pub path: Seq<u8>,
    /// What it holds.
    pub contents: Seq<u8>,
}

impl View for FileWrite {
    type V = FileWriteView;

    open spec fn view(&self) -> FileWriteView {
        FileWriteView { path: self.path@, contents: self.contents@ }
    }
}

/// Why compiling the suite failed.
#[derive(Debug, Clone, PartialEq, Eq)]
pub enum CompileError {
    /// A test block could not be extracted.
    Extract(ExtractError),
    /// A test's target could not be resolved; which test, and why.
    Resolve(Vec<u8>, ResolveError),
    /// Two resources bear this file name.
    DuplicateResource(Vec<u8>),
    /// Two tests bear this file name.
    DuplicateTest(Vec<u8>),
}

/// How a compiled test relates to the raw pieces of its block: as extracted
/// ([`test_matches_raw`]), except that its target is resolved and its path
/// is set under the suite's root directory.
pub open spec fn compiled_test_ok(t: TestView, rf: RawFixture, root: Seq<u8>) -> bool {
    &&& t.file_name == rf.name
    &&& t.src == rf.src
    &&& t.input == raw_json_view(rf.input)
    &&& t.output == raw_json_view(rf.output)
    &&& t.config == raw_config_view(rf.config)
    &&& t.path == Some(root + lit_bytes("/"@) + rf.name)
    &&& spec_resolve(
        spec_workflow(rf.src),
        spec_tasks(rf.src),
        raw_json_view(rf.input),
        raw_config_view(rf.config).target,
    ) matches Ok(tv) && t.inferred_target == Some(tv)
}

/// The contents written for a test: its source, with the `version` line
/// rewritten when a replacement is requested.
pub open spec fn written_src(src: Seq<u8>, inject: Option<Seq<u8>>) -> Seq<u8> {
    match inject {
        None => src,
        Some(v) => spec_inject_version(src, v),
    }
}

/// A runner for conformance tests.
#[derive(Debug)]
pub struct Runner {
    /// The root directory of the conformance test suite.
    pub root_dir: Vec<u8>,
    /// The conformance tests to execute.
    pub tests: Tests,
}

impl Runner {
    /// Gets the root directory.
    pub fn root_dir(&self) -> (r: &Vec<u8>)
        ensures
            r == &self.root_dir,
    {
        &self.root_dir
    }

    /// Gets the tests within the runner.
    pub fn tests(&self) -> (r: &Vec<Test>)
        ensures
            r == &self.tests.0,
    {
        &self.tests.0
    }

    /// Compiles conformance tests from a markdown specification.
    ///
    /// Extracts the resources and tests, resolves every test's target,
    /// rejects duplicate resource and test file names, and returns the
    /// runner together with every file the suite needs under `root_dir`:
    /// first each resource under its `data/` path, then each test source
    /// (rewritten to `inject_wdl_version` if one is given). Any failure
    /// aborts the whole compilation.
    pub fn compile(
        root_dir: Vec<u8>,
        contents: &Vec<u8>,
        inject_wdl_version: Option<&Vec<u8>>,
    ) -> (r: Result<(Runner, Vec<FileWrite>), CompileError>)
        ensures
            ({
                let rs = spec_resources(contents@);
                let ts = spec_tests_of(contents@);
                let inj = match inject_wdl_version {
                    Some(v) => Some(v@),
                    None => None,
                };
                match r {
                    Ok(p) => {
                        &&& p.0.root_dir@ == root_dir@
                        &&& p.0.tests.0@.len() == ts.len()
                        &&& forall|k: int|
                            0 <= k < ts.len() ==> compiled_test_ok(
                                #[trigger] p.0.tests.0@[k]@,
                                ts[k],
                                root_dir@,
                            )
                        &&& forall|a: int, b: int|
                            0 <= a < b < rs.len() ==> (#[trigger] rs[a]).name != (
                            #[trigger] rs[b]).name
                        &&& forall|a: int, b: int|
                            0 <= a < b < ts.len() ==> (#[trigger] ts[a]).name != (
                            #[trigger] ts[b]).name
                        &&& p.1@.len() == rs.len() + ts.len()
                        &&& forall|k: int|
                            0 <= k < rs.len() ==> (#[trigger] p.1@[k])@ == (FileWriteView {
                                path: root_dir@ + lit_bytes("/data/"@) + rs[k].name,
                                contents: rs[k].content,
                            })
                        &&& forall|k: int|
                            0 <= k < ts.len() ==> (#[trigger] p.1@[rs.len() + k])@
                                == (FileWriteView {
                                path: root_dir@ + lit_bytes("/"@) + ts[k].name,
                                contents: written_src(ts[k].src, inj),
                            })
                    },
                    Err(e) => match e {
                        CompileError::Extract(_) => exists|k: int|
                            0 <= k < ts.len() && !fixture_ok(#[trigger] ts[k]),
                        CompileError::Resolve(f, err) => exists|k: int|
                            0 <= k < ts.len() && (#[trigger] ts[k]).name == f@ && fixture_ok(
                                ts[k],
                            ) && spec_resolve(
                                spec_workflow(ts[k].src),
                                spec_tasks(ts[k].src),
                                raw_json_view(ts[k].input),
                                raw_config_view(ts[k].config).target,
                            ) == Err::<crate::wdl::TargetView, _>(err@),
                        CompileError::DuplicateResource(n) => exists|a: int, b: int|
                            0 <= a < b < rs.len() && (#[trigger] rs[a]).name == (
                            #[trigger] rs[b]).name && rs[b].name == n@,
                        CompileError::DuplicateTest(n) => exists|a: int, b: int|
                            0 <= a < b < ts.len() && (#[trigger] ts[a]).name == (
                            #[trigger] ts[b]).name && ts[b].name == n@,
                    },
                }
            }),
    {
        let ghost rsv = spec_resources(contents@);
        let ghost tsv = spec_tests_of(contents@);
        let resources = Resources::compile(contents);
        let mut writes: Vec<FileWrite> = Vec::new();
        let mut seen: Vec<Vec<u8>> = Vec::new();
        let mut i: usize = 0;
        proof {
            reveal_strlit("/data/");
            reveal_strlit("/");
            assert("/data/".is_ascii());
            assert("/".is_ascii());
        }
        while i < resources.0.len()
            invariant
                rsv == spec_resources(contents@),
                resources.0@.len() == rsv.len(),
                forall|k: int|
                    0 <= k < rsv.len() ==> (#[trigger] resources.0@[k])@.name == rsv[k].name
                        && resources.0@[k]@.content == rsv[k].content,
                0 <= i <= rsv.len(),
                seen@.len() == i,
                forall|k: int| 0 <= k < i ==> (#[trigger] seen@[k])@ == rsv[k].name,
                forall|a: int, b: int|
                    0 <= a < b < i ==> (#[trigger] rsv[a]).name != (#[trigger] rsv[b]).name,
                writes@.len() == i,
                forall|k: int|
                    0 <= k < i ==> (#[trigger] writes@[k])@ == (FileWriteView {
                        path: root_dir@ + lit_bytes("/data/"@) + rsv[k].name,
                        contents: rsv[k].content,
                    }),
            decreases rsv.len() - i,
        {
            proof {
                reveal_strlit("/data/");
                assert("/data/".is_ascii());
                crate::scan::lemma_names_deep_view(&seen);
            }
            let name = resources.0[i].filename();
            if crate::test::names_contain(&seen, name) {
                proof {
                    let a = choose|a: int|
                        0 <= a < i && seen.deep_view()[a as int] == name@;
                    assert(seen.deep_view()[a] == seen@[a]@);
                    assert(rsv[a].name == name@);
                    assert(rsv[i as int].name == name@);
                }
                return Err(CompileError::DuplicateResource(subvec(name, 0, name.len())));
            }
            proof {
                assert forall|a: int| 0 <= a < i implies (#[trigger] rsv[a]).name != rsv[
                    i as int
                ].name by {
                    assert(seen.deep_view()[a] == seen@[a]@);
                }
            }
            let mut path = subvec(&root_dir, 0, root_dir.len());
            append_lit(&mut path, "/data/");
            append_bytes(&mut path, name);
            let fw = FileWrite { path, contents: subvec(resources.0[i].src(), 0, resources.0[i].src().len()) };
            proof {
                assert(fw@.path =~= root_dir@ + lit_bytes("/data/"@) + rsv[i as int].name);
                assert(fw@.contents =~= rsv[i as int].content);
            }
            writes.push(fw);
            seen.push(subvec(name, 0, name.len()));
            i += 1;
        }
        let ts = match Tests::compile(contents) {
            Ok(t) => t,
            Err(e) => {
                return Err(CompileError::Extract(e));
            },
        };
        let mut rem = ts.0;
        let mut done: Vec<Test> = Vec::new();
        let mut seen_t: Vec<Vec<u8>> = Vec::new();
        let ghost nr = rsv.len() as int;
        proof {
            assert(rem@.subrange(0, rem@.len() as int) =~= rem@);
        }
        while rem.len() > 0
            invariant
                rsv == spec_resources(contents@),
                tsv == spec_tests_of(contents@),
                done@.len() + rem@.len() == tsv.len(),
                forall|k: int|
                    0 <= k < rem@.len() ==> fixture_ok(#[trigger] tsv[done@.len() + k])
                        && test_matches_raw(rem@[k]@, tsv[done@.len() + k]),
                forall|k: int|
                    0 <= k < done@.len() ==> compiled_test_ok(
                        #[trigger] done@[k]@,
                        tsv[k],
                        root_dir@,
                    ),
                seen_t@.len() == done@.len(),
                forall|k: int| 0 <= k < done@.len() ==> (#[trigger] seen_t@[k])@ == tsv[k].name,
                forall|a: int, b: int|
                    0 <= a < b < done@.len() ==> (#[trigger] tsv[a]).name != (
                    #[trigger] tsv[b]).name,
                nr == rsv.len() as int,
                writes@.len() == nr + done@.len(),
                forall|k: int|
                    0 <= k < nr ==> (#[trigger] writes@[k])@ == (FileWriteView {
                        path: root_dir@ + lit_bytes("/data/"@) + rsv[k].name,
                        contents: rsv[k].content,
                    }),
                forall|k: int|
                    0 <= k < done@.len() ==> (#[trigger] writes@[nr + k])@ == (FileWriteView {
                        path: root_dir@ + lit_bytes("/"@) + tsv[k].name,
                        contents: written_src(
                            tsv[k].src,
                            match inject_wdl_version {
                                Some(v) => Some(v@),
                                None => None,
                            },
                        ),
                    }),
            decreases rem@.len(),
        {
            proof {
                reveal_strlit("/");
                assert("/".is_ascii());
                crate::scan::lemma_names_deep_view(&seen_t);
                assert(fixture_ok(tsv[done@.len() as int + 0]) && test_matches_raw(
                    rem@[0]@,
                    tsv[done@.len() as int + 0],
                ));
            }
            let ghost ix = done@.len() as int;
            let ghost old_rem = rem@;
            let mut t = rem.remove(0);
            proof {
                assert(rem@ =~= old_rem.subrange(1, old_rem.len() as int));
            }
            proof {
                assert(fixture_ok(tsv[ix]));
                assert(test_matches_raw(t@, tsv[ix]));
            }
            if crate::test::names_contain(&seen_t, &t.file_name) {
                proof {
                    let a = choose|a: int|
                        0 <= a < ix && seen_t.deep_view()[a as int] == t.file_name@;
                    assert(seen_t.deep_view()[a] == seen_t@[a]@);
                    assert(tsv[a].name == t.file_name@);
                    assert(tsv[ix].name == t.file_name@);
                }
                return Err(CompileError::DuplicateTest(subvec(&t.file_name, 0, t.file_name.len())));
            }
            proof {
                assert forall|a: int| 0 <= a < ix implies (#[trigger] tsv[a]).name != tsv[
                    ix
                ].name by {
                    assert(seen_t.deep_view()[a] == seen_t@[a]@);
                }
            }
            match t.infer_and_validate_target() {
                Ok(_) => {},
                Err(e) => {
                    proof {
                        assert(tsv[ix].name == t.file_name@);
                        assert(raw_json_view(tsv[ix].input) == t@.input);
                        assert(raw_config_view(tsv[ix].config) == t@.config);
                        assert(spec_resolve(
                            spec_workflow(tsv[ix].src),
                            spec_tasks(tsv[ix].src),
                            raw_json_view(tsv[ix].input),
                            raw_config_view(tsv[ix].config).target,
                        ) == Err::<crate::wdl::TargetView, ResolveErrorView>(e@));
                    }
                    let name = subvec(&t.file_name, 0, t.file_name.len());
                    return Err(CompileError::Resolve(name, e));
                },
            }
            let mut path = subvec(&root_dir, 0, root_dir.len());
            append_lit(&mut path, "/");
            append_bytes(&mut path, &t.file_name);
            let wsrc: Vec<u8> = match inject_wdl_version {
                Some(v) => inject_version(&t.src, v),
                None => subvec(&t.src, 0, t.src.len()),
            };
            let fw = FileWrite { path: subvec(&path, 0, path.len()), contents: wsrc };
            proof {
                assert(fw@.path =~= root_dir@ + lit_bytes("/"@) + tsv[ix].name);
                assert(path@ =~= root_dir@ + lit_bytes("/"@) + tsv[ix].name);
            }
            writes.push(fw);
            seen_t.push(subvec(&t.file_name, 0, t.file_name.len()));
            t.set_path(path);
            proof {
                assert(raw_json_view(tsv[ix].input) == t@.input);
                assert(raw_config_view(tsv[ix].config) == t@.config);
                assert(compiled_test_ok(t@, tsv[ix], root_dir@));
            }
            done.push(t);
            proof {
                assert forall|k: int|
                    0 <= k < rem@.len() implies fixture_ok(
                    #[trigger] tsv[done@.len() as int + k],
                ) && test_matches_raw(rem@[k]@, tsv[done@.len() as int + k]) by {
                    assert(rem@[k] == old_rem[k + 1]);
                    assert(fixture_ok(tsv[ix + (k + 1)]) && test_matches_raw(
                        old_rem[k + 1]@,
                        tsv[ix + (k + 1)],
                    ));
                }
            }
        }
        let runner = Runner { root_dir, tests: Tests(done) };
        Ok((runner, writes))
    }
}

} // verus!

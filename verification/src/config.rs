//! Configuration for conformance tests.
//!
//! The configuration schema is closed: an object with any key outside the
//! seven known ones, or a known key holding a value of the wrong shape, is
//! rejected outright.

use vstd::prelude::*;

use crate::json::{json_view, Json, JsonNum, JsonView, NumView};
use crate::scan::str_eq_str;

verus! {

/// A tag associated with a conformance test.
#[derive(Debug, Clone, Copy, PartialEq, Eq, Structural)]
pub enum Tag {
    /// Test is for deprecated functionality.
    Deprecated,
}

/// A capability required by a conformance test.
#[derive(Debug, Clone, Copy, PartialEq, Eq, Structural)]
pub enum Capability {
    /// Requires specific CPU resources.
    Cpu,
    /// Requires specific memory resources.
    Memory,
    /// Requires GPU hardware.
    Gpu,
    /// Requires specific disk resources.
    Disks,
    /// Allows setting nested workflow/task inputs at runtime.
    AllowNestedInputs,
}

impl Capability {
    /// The configuration spelling of the capability.
    pub open spec fn spec_str(&self) -> Seq<char> {
        match self {
            Capability::Cpu => "cpu"@,
            Capability::Memory => "memory"@,
            Capability::Gpu => "gpu"@,
            Capability::Disks => "disks"@,
            Capability::AllowNestedInputs => "allow_nested_inputs"@,
        }
    }

    /// Gets the configuration spelling of the capability.
    pub fn as_str(&self) -> (r: &'static str)
        ensures
            r@ == self.spec_str(),
    {
        match self {
            Capability::Cpu => "cpu",
            Capability::Memory => "memory",
            Capability::Gpu => "gpu",
            Capability::Disks => "disks",
            Capability::AllowNestedInputs => "allow_nested_inputs",
        }
    }
}

/// The expected return code(s) for a conformance test.
#[derive(Debug, Clone, PartialEq, Eq)]
pub enum ReturnCode {
    /// Any return code is allowed.
    Any,
    /// A single expected return code.
    Single(i32),
    /// Multiple possible return codes.
    Multiple(Vec<i32>),
}

/// The mathematical value of a [`ReturnCode`].
#[verifier::ext_equal]
pub enum ReturnCodeView {
    /// Any return code is allowed.
    Any,
    /// A single expected return code.
    Single(int),
    /// Multiple possible return codes.
    Multiple(Seq<int>),
}

impl View for ReturnCode {
    type V = ReturnCodeView;

    open spec fn view(&self) -> ReturnCodeView {
        match self {
            ReturnCode::Any => ReturnCodeView::Any,
            ReturnCode::Single(n) => ReturnCodeView::Single(*n as int),
            ReturnCode::Multiple(v) => ReturnCodeView::Multiple(
                Seq::new(v@.len(), |i: int| v@[i] as int),
            ),
        }
    }
}

/// A configuration for a conformance test.
#[derive(Debug, Clone, PartialEq, Eq)]
pub struct Config {
    /// The target workflow or task to execute.
    ///
    /// This field may only be given when there are multiple tasks and no
    /// input JSON; it must not be given when the target can be inferred.
    pub target: Option<String>,
    /// Whether to skip this test entirely.
    pub ignore: bool,
    /// Whether the test is expected to fail.
    pub fail: bool,
    /// The expected return code(s).
    pub return_code: ReturnCode,
    /// Output keys to ignore when validating.
    pub exclude_outputs: Vec<String>,
    /// Runtime capabilities required by the test.
    pub capabilities: Vec<Capability>,
    /// Tags associated with the test.
    pub tags: Vec<Tag>,
}

/// The mathematical value of a [`Config`].
#[verifier::ext_equal]
pub struct ConfigView {
    /// The explicit target, if any.
    pub target: Option<Seq<char>>,
    /// Whether to skip the test.
    pub ignore: bool,
    /// Whether the test is expected to fail.
    pub fail: bool,
    /// The expected return code(s).
    pub return_code: ReturnCodeView,
    /// Output keys to ignore when validating.
    pub exclude_outputs: Seq<Seq<char>>,
    /// Required capabilities.
    pub capabilities: Seq<Capability>,
    /// Tags.
    pub tags: Seq<Tag>,
}

impl View for Config {
    type V = ConfigView;

    open spec fn view(&self) -> ConfigView {
        ConfigView {
            target: match self.target {
                Some(t) => Some(t@),
                None => None,
            },
            ignore: self.ignore,
            fail: self.fail,
            return_code: self.return_code@,
            exclude_outputs: self.exclude_outputs.deep_view(),
            capabilities: self.capabilities@,
            tags: self.tags@,
        }
    }
}

/// The configuration that an absent or empty `Test config:` block denotes.
pub open spec fn spec_default_config() -> ConfigView {
    ConfigView {
        target: None,
        ignore: false,
        fail: false,
        return_code: ReturnCodeView::Any,
        exclude_outputs: Seq::empty(),
        capabilities: Seq::empty(),
        tags: Seq::empty(),
    }
}

impl Default for Config {
    /// The default configuration: nothing requested, any return code.
    fn default() -> (r: Config)
        ensures
            r@ == spec_default_config(),
    {
        let r = Config {
            target: None,
            ignore: false,
            fail: false,
            return_code: ReturnCode::Any,
            exclude_outputs: Vec::new(),
            capabilities: Vec::new(),
            tags: Vec::new(),
        };
        proof {
            assert(r@.exclude_outputs =~= Seq::<Seq<char>>::empty());
            assert(r@.capabilities =~= Seq::<Capability>::empty());
            assert(r@.tags =~= Seq::<Tag>::empty());
        }
        r
    }
}

/// The index of the first pair whose key is `name`, searching from `i`.
pub open spec fn field_index_from(
    pairs: Seq<(Seq<char>, JsonView)>,
    name: Seq<char>,
    i: int,
) -> Option<int>
    decreases pairs.len() - i,
{
    if i < 0 || i >= pairs.len() {
        None
    } else if pairs[i].0 == name {
        Some(i)
    } else {
        field_index_from(pairs, name, i + 1)
    }
}

/// The value of the field `name`, if present.
pub open spec fn spec_field(pairs: Seq<(Seq<char>, JsonView)>, name: Seq<char>) -> Option<
    JsonView,
> {
    match field_index_from(pairs, name, 0) {
        Some(k) => Some(pairs[k].1),
        None => None,
    }
}

/// The keys the configuration schema knows.
pub open spec fn known_key(k: Seq<char>) -> bool {
    ||| k == "target"@
    ||| k == "ignore"@
    ||| k == "fail"@
    ||| k == "return_code"@
    ||| k == "exclude_outputs"@
    ||| k == "capabilities"@
    ||| k == "tags"@
}

/// What the `target` field denotes: a string (or null for absence), else
/// ill-formed.
pub open spec fn spec_target_field(v: JsonView) -> Option<Option<Seq<char>>> {
    match v {
        JsonView::Str(s) => Some(Some(s)),
        JsonView::Null => Some(None),
        _ => None,
    }
}

/// What a boolean field denotes, else ill-formed.
pub open spec fn spec_bool_field(v: JsonView) -> Option<bool> {
    match v {
        JsonView::Bool(b) => Some(b),
        _ => None,
    }
}

/// What a single return code denotes: an integer in 32-bit signed range.
pub open spec fn spec_code_item(v: JsonView) -> Option<int> {
    match v {
        JsonView::Num(NumView::Int(n)) => if i32::MIN as int <= n <= i32::MAX as int {
            Some(n)
        } else {
            None
        },
        _ => None,
    }
}

/// What the `return_code` field denotes: `"*"`, one code, or a list of
/// codes.
pub open spec fn spec_return_code_field(v: JsonView) -> Option<ReturnCodeView> {
    match v {
        JsonView::Str(s) => if s == "*"@ {
            Some(ReturnCodeView::Any)
        } else {
            None
        },
        JsonView::Num(_) => match spec_code_item(v) {
            Some(n) => Some(ReturnCodeView::Single(n)),
            None => None,
        },
        JsonView::Arr(elems) => if forall|i: int|
            0 <= i < elems.len() ==> spec_code_item(#[trigger] elems[i]) is Some {
            Some(
                ReturnCodeView::Multiple(
                    Seq::new(elems.len(), |i: int| spec_code_item(elems[i]).unwrap()),
                ),
            )
        } else {
            None
        },
        _ => None,
    }
}

/// What a list-of-strings field denotes, else ill-formed.
pub open spec fn spec_strings_field(v: JsonView) -> Option<Seq<Seq<char>>> {
    match v {
        JsonView::Arr(elems) => if forall|i: int|
            0 <= i < elems.len() ==> (#[trigger] elems[i]) is Str {
            Some(Seq::new(elems.len(), |i: int| elems[i]->Str_0))
        } else {
            None
        },
        _ => None,
    }
}

/// The capability a configuration string denotes.
pub open spec fn spec_capability_of(s: Seq<char>) -> Option<Capability> {
    if s == "cpu"@ {
        Some(Capability::Cpu)
    } else if s == "memory"@ {
        Some(Capability::Memory)
    } else if s == "gpu"@ {
        Some(Capability::Gpu)
    } else if s == "disks"@ {
        Some(Capability::Disks)
    } else if s == "allow_nested_inputs"@ {
        Some(Capability::AllowNestedInputs)
    } else {
        None
    }
}

/// What the `capabilities` field denotes, else ill-formed.
pub open spec fn spec_capabilities_field(v: JsonView) -> Option<Seq<Capability>> {
    match v {
        JsonView::Arr(elems) => if forall|i: int|
            0 <= i < elems.len() ==> (#[trigger] elems[i]) is Str && spec_capability_of(
                elems[i]->Str_0,
            ) is Some {
            Some(Seq::new(elems.len(), |i: int| spec_capability_of(elems[i]->Str_0).unwrap()))
        } else {
            None
        },
        _ => None,
    }
}

/// The tag a configuration string denotes.
pub open spec fn spec_tag_of(s: Seq<char>) -> Option<Tag> {
    if s == "deprecated"@ {
        Some(Tag::Deprecated)
    } else {
        None
    }
}

/// What the `tags` field denotes, else ill-formed.
pub open spec fn spec_tags_field(v: JsonView) -> Option<Seq<Tag>> {
    match v {
        JsonView::Arr(elems) => if forall|i: int|
            0 <= i < elems.len() ==> (#[trigger] elems[i]) is Str && spec_tag_of(
                elems[i]->Str_0,
            ) is Some {
            Some(Seq::new(elems.len(), |i: int| spec_tag_of(elems[i]->Str_0).unwrap()))
        } else {
            None
        },
        _ => None,
    }
}

/// The configuration a JSON value denotes under the closed schema, or
/// nothing if the value is rejected: not an object, an unknown key, or a
/// known key holding the wrong shape of value. An absent field denotes its
/// default.
pub open spec fn spec_config_from(j: JsonView) -> Option<ConfigView> {
    match j {
        JsonView::Obj(pairs) => {
            if !(forall|i: int| 0 <= i < pairs.len() ==> known_key(#[trigger] pairs[i].0)) {
                None
            } else {
                let target = match spec_field(pairs, "target"@) {
                    Some(v) => spec_target_field(v),
                    None => Some(None),
                };
                let ignore = match spec_field(pairs, "ignore"@) {
                    Some(v) => spec_bool_field(v),
                    None => Some(false),
                };
                let fail = match spec_field(pairs, "fail"@) {
                    Some(v) => spec_bool_field(v),
                    None => Some(false),
                };
                let return_code = match spec_field(pairs, "return_code"@) {
                    Some(v) => spec_return_code_field(v),
                    None => Some(ReturnCodeView::Any),
                };
                let exclude_outputs = match spec_field(pairs, "exclude_outputs"@) {
                    Some(v) => spec_strings_field(v),
                    None => Some(Seq::empty()),
                };
                let capabilities = match spec_field(pairs, "capabilities"@) {
                    Some(v) => spec_capabilities_field(v),
                    None => Some(Seq::empty()),
                };
                let tags = match spec_field(pairs, "tags"@) {
                    Some(v) => spec_tags_field(v),
                    None => Some(Seq::empty()),
                };
                if target is Some && ignore is Some && fail is Some && return_code is Some
                    && exclude_outputs is Some && capabilities is Some && tags is Some {
                    Some(
                        ConfigView {
                            target: target.unwrap(),
                            ignore: ignore.unwrap(),
                            fail: fail.unwrap(),
                            return_code: return_code.unwrap(),
                            exclude_outputs: exclude_outputs.unwrap(),
                            capabilities: capabilities.unwrap(),
                            tags: tags.unwrap(),
                        },
                    )
                } else {
                    None
                }
            }
        },
        _ => None,
    }
}

/// A rejected configuration, with the parser's description of the problem.
#[derive(Debug, Clone, PartialEq, Eq)]
pub struct ConfigError {
    /// What was wrong with the configuration.
    pub message: String,
}

impl Config {
    /// Gets the target workflow or task name.
    pub fn target(&self) -> (r: Option<&String>)
        ensures
            match r {
                Some(t) => self@.target == Some(t@),
                None => self@.target is None,
            },
    {
        match &self.target {
            Some(t) => Some(t),
            None => None,
        }
    }

    /// Returns whether this test should be ignored.
    pub fn ignore(&self) -> (r: bool)
        ensures
            r == self@.ignore,
    {
        self.ignore
    }

    /// Returns whether this test is expected to fail.
    pub fn fail(&self) -> (r: bool)
        ensures
            r == self@.fail,
    {
        self.fail
    }

    /// Gets the expected return code(s).
    pub fn return_code(&self) -> (r: &ReturnCode)
        ensures
            r@ == self@.return_code,
    {
        &self.return_code
    }

    /// Gets the output keys to exclude from validation.
    pub fn exclude_outputs(&self) -> (r: &Vec<String>)
        ensures
            r@ == self.exclude_outputs@,
    {
        &self.exclude_outputs
    }

    /// Gets the required capabilities.
    pub fn capabilities(&self) -> (r: &Vec<Capability>)
        ensures
            r@ == self@.capabilities,
    {
        &self.capabilities
    }

    /// Gets the tags associated with the test.
    pub fn tags(&self) -> (r: &Vec<Tag>)
        ensures
            r@ == self@.tags,
    {
        &self.tags
    }

    /// Reads a configuration from a parsed JSON value under the closed
    /// schema: succeeds exactly when the schema accepts the value, and then
    /// returns the configuration the value denotes.
    pub fn from_json(j: &Json) -> (r: Result<Config, ConfigError>)
        ensures
            match r {
                Ok(c) => spec_config_from(j@) == Some(c@),
                Err(_) => spec_config_from(j@) is None,
            },
    {
        let pairs = match j {
            Json::Obj(pairs) => pairs,
            _ => {
                return Err(config_error("test configuration must be a JSON object"));
            },
        };
        let ghost pv = j@->Obj_0;
        proof {
            assert(pv.len() == pairs@.len());
            assert(forall|i: int|
                0 <= i < pairs@.len() ==> pv[i] == (pairs@[i].0@, crate::json::json_view(
                    pairs@[i].1,
                )));
        }
        let mut i: usize = 0;
        while i < pairs.len()
            invariant
                j@ == JsonView::Obj(pv),
                pv.len() == pairs@.len(),
                forall|k: int|
                    0 <= k < pairs@.len() ==> pv[k] == (pairs@[k].0@, crate::json::json_view(
                        pairs@[k].1,
                    )),
                forall|k: int| 0 <= k < i ==> known_key(#[trigger] pv[k].0),
            decreases pairs@.len() - i,
        {
            let k = &pairs[i].0;
            if !(str_eq_str(k.as_str(), "target") || str_eq_str(k.as_str(), "ignore")
                || str_eq_str(k.as_str(), "fail") || str_eq_str(k.as_str(), "return_code")
                || str_eq_str(k.as_str(), "exclude_outputs") || str_eq_str(
                k.as_str(),
                "capabilities",
            ) || str_eq_str(k.as_str(), "tags")) {
                proof {
                    assert(!known_key(pv[i as int].0));
                    assert(spec_config_from(j@) is None);
                }
                return Err(config_error("unknown field in test configuration"));
            }
            i += 1;
        }
        let target: Option<String> = match find_field(pairs, "target", Ghost(pv)) {
            Some(v) => match v {
                Json::Str(s) => Some(s.clone()),
                Json::Null => None,
                _ => {
                    return Err(config_error("`target` must be a string"));
                },
            },
            None => None,
        };
        let ignore: bool = match find_field(pairs, "ignore", Ghost(pv)) {
            Some(v) => match v {
                Json::Bool(b) => *b,
                _ => {
                    return Err(config_error("`ignore` must be a boolean"));
                },
            },
            None => false,
        };
        let fail: bool = match find_field(pairs, "fail", Ghost(pv)) {
            Some(v) => match v {
                Json::Bool(b) => *b,
                _ => {
                    return Err(config_error("`fail` must be a boolean"));
                },
            },
            None => false,
        };
        let return_code: ReturnCode = match find_field(pairs, "return_code", Ghost(pv)) {
            Some(v) => match return_code_field(v) {
                Some(rc) => rc,
                None => {
                    return Err(
                        config_error("`return_code` must be \"*\", an integer, or integers"),
                    );
                },
            },
            None => ReturnCode::Any,
        };
        let exclude_outputs: Vec<String> = match find_field(pairs, "exclude_outputs", Ghost(pv)) {
            Some(v) => match strings_field(v) {
                Some(xs) => xs,
                None => {
                    return Err(config_error("`exclude_outputs` must be an array of strings"));
                },
            },
            None => Vec::new(),
        };
        let capabilities: Vec<Capability> = match find_field(pairs, "capabilities", Ghost(pv)) {
            Some(v) => match capabilities_field(v) {
                Some(xs) => xs,
                None => {
                    return Err(config_error("`capabilities` must name known capabilities"));
                },
            },
            None => Vec::new(),
        };
        let tags: Vec<Tag> = match find_field(pairs, "tags", Ghost(pv)) {
            Some(v) => match tags_field(v) {
                Some(xs) => xs,
                None => {
                    return Err(config_error("`tags` must name known tags"));
                },
            },
            None => Vec::new(),
        };
        let c = Config { target, ignore, fail, return_code, exclude_outputs, capabilities, tags };
        proof {
            assert(spec_config_from(j@) is Some);
            assert(spec_config_from(j@)->0 =~= c@);
        }
        Ok(c)
    }
}

fn config_error(msg: &str) -> (r: ConfigError) {
    ConfigError { message: msg.to_owned() }
}

/// Looks up the first field named `name` in an object.
///
/// `pv` is the
/// pairs' mathematical value.
pub(crate) fn find_field<'a>(
    pairs: &'a Vec<(String, Json)>,
    name: &str,
    Ghost(pv): Ghost<Seq<(Seq<char>, JsonView)>>,
) -> (r: Option<&'a Json>)
    requires
        pv.len() == pairs@.len(),
        forall|k: int| 0 <= k < pairs@.len() ==> #[trigger] pv[k] == (pairs@[k].0@, json_view(pairs@[k].1)),
    ensures
        match r {
            Some(v) => spec_field(pv, name@) == Some(v@),
            None => spec_field(pv, name@) is None,
        },
{
    let mut i: usize = 0;
    loop
        invariant
            pv.len() == pairs@.len(),
            forall|k: int|
                0 <= k < pairs@.len() ==> #[trigger] pv[k] == (pairs@[k].0@, json_view(
                    pairs@[k].1,
                )),
            0 <= i <= pairs@.len(),
            field_index_from(pv, name@, 0) == field_index_from(pv, name@, i as int),
        decreases pairs@.len() - i,
    {
        if i >= pairs.len() {
            return None;
        }
        if str_eq_str(pairs[i].0.as_str(), name) {
            return Some(&pairs[i].1);
        }
        i += 1;
    }
}

/// Reads the `return_code` field's value.
fn return_code_field(v: &Json) -> (r: Option<ReturnCode>)
    ensures
        match r {
            Some(rc) => spec_return_code_field(v@) == Some(rc@),
            None => spec_return_code_field(v@) is None,
        },
{
    match v {
        Json::Str(s) => {
            if str_eq_str(s.as_str(), "*") {
                Some(ReturnCode::Any)
            } else {
                None
            }
        },
        Json::Num(n) => match n {
            JsonNum::Int(x) => {
                let x = *x;
                if -2147483648i64 <= x && x <= 2147483647i64 {
                    Some(ReturnCode::Single(x as i32))
                } else {
                    None
                }
            },
            JsonNum::Big(u) => {
                let u = *u;
                if u <= 2147483647u64 {
                    Some(ReturnCode::Single(u as i32))
                } else {
                    None
                }
            },
            JsonNum::Txt(_) => None,
        },
        Json::Arr(elems) => {
            let ghost ev = v@->Arr_0;
            proof {
                assert(ev.len() == elems@.len());
                assert(forall|k: int|
                    0 <= k < elems@.len() ==> #[trigger] ev[k] == json_view(elems@[k]));
            }
            let mut out: Vec<i32> = Vec::new();
            let mut i: usize = 0;
            while i < elems.len()
                invariant
                    v@ == JsonView::Arr(ev),
                    ev.len() == elems@.len(),
                    forall|k: int|
                        0 <= k < elems@.len() ==> #[trigger] ev[k] == json_view(elems@[k]),
                    0 <= i <= elems@.len(),
                    out@.len() == i,
                    forall|k: int|
                        0 <= k < i ==> spec_code_item(#[trigger] ev[k]) == Some(out@[k] as int),
                decreases elems@.len() - i,
            {
                match &elems[i] {
                    Json::Num(JsonNum::Int(x)) => {
                        let x = *x;
                        if -2147483648i64 <= x && x <= 2147483647i64 {
                            out.push(x as i32);
                        } else {
                            proof {
                                assert(spec_code_item(ev[i as int]) is None);
                            }
                            return None;
                        }
                    },
                    Json::Num(JsonNum::Big(u)) => {
                        let u = *u;
                        if u <= 2147483647u64 {
                            out.push(u as i32);
                        } else {
                            proof {
                                assert(spec_code_item(ev[i as int]) is None);
                            }
                            return None;
                        }
                    },
                    _ => {
                        proof {
                            assert(spec_code_item(ev[i as int]) is None);
                        }
                        return None;
                    },
                }
                i += 1;
            }
            let rc = ReturnCode::Multiple(out);
            proof {
                assert(spec_return_code_field(v@) == Some(rc@)) by {
                    assert(forall|k: int|
                        0 <= k < ev.len() ==> spec_code_item(#[trigger] ev[k]) is Some);
                    assert(rc@->Multiple_0 =~= Seq::new(
                        ev.len(),
                        |k: int| spec_code_item(ev[k]).unwrap(),
                    ));
                }
            }
            Some(rc)
        },
        _ => None,
    }
}

/// Reads a list-of-strings field's value.
fn strings_field(v: &Json) -> (r: Option<Vec<String>>)
    ensures
        match r {
            Some(xs) => spec_strings_field(v@) == Some(xs.deep_view()),
            None => spec_strings_field(v@) is None,
        },
{
    match v {
        Json::Arr(elems) => {
            let ghost ev = v@->Arr_0;
            proof {
                assert(ev.len() == elems@.len());
                assert(forall|k: int|
                    0 <= k < elems@.len() ==> #[trigger] ev[k] == json_view(elems@[k]));
            }
            let mut out: Vec<String> = Vec::new();
            let mut i: usize = 0;
            while i < elems.len()
                invariant
                    v@ == JsonView::Arr(ev),
                    ev.len() == elems@.len(),
                    forall|k: int|
                        0 <= k < elems@.len() ==> #[trigger] ev[k] == json_view(elems@[k]),
                    0 <= i <= elems@.len(),
                    out@.len() == i,
                    forall|k: int| 0 <= k < i ==> (#[trigger] ev[k]) is Str,
                    forall|k: int| 0 <= k < i ==> (#[trigger] out@[k])@ == ev[k]->Str_0,
                decreases elems@.len() - i,
            {
                match &elems[i] {
                    Json::Str(s) => {
                        out.push(s.clone());
                    },
                    _ => {
                        proof {
                            assert(!((ev[i as int]) is Str));
                        }
                        return None;
                    },
                }
                i += 1;
            }
            proof {
                assert(spec_strings_field(v@) == Some(out.deep_view())) by {
                    assert(forall|k: int| 0 <= k < ev.len() ==> (#[trigger] ev[k]) is Str);
                    assert(out.deep_view() =~= Seq::new(ev.len(), |i: int| ev[i]->Str_0));
                }
            }
            Some(out)
        },
        _ => None,
    }
}

/// Reads the `capabilities` field's value.
fn capabilities_field(v: &Json) -> (r: Option<Vec<Capability>>)
    ensures
        match r {
            Some(xs) => spec_capabilities_field(v@) == Some(xs@),
            None => spec_capabilities_field(v@) is None,
        },
{
    match v {
        Json::Arr(elems) => {
            let ghost ev = v@->Arr_0;
            proof {
                assert(ev.len() == elems@.len());
                assert(forall|k: int|
                    0 <= k < elems@.len() ==> #[trigger] ev[k] == json_view(elems@[k]));
            }
            let mut out: Vec<Capability> = Vec::new();
            let mut i: usize = 0;
            while i < elems.len()
                invariant
                    v@ == JsonView::Arr(ev),
                    ev.len() == elems@.len(),
                    forall|k: int|
                        0 <= k < elems@.len() ==> #[trigger] ev[k] == json_view(elems@[k]),
                    0 <= i <= elems@.len(),
                    out@.len() == i,
                    forall|k: int|
                        0 <= k < i ==> (#[trigger] ev[k]) is Str && spec_capability_of(
                            ev[k]->Str_0,
                        ) == Some(out@[k]),
                decreases elems@.len() - i,
            {
                match &elems[i] {
                    Json::Str(s) => {
                        if str_eq_str(s.as_str(), "cpu") {
                            out.push(Capability::Cpu);
                        } else if str_eq_str(s.as_str(), "memory") {
                            out.push(Capability::Memory);
                        } else if str_eq_str(s.as_str(), "gpu") {
                            out.push(Capability::Gpu);
                        } else if str_eq_str(s.as_str(), "disks") {
                            out.push(Capability::Disks);
                        } else if str_eq_str(s.as_str(), "allow_nested_inputs") {
                            out.push(Capability::AllowNestedInputs);
                        } else {
                            proof {
                                assert(spec_capability_of(ev[i as int]->Str_0) is None);
                            }
                            return None;
                        }
                    },
                    _ => {
                        proof {
                            assert(!((ev[i as int]) is Str));
                        }
                        return None;
                    },
                }
                i += 1;
            }
            proof {
                assert(spec_capabilities_field(v@) == Some(out@)) by {
                    assert(forall|k: int|
                        0 <= k < ev.len() ==> (#[trigger] ev[k]) is Str && spec_capability_of(
                            ev[k]->Str_0,
                        ) is Some);
                    assert(out@ =~= Seq::new(
                        ev.len(),
                        |i: int| spec_capability_of(ev[i]->Str_0).unwrap(),
                    ));
                }
            }
            Some(out)
        },
        _ => None,
    }
}

/// Reads the `tags` field's value.
fn tags_field(v: &Json) -> (r: Option<Vec<Tag>>)
    ensures
        match r {
            Some(xs) => spec_tags_field(v@) == Some(xs@),
            None => spec_tags_field(v@) is None,
        },
{
    match v {
        Json::Arr(elems) => {
            let ghost ev = v@->Arr_0;
            proof {
                assert(ev.len() == elems@.len());
                assert(forall|k: int|
                    0 <= k < elems@.len() ==> #[trigger] ev[k] == json_view(elems@[k]));
            }
            let mut out: Vec<Tag> = Vec::new();
            let mut i: usize = 0;
            while i < elems.len()
                invariant
                    v@ == JsonView::Arr(ev),
                    ev.len() == elems@.len(),
                    forall|k: int|
                        0 <= k < elems@.len() ==> #[trigger] ev[k] == json_view(elems@[k]),
                    0 <= i <= elems@.len(),
                    out@.len() == i,
                    forall|k: int|
                        0 <= k < i ==> (#[trigger] ev[k]) is Str && spec_tag_of(ev[k]->Str_0)
                            == Some(out@[k]),
                decreases elems@.len() - i,
            {
                match &elems[i] {
                    Json::Str(s) => {
                        if str_eq_str(s.as_str(), "deprecated") {
                            out.push(Tag::Deprecated);
                        } else {
                            proof {
                                assert(spec_tag_of(ev[i as int]->Str_0) is None);
                            }
                            return None;
                        }
                    },
                    _ => {
                        proof {
                            assert(!((ev[i as int]) is Str));
                        }
                        return None;
                    },
                }
                i += 1;
            }
            proof {
                assert(spec_tags_field(v@) == Some(out@)) by {
                    assert(forall|k: int|
                        0 <= k < ev.len() ==> (#[trigger] ev[k]) is Str && spec_tag_of(
                            ev[k]->Str_0,
                        ) is Some);
                    assert(out@ =~= Seq::new(ev.len(), |i: int| spec_tag_of(ev[i]->Str_0).unwrap()));
                }
            }
            Some(out)
        },
        _ => None,
    }
}

} // verus!

//! Validation of conformance test results: exclusion-aware filtering and
//! structural comparison of JSON values.

use vstd::prelude::*;

use crate::json::{json_view, Json, JsonNum, JsonView, NumView};
use crate::scan::str_eq_str;

verus! {

broadcast use vstd::std_specs::vec::group_vec_axioms;

/// The decimal digit character for `d`.
pub open spec fn spec_digit(d: int) -> char {
    ((48 + d) as u8) as char
}

/// The decimal rendering of a non-negative integer.
pub open spec fn spec_nat_str(n: int) -> Seq<char>
    decreases n,
{
    if n < 10 {
        seq![spec_digit(n)]
    } else {
        spec_nat_str(n / 10).push(spec_digit(n % 10))
    }
}

/// The decimal rendering of an integer.
pub open spec fn spec_int_str(n: int) -> Seq<char> {
    if n < 0 {
        seq!['-'] + spec_nat_str(-n)
    } else {
        spec_nat_str(n)
    }
}

/// The single-character string for a decimal digit.
fn digit_str(d: u8) -> (r: &'static str)
    requires
        d < 10,
    ensures
        r@ == seq![spec_digit(d as int)],
{
    proof {
        reveal_strlit("0");
        reveal_strlit("1");
        reveal_strlit("2");
        reveal_strlit("3");
        reveal_strlit("4");
        reveal_strlit("5");
        reveal_strlit("6");
        reveal_strlit("7");
        reveal_strlit("8");
        reveal_strlit("9");
    }
    match d {
        0 => "0",
        1 => "1",
        2 => "2",
        3 => "3",
        4 => "4",
        5 => "5",
        6 => "6",
        7 => "7",
        8 => "8",
        _ => "9",
    }
}

/// Appends the decimal rendering of `n` to `s`.
pub(crate) fn push_nat_str(s: &mut String, n: u64)
    ensures
        final(s)@ == old(s)@ + spec_nat_str(n as int),
    decreases n,
{
    if n < 10 {
        s.append(digit_str(n as u8));
    } else {
        push_nat_str(s, n / 10);
        s.append(digit_str((n % 10) as u8));
        proof {
            assert(s@ =~= old(s)@ + spec_nat_str(n as int));
        }
    }
}

/// Appends the decimal rendering of `n` to `s`.
pub(crate) fn push_int(s: &mut String, n: i64)
    ensures
        final(s)@ == old(s)@ + spec_int_str(n as int),
{
    if n < 0 {
        proof {
            reveal_strlit("-");
        }
        s.append("-");
        let m: u64 = ((-(n + 1)) as u64) + 1;
        push_nat_str(s, m);
        proof {
            assert(s@ =~= old(s)@ + spec_int_str(n as int));
        }
    } else {
        push_nat_str(s, n as u64);
    }
}

/// The decimal rendering of a number, for diagnostics.
pub open spec fn spec_num_str(n: NumView) -> Seq<char> {
    match n {
        NumView::Int(i) => spec_int_str(i),
        NumView::Txt(t) => t,
    }
}

/// Whether two JSON numbers denote the same number.
///
/// Two integers match exactly; two non-integer numbers match when their
/// renderings agree (the parser's rendering is shortest-round-trip, so equal
/// numbers render alike); an integer matches a rendering with a trailing
/// zero fraction, so an expected `1.0` accepts an actual `1`.
pub open spec fn num_matches(a: NumView, b: NumView) -> bool {
    match (a, b) {
        (NumView::Int(x), NumView::Int(y)) => x == y,
        (NumView::Txt(x), NumView::Txt(y)) => x == y,
        (NumView::Int(x), NumView::Txt(y)) => y == spec_int_str(x) + ".0"@,
        (NumView::Txt(x), NumView::Int(y)) => x == spec_int_str(y) + ".0"@,
    }
}

/// The decimal rendering of a number as a fresh string.
fn num_str(n: &JsonNum) -> (r: String)
    ensures
        r@ == spec_num_str(n@),
{
    match n {
        JsonNum::Int(x) => {
            let mut s = String::new();
            push_int(&mut s, *x);
            proof {
                assert(s@ =~= spec_num_str(n@));
            }
            s
        },
        JsonNum::Big(x) => {
            let mut s = String::new();
            push_nat_str(&mut s, *x);
            proof {
                assert(s@ =~= spec_num_str(n@));
            }
            s
        },
        JsonNum::Txt(t) => {
            let r = t.clone();
            r
        },
    }
}

/// The rendering of an integer followed by a zero fraction.
fn int_dot_zero(x: i64) -> (r: String)
    ensures
        r@ == spec_int_str(x as int) + ".0"@,
{
    let mut s = String::new();
    push_int(&mut s, x);
    proof {
        reveal_strlit(".0");
    }
    s.append(".0");
    proof {
        assert(s@ =~= spec_int_str(x as int) + ".0"@);
    }
    s
}

/// The rendering of a large integer followed by a zero fraction.
fn big_dot_zero(x: u64) -> (r: String)
    ensures
        r@ == spec_nat_str(x as int) + ".0"@,
{
    let mut s = String::new();
    push_nat_str(&mut s, x);
    proof {
        reveal_strlit(".0");
    }
    s.append(".0");
    proof {
        assert(s@ =~= spec_nat_str(x as int) + ".0"@);
    }
    s
}

/// Whether two numbers denote the same number.
fn num_eq(a: &JsonNum, b: &JsonNum) -> (r: bool)
    ensures
        r == num_matches(a@, b@),
{
    match (a, b) {
        (JsonNum::Int(x), JsonNum::Int(y)) => *x == *y,
        (JsonNum::Int(x), JsonNum::Big(y)) => *x >= 0 && (*x as u64) == *y,
        (JsonNum::Big(x), JsonNum::Int(y)) => *y >= 0 && (*y as u64) == *x,
        (JsonNum::Big(x), JsonNum::Big(y)) => *x == *y,
        (JsonNum::Txt(x), JsonNum::Txt(y)) => str_eq_str(x.as_str(), y.as_str()),
        (JsonNum::Int(x), JsonNum::Txt(y)) => {
            let s = int_dot_zero(*x);
            str_eq_str(y.as_str(), s.as_str())
        },
        (JsonNum::Big(x), JsonNum::Txt(y)) => {
            let s = big_dot_zero(*x);
            str_eq_str(y.as_str(), s.as_str())
        },
        (JsonNum::Txt(x), JsonNum::Int(y)) => {
            let s = int_dot_zero(*y);
            str_eq_str(x.as_str(), s.as_str())
        },
        (JsonNum::Txt(x), JsonNum::Big(y)) => {
            let s = big_dot_zero(*y);
            str_eq_str(x.as_str(), s.as_str())
        },
    }
}

/// A deep copy of a JSON value.
#[verifier::loop_isolation(false)]
pub fn clone_json(v: &Json) -> (r: Json)
    ensures
        r@ == v@,
    decreases v,
{
    match v {
        Json::Null => Json::Null,
        Json::Bool(b) => Json::Bool(*b),
        Json::Num(n) => Json::Num(clone_num(n)),
        Json::Str(s) => Json::Str(s.clone()),
        Json::Arr(elems) => {
            let mut out: Vec<Json> = Vec::new();
            let mut i: usize = 0;
            while i < elems.len()
                invariant
                    0 <= i <= elems@.len(),
                    out@.len() == i,
                    forall|k: int| 0 <= k < i ==> json_view(#[trigger] out@[k]) == json_view(
                        elems@[k],
                    ),
                decreases elems@.len() - i,
            {
                out.push(clone_json(&elems[i]));
                i += 1;
            }
            let r = Json::Arr(out);
            proof {
                assert(r@->Arr_0 =~= v@->Arr_0);
            }
            r
        },
        Json::Obj(pairs) => {
            let mut out: Vec<(String, Json)> = Vec::new();
            let mut i: usize = 0;
            while i < pairs.len()
                invariant
                    0 <= i <= pairs@.len(),
                    out@.len() == i,
                    forall|k: int| 0 <= k < i ==> (#[trigger] out@[k]).0@ == pairs@[k].0@
                        && json_view(out@[k].1) == json_view(pairs@[k].1),
                decreases pairs@.len() - i,
            {
                let key = pairs[i].0.clone();
                let val = clone_json(&pairs[i].1);
                out.push((key, val));
                i += 1;
            }
            let r = Json::Obj(out);
            proof {
                assert(r@->Obj_0 =~= v@->Obj_0);
            }
            r
        },
    }
}

/// A copy of a number.
fn clone_num(n: &JsonNum) -> (r: JsonNum)
    ensures
        r@ == n@,
{
    match n {
        JsonNum::Int(x) => JsonNum::Int(*x),
        JsonNum::Big(x) => JsonNum::Big(*x),
        JsonNum::Txt(t) => JsonNum::Txt(t.clone()),
    }
}


/// The full dotted path of key `k` under `cur`.
pub open spec fn spec_key_path(cur: Seq<char>, k: Seq<char>) -> Seq<char> {
    if cur.len() == 0 {
        k
    } else {
        cur + "."@ + k
    }
}

/// Whether the exclusion list drops key `k` at path `cur`: either the bare
/// key name or its fully dotted path is listed.
pub open spec fn spec_excluded(ex: Seq<Seq<char>>, k: Seq<char>, cur: Seq<char>) -> bool {
    ex.contains(k) || ex.contains(spec_key_path(cur, k))
}

/// The value with every excluded object key dropped, recursively; `cur` is
/// the dotted path of the value itself. Arrays are recursed into without
/// changing the path.
pub open spec fn spec_filter(v: JsonView, ex: Seq<Seq<char>>, cur: Seq<char>) -> JsonView
    decreases v,
{
    match v {
        JsonView::Arr(elems) => JsonView::Arr(spec_filter_elems(elems, ex, cur)),
        JsonView::Obj(pairs) => JsonView::Obj(spec_filter_pairs(pairs, ex, cur)),
        other => other,
    }
}

/// Element-wise filtering of an array's values.
pub open spec fn spec_filter_elems(elems: Seq<JsonView>, ex: Seq<Seq<char>>, cur: Seq<char>) -> Seq<
    JsonView,
>
    decreases elems,
{
    if elems.len() == 0 {
        Seq::empty()
    } else {
        seq![spec_filter(elems[0], ex, cur)] + spec_filter_elems(elems.drop_first(), ex, cur)
    }
}

/// Filtering of an object's pairs: excluded keys are dropped, kept values
/// are filtered under their dotted path.
pub open spec fn spec_filter_pairs(
    pairs: Seq<(Seq<char>, JsonView)>,
    ex: Seq<Seq<char>>,
    cur: Seq<char>,
) -> Seq<(Seq<char>, JsonView)>
    decreases pairs,
{
    if pairs.len() == 0 {
        Seq::empty()
    } else {
        let k = pairs[0].0;
        let rest = spec_filter_pairs(pairs.drop_first(), ex, cur);
        if spec_excluded(ex, k, cur) {
            rest
        } else {
            seq![(k, spec_filter(pairs[0].1, ex, spec_key_path(cur, k)))] + rest
        }
    }
}

/// The result of comparing an expected against an actual JSON value.
#[derive(Debug, Clone, PartialEq, Eq)]
pub enum ComparisonOutcome {
    /// The values match.
    Match,
    /// The values diverge; where, and how.
    Mismatch {
        /// The dotted/bracketed path of the first divergence.
        path: String,
        /// A description of the divergence.
        message: String,
    },
}

/// The mathematical value of a [`ComparisonOutcome`].
#[verifier::ext_equal]
pub enum OutcomeView {
    /// The values match.
    Match,
    /// The values diverge.
    Mismatch {
        /// The path of the first divergence.
        path: Seq<char>,
        /// The description.
        message: Seq<char>,
    },
}

impl View for ComparisonOutcome {
    type V = OutcomeView;

    open spec fn view(&self) -> OutcomeView {
        match self {
            ComparisonOutcome::Match => OutcomeView::Match,
            ComparisonOutcome::Mismatch { path, message } => OutcomeView::Mismatch {
                path: path@,
                message: message@,
            },
        }
    }
}

impl ComparisonOutcome {
    /// Returns whether the outcome is a match.
    pub fn is_match(&self) -> (r: bool)
        ensures
            r == (self@ is Match),
    {
        match self {
            ComparisonOutcome::Match => true,
            ComparisonOutcome::Mismatch { .. } => false,
        }
    }
}

/// The kind name of a JSON value, for diagnostics.
pub open spec fn spec_type_name(v: JsonView) -> Seq<char> {
    match v {
        JsonView::Null => "null"@,
        JsonView::Bool(_) => "boolean"@,
        JsonView::Num(_) => "number"@,
        JsonView::Str(_) => "string"@,
        JsonView::Arr(_) => "array"@,
        JsonView::Obj(_) => "object"@,
    }
}

/// The rendering of a boolean, for diagnostics.
pub open spec fn spec_bool_str(b: bool) -> Seq<char> {
    if b {
        "true"@
    } else {
        "false"@
    }
}

/// The path of element `i` under `path`.
pub open spec fn spec_item_path(path: Seq<char>, i: int) -> Seq<char> {
    if path.len() == 0 {
        "["@ + spec_nat_str(i) + "]"@
    } else {
        path + "["@ + spec_nat_str(i) + "]"@
    }
}

/// Whether the pairs carry key `k`.
pub open spec fn spec_has_key(pairs: Seq<(Seq<char>, JsonView)>, k: Seq<char>) -> bool {
    exists|j: int| 0 <= j < pairs.len() && (#[trigger] pairs[j]).0 == k
}

/// The first index at or after `i` whose key is absent from `ys`.
pub open spec fn spec_first_missing(
    xs: Seq<(Seq<char>, JsonView)>,
    ys: Seq<(Seq<char>, JsonView)>,
    i: int,
) -> Option<int>
    decreases xs.len() - i,
{
    if i < 0 || i >= xs.len() {
        None
    } else if !spec_has_key(ys, xs[i].0) {
        Some(i)
    } else {
        spec_first_missing(xs, ys, i + 1)
    }
}

/// The structural comparison of `e` against `a` at `path`: the outcome and,
/// on the first divergence in depth-first left-to-right order, its path and
/// description.
pub open spec fn spec_compare(e: JsonView, a: JsonView, path: Seq<char>) -> OutcomeView
    decreases e, 0int,
{
    match (e, a) {
        (JsonView::Null, JsonView::Null) => OutcomeView::Match,
        (JsonView::Bool(x), JsonView::Bool(y)) => if x == y {
            OutcomeView::Match
        } else {
            OutcomeView::Mismatch {
                path,
                message: "boolean mismatch at `"@ + path + "`: expected "@ + spec_bool_str(x)
                    + ", got "@ + spec_bool_str(y),
            }
        },
        (JsonView::Num(x), JsonView::Num(y)) => if num_matches(x, y) {
            OutcomeView::Match
        } else {
            OutcomeView::Mismatch {
                path,
                message: "number mismatch at `"@ + path + "`: expected "@ + spec_num_str(x)
                    + ", got "@ + spec_num_str(y),
            }
        },
        (JsonView::Str(x), JsonView::Str(y)) => if x == y {
            OutcomeView::Match
        } else {
            OutcomeView::Mismatch {
                path,
                message: "string mismatch at `"@ + path + "`: expected \""@ + x + "\", got \""@
                    + y + "\""@,
            }
        },
        (JsonView::Arr(xs), JsonView::Arr(ys)) => if xs.len() != ys.len() {
            OutcomeView::Mismatch {
                path,
                message: "array length mismatch at `"@ + path + "`: expected "@ + spec_nat_str(
                    xs.len() as int,
                ) + " elements, got "@ + spec_nat_str(ys.len() as int) + " elements"@,
            }
        } else {
            spec_compare_elems(xs, ys, path, 0)
        },
        (JsonView::Obj(xs), JsonView::Obj(ys)) => spec_compare_objs(xs, ys, path),
        _ => OutcomeView::Mismatch {
            path,
            message: "type mismatch at `"@ + path + "`: expected "@ + spec_type_name(e) + ", got "@
                + spec_type_name(a),
        },
    }
}

/// Positional comparison of two equally long arrays, from index `i`.
pub open spec fn spec_compare_elems(
    xs: Seq<JsonView>,
    ys: Seq<JsonView>,
    path: Seq<char>,
    i: int,
) -> OutcomeView
    decreases xs, xs.len() - i,
{
    if i < 0 || i >= xs.len() || ys.len() != xs.len() {
        OutcomeView::Match
    } else {
        match spec_compare(xs[i], ys[i], spec_item_path(path, i)) {
            OutcomeView::Match => spec_compare_elems(xs, ys, path, i + 1),
            m => m,
        }
    }
}

/// Comparison of two objects: a key of the expected object absent from the
/// actual is reported first, then a key of the actual absent from the
/// expected, then the keys present in both are compared in the expected
/// object's order.
pub open spec fn spec_compare_objs(
    xs: Seq<(Seq<char>, JsonView)>,
    ys: Seq<(Seq<char>, JsonView)>,
    path: Seq<char>,
) -> OutcomeView
    decreases xs, xs.len() + 1,
{
    match spec_first_missing(xs, ys, 0) {
        Some(k) => OutcomeView::Mismatch {
            path: spec_key_path(path, xs[k].0),
            message: "missing key in actual output: `"@ + spec_key_path(path, xs[k].0) + "`"@,
        },
        None => match spec_first_missing(ys, xs, 0) {
            Some(k) => OutcomeView::Mismatch {
                path: spec_key_path(path, ys[k].0),
                message: "unexpected key in actual output: `"@ + spec_key_path(path, ys[k].0)
                    + "`"@,
            },
            None => spec_compare_fields(xs, ys, path, 0),
        },
    }
}

/// Comparison of the shared keys' values, in the expected object's order,
/// from index `i`; the actual value for a key is the first pair bearing it.
pub open spec fn spec_compare_fields(
    xs: Seq<(Seq<char>, JsonView)>,
    ys: Seq<(Seq<char>, JsonView)>,
    path: Seq<char>,
    i: int,
) -> OutcomeView
    decreases xs, xs.len() - i,
{
    if i < 0 || i >= xs.len() {
        OutcomeView::Match
    } else {
        let k = xs[i].0;
        let kp = spec_key_path(path, k);
        match crate::config::spec_field(ys, k) {
            Some(yv) => match spec_compare(xs[i].1, yv, kp) {
                OutcomeView::Match => spec_compare_fields(xs, ys, path, i + 1),
                m => m,
            },
            None => spec_compare_fields(xs, ys, path, i + 1),
        }
    }
}


/// The deep view of a vector of strings is its element views.
pub proof fn lemma_strings_deep_view(v: &Vec<String>)
    ensures
        v.deep_view().len() == v@.len(),
        forall|i: int| 0 <= i < v@.len() ==> v.deep_view()[i] == v@[i]@,
{
    assert forall|i: int| 0 <= i < v@.len() implies v.deep_view()[i] == v@[i]@ by {
        assert(v.deep_view()[i] == v@[i].deep_view());
    }
}

/// Whether one of the strings equals `x`.
fn strs_contain(v: &Vec<String>, x: &String) -> (r: bool)
    ensures
        r == v.deep_view().contains(x@),
{
    proof {
        lemma_strings_deep_view(v);
    }
    let mut i: usize = 0;
    while i < v.len()
        invariant
            0 <= i <= v@.len(),
            v.deep_view().len() == v@.len(),
            forall|k: int| 0 <= k < v@.len() ==> v.deep_view()[k] == v@[k]@,
            forall|k: int| 0 <= k < i ==> v.deep_view()[k] != x@,
        decreases v@.len() - i,
    {
        if str_eq_str(v[i].as_str(), x.as_str()) {
            proof {
                assert(v.deep_view()[i as int] == x@);
            }
            return true;
        }
        i += 1;
    }
    false
}

/// The dotted path of key `k` under `cur`.
fn key_path_str(cur: &String, k: &String) -> (r: String)
    ensures
        r@ == spec_key_path(cur@, k@),
{
    if cur.as_str().is_empty() {
        k.clone()
    } else {
        let mut s = String::new();
        s.append(cur.as_str());
        s.append(".");
        s.append(k.as_str());
        proof {
            assert(s@ =~= spec_key_path(cur@, k@));
        }
        s
    }
}

/// Whether the exclusion list drops key `k` at path `cur`.
fn excluded(ex: &Vec<String>, k: &String, cur: &String) -> (r: bool)
    ensures
        r == spec_excluded(ex.deep_view(), k@, cur@),
{
    if strs_contain(ex, k) {
        return true;
    }
    let kp = key_path_str(cur, k);
    strs_contain(ex, &kp)
}

/// Filters a value at path `cur`, dropping excluded object keys.
#[verifier::loop_isolation(false)]
fn filter_rec(v: &Json, ex: &Vec<String>, cur: &String) -> (r: Json)
    ensures
        r@ == spec_filter(v@, ex.deep_view(), cur@),
    decreases v,
{
    match v {
        Json::Null => Json::Null,
        Json::Bool(b) => Json::Bool(*b),
        Json::Num(n) => Json::Num(clone_num(n)),
        Json::Str(s) => Json::Str(s.clone()),
        Json::Arr(elems) => {
            let ghost ev = v@->Arr_0;
            let mut out: Vec<Json> = Vec::new();
            let ghost exv = ex.deep_view();
            let mut i: usize = 0;
            while i < elems.len()
                invariant
                    0 <= i <= elems@.len(),
                    out@.len() == i,
                    forall|k: int| 0 <= k < i ==> json_view(#[trigger] out@[k]) == spec_filter(
                        ev[k],
                        exv,
                        cur@,
                    ),
                decreases elems@.len() - i,
            {
                out.push(filter_rec(&elems[i], ex, cur));
                i += 1;
            }
            let r = Json::Arr(out);
            proof {
                lemma_filter_elems_index(ev, exv, cur@);
                assert(r@->Arr_0 =~= spec_filter_elems(ev, exv, cur@));
            }
            r
        },
        Json::Obj(pairs) => {
            let ghost pv = v@->Obj_0;
            let ghost exv = ex.deep_view();
            let mut out: Vec<(String, Json)> = Vec::new();
            let mut i: usize = 0;
            proof {
                assert(pv.skip(0) =~= pv);
                assert(Seq::new(out@.len(), |k: int| (out@[k].0@, json_view(out@[k].1))) =~= Seq::<
                    (Seq<char>, JsonView),
                >::empty());
                assert(Seq::<(Seq<char>, JsonView)>::empty() + spec_filter_pairs(pv, exv, cur@)
                    =~= spec_filter_pairs(pv, exv, cur@));
            }
            while i < pairs.len()
                invariant
                    0 <= i <= pairs@.len(),
                    Json::Obj(*pairs)@->Obj_0 == pv,
                    ({
                        let done = Seq::new(
                            out@.len(),
                            |k: int| (out@[k].0@, json_view(out@[k].1)),
                        );
                        done + spec_filter_pairs(pv.skip(i as int), exv, cur@)
                            =~= spec_filter_pairs(pv, exv, cur@)
                    }),
                decreases pairs@.len() - i,
            {
                let ghost done0 = Seq::new(out@.len(), |k: int| (out@[k].0@, json_view(out@[k].1)));
                let key = &pairs[i].0;
                proof {
                    assert(pv.skip(i as int)[0] == pv[i as int]);
                    assert(pv.skip(i as int).drop_first() =~= pv.skip(i as int + 1));
                }
                if excluded(ex, key, cur) {
                    proof {
                        assert(spec_filter_pairs(pv.skip(i as int), exv, cur@)
                            == spec_filter_pairs(pv.skip(i as int + 1), exv, cur@));
                    }
                } else {
                    let kp = key_path_str(cur, key);
                    let fv = filter_rec(&pairs[i].1, ex, &kp);
                    let kc = key.clone();
                    out.push((kc, fv));
                    proof {
                        let done1 = Seq::new(
                            out@.len(),
                            |k: int| (out@[k].0@, json_view(out@[k].1)),
                        );
                        assert(done1 =~= done0.push((pv[i as int].0, spec_filter(
                            pv[i as int].1,
                            exv,
                            spec_key_path(cur@, pv[i as int].0),
                        ))));
                        assert(spec_filter_pairs(pv.skip(i as int), exv, cur@) == seq![
                            (pv[i as int].0, spec_filter(
                                pv[i as int].1,
                                exv,
                                spec_key_path(cur@, pv[i as int].0),
                            )),
                        ] + spec_filter_pairs(pv.skip(i as int + 1), exv, cur@));
                        assert(done1 + spec_filter_pairs(pv.skip(i as int + 1), exv, cur@)
                            =~= done0 + spec_filter_pairs(pv.skip(i as int), exv, cur@));
                    }
                }
                i += 1;
            }
            let r = Json::Obj(out);
            proof {
                assert(pv.skip(pairs@.len() as int) =~= Seq::empty());
                assert(spec_filter_pairs(pv.skip(pairs@.len() as int), exv, cur@)
                    =~= Seq::empty());
                assert(r@->Obj_0 =~= spec_filter_pairs(pv, exv, cur@));
            }
            r
        },
    }
}

/// Element-wise filtering, index by index.
pub proof fn lemma_filter_elems_index(elems: Seq<JsonView>, ex: Seq<Seq<char>>, cur: Seq<char>)
    ensures
        spec_filter_elems(elems, ex, cur).len() == elems.len(),
        forall|i: int|
            0 <= i < elems.len() ==> spec_filter_elems(elems, ex, cur)[i] == spec_filter(
                #[trigger] elems[i],
                ex,
                cur,
            ),
    decreases elems,
{
    if elems.len() > 0 {
        lemma_filter_elems_index(elems.drop_first(), ex, cur);
        assert forall|i: int| 0 <= i < elems.len() implies spec_filter_elems(elems, ex, cur)[i]
            == spec_filter(#[trigger] elems[i], ex, cur) by {
            if i > 0 {
                assert(elems.drop_first()[i - 1] == elems[i]);
            }
        }
    }
}

/// Filters out excluded keys from a JSON value.
///
/// Every object key that is named in `exclude` — by its bare name or by its
/// fully dotted path from the value's root — is dropped, recursively; array
/// indices do not appear in exclusion paths.
pub fn filter_outputs(v: &Json, exclude: &Vec<String>) -> (r: Json)
    ensures
        r@ == spec_filter(v@, exclude.deep_view(), Seq::<char>::empty()),
{
    let root = String::new();
    filter_rec(v, exclude, &root)
}


fn concat3(a: &str, b: &str, c: &str) -> (r: String)
    ensures
        r@ == a@ + b@ + c@,
{
    let mut s = String::new();
    s.append(a);
    s.append(b);
    s.append(c);
    proof {
        assert(s@ =~= a@ + b@ + c@);
    }
    s
}

fn concat6(a: &str, b: &str, c: &str, d: &str, e: &str, f: &str) -> (r: String)
    ensures
        r@ == a@ + b@ + c@ + d@ + e@ + f@,
{
    let mut s = String::new();
    s.append(a);
    s.append(b);
    s.append(c);
    s.append(d);
    s.append(e);
    s.append(f);
    proof {
        assert(s@ =~= a@ + b@ + c@ + d@ + e@ + f@);
    }
    s
}

fn concat7(a: &str, b: &str, c: &str, d: &str, e: &str, f: &str, g: &str) -> (r: String)
    ensures
        r@ == a@ + b@ + c@ + d@ + e@ + f@ + g@,
{
    let mut s = String::new();
    s.append(a);
    s.append(b);
    s.append(c);
    s.append(d);
    s.append(e);
    s.append(f);
    s.append(g);
    proof {
        assert(s@ =~= a@ + b@ + c@ + d@ + e@ + f@ + g@);
    }
    s
}

/// The rendering of a boolean.
fn bool_str(b: bool) -> (r: &'static str)
    ensures
        r@ == spec_bool_str(b),
{
    if b {
        "true"
    } else {
        "false"
    }
}

/// The decimal rendering of a count.
fn usize_str(n: usize) -> (r: String)
    ensures
        r@ == spec_nat_str(n as int),
{
    let mut s = String::new();
    push_nat_str(&mut s, n as u64);
    proof {
        assert(s@ =~= spec_nat_str(n as int));
    }
    s
}

/// Returns a human-readable kind name for a JSON value.
fn kind_name(v: &Json) -> (r: &'static str)
    ensures
        r@ == spec_type_name(v@),
{
    match v {
        Json::Null => "null",
        Json::Bool(_) => "boolean",
        Json::Num(_) => "number",
        Json::Str(_) => "string",
        Json::Arr(_) => "array",
        Json::Obj(_) => "object",
    }
}

/// The path of element `i` under `path`.
fn item_path_str(path: &String, i: usize) -> (r: String)
    ensures
        r@ == spec_item_path(path@, i as int),
{
    let mut s = String::new();
    if !path.as_str().is_empty() {
        s.append(path.as_str());
    }
    s.append("[");
    push_nat_str(&mut s, i as u64);
    s.append("]");
    proof {
        assert(s@ =~= spec_item_path(path@, i as int));
    }
    s
}

/// Whether the pairs carry key `k`; `pv` is the pairs' mathematical value.
fn obj_has_key(pairs: &Vec<(String, Json)>, k: &str, Ghost(pv): Ghost<Seq<(Seq<char>, JsonView)>>) -> (r:
    bool)
    requires
        pv.len() == pairs@.len(),
        forall|j: int|
            0 <= j < pairs@.len() ==> (#[trigger] pv[j]).0 == pairs@[j].0@,
    ensures
        r == spec_has_key(pv, k@),
{
    let mut i: usize = 0;
    while i < pairs.len()
        invariant
            pv.len() == pairs@.len(),
            forall|j: int| 0 <= j < pairs@.len() ==> (#[trigger] pv[j]).0 == pairs@[j].0@,
            0 <= i <= pairs@.len(),
            forall|j: int| 0 <= j < i ==> (#[trigger] pv[j]).0 != k@,
        decreases pairs@.len() - i,
    {
        if str_eq_str(pairs[i].0.as_str(), k) {
            proof {
                assert(pv[i as int].0 == k@);
            }
            return true;
        }
        i += 1;
    }
    false
}

/// What the index scan for a field finds: a first hit, or no hit at all.
pub proof fn lemma_field_index_from(
    pairs: Seq<(Seq<char>, JsonView)>,
    name: Seq<char>,
    i: int,
)
    requires
        i >= 0,
    ensures
        match crate::config::field_index_from(pairs, name, i) {
            Some(j) => i <= j < pairs.len() && pairs[j].0 == name && forall|k: int|
                i <= k < j ==> (#[trigger] pairs[k]).0 != name,
            None => forall|k: int| i <= k < pairs.len() ==> (#[trigger] pairs[k]).0 != name,
        },
    decreases pairs.len() - i,
{
    if i < pairs.len() && pairs[i].0 != name {
        lemma_field_index_from(pairs, name, i + 1);
    }
}

/// A field lookup succeeds exactly when the key is present.
pub proof fn lemma_field_iff_has_key(pairs: Seq<(Seq<char>, JsonView)>, name: Seq<char>)
    ensures
        crate::config::spec_field(pairs, name) is Some <==> spec_has_key(pairs, name),
{
    lemma_field_index_from(pairs, name, 0);
    match crate::config::field_index_from(pairs, name, 0) {
        Some(j) => {
            assert(spec_has_key(pairs, name));
        },
        None => {
            assert(!spec_has_key(pairs, name));
        },
    }
}

/// What the missing-key scan finds: a first missing key, or none at all.
pub proof fn lemma_first_missing(
    xs: Seq<(Seq<char>, JsonView)>,
    ys: Seq<(Seq<char>, JsonView)>,
    i: int,
)
    requires
        i >= 0,
    ensures
        match spec_first_missing(xs, ys, i) {
            Some(j) => i <= j < xs.len() && !spec_has_key(ys, xs[j].0),
            None => forall|k: int| i <= k < xs.len() ==> spec_has_key(ys, (#[trigger] xs[k]).0),
        },
    decreases xs.len() - i,
{
    if i < xs.len() && spec_has_key(ys, xs[i].0) {
        lemma_first_missing(xs, ys, i + 1);
    }
}

/// Performs a deep comparison of two JSON values, reporting the first
/// divergence with its path.
#[verifier::loop_isolation(false)]
fn compare_json(e: &Json, a: &Json, path: &String) -> (r: ComparisonOutcome)
    ensures
        r@ == spec_compare(e@, a@, path@),
    decreases e,
{
    match (e, a) {
        (Json::Null, Json::Null) => ComparisonOutcome::Match,
        (Json::Bool(x), Json::Bool(y)) => {
            if *x == *y {
                ComparisonOutcome::Match
            } else {
                let message = concat6(
                    "boolean mismatch at `",
                    path.as_str(),
                    "`: expected ",
                    bool_str(*x),
                    ", got ",
                    bool_str(*y),
                );
                ComparisonOutcome::Mismatch { path: path.clone(), message }
            }
        },
        (Json::Num(x), Json::Num(y)) => {
            if num_eq(x, y) {
                ComparisonOutcome::Match
            } else {
                let xr = num_str(x);
                let yr = num_str(y);
                let message = concat6(
                    "number mismatch at `",
                    path.as_str(),
                    "`: expected ",
                    xr.as_str(),
                    ", got ",
                    yr.as_str(),
                );
                ComparisonOutcome::Mismatch { path: path.clone(), message }
            }
        },
        (Json::Str(x), Json::Str(y)) => {
            if str_eq_str(x.as_str(), y.as_str()) {
                ComparisonOutcome::Match
            } else {
                let message = concat7(
                    "string mismatch at `",
                    path.as_str(),
                    "`: expected \"",
                    x.as_str(),
                    "\", got \"",
                    y.as_str(),
                    "\"",
                );
                ComparisonOutcome::Mismatch { path: path.clone(), message }
            }
        },
        (Json::Arr(xs), Json::Arr(ys)) => {
            if xs.len() != ys.len() {
                let xc = usize_str(xs.len());
                let yc = usize_str(ys.len());
                let message = concat7(
                    "array length mismatch at `",
                    path.as_str(),
                    "`: expected ",
                    xc.as_str(),
                    " elements, got ",
                    yc.as_str(),
                    " elements",
                );
                ComparisonOutcome::Mismatch { path: path.clone(), message }
            } else {
                let ghost exv = e@->Arr_0;
                let ghost ayv = a@->Arr_0;
                let mut i: usize = 0;
                while i < xs.len()
                    invariant
                        0 <= i <= xs@.len(),
                        spec_compare_elems(exv, ayv, path@, 0) == spec_compare_elems(
                            exv,
                            ayv,
                            path@,
                            i as int,
                        ),
                    decreases xs@.len() - i,
                {
                    let ip = item_path_str(path, i);
                    let c = compare_json(&xs[i], &ys[i], &ip);
                    if !c.is_match() {
                        return c;
                    }
                    i += 1;
                }
                ComparisonOutcome::Match
            }
        },
        (Json::Obj(xs), Json::Obj(ys)) => {
            let ghost xv = e@->Obj_0;
            let ghost yv = a@->Obj_0;
            proof {
                assert(forall|k: int|
                    0 <= k < xs@.len() ==> #[trigger] xv[k] == (xs@[k].0@, json_view(xs@[k].1)));
                assert(forall|k: int|
                    0 <= k < ys@.len() ==> #[trigger] yv[k] == (ys@[k].0@, json_view(ys@[k].1)));
            }
            let mut i: usize = 0;
            while i < xs.len()
                invariant
                    0 <= i <= xs@.len(),
                    spec_first_missing(xv, yv, 0) == spec_first_missing(xv, yv, i as int),
                decreases xs@.len() - i,
            {
                if !obj_has_key(ys, xs[i].0.as_str(), Ghost(yv)) {
                    let kp = key_path_str(path, &xs[i].0);
                    let message = concat3("missing key in actual output: `", kp.as_str(), "`");
                    return ComparisonOutcome::Mismatch { path: kp, message };
                }
                i += 1;
            }
            let mut i: usize = 0;
            while i < ys.len()
                invariant
                    0 <= i <= ys@.len(),
                    spec_first_missing(xv, yv, 0) is None,
                    spec_first_missing(yv, xv, 0) == spec_first_missing(yv, xv, i as int),
                decreases ys@.len() - i,
            {
                if !obj_has_key(xs, ys[i].0.as_str(), Ghost(xv)) {
                    let kp = key_path_str(path, &ys[i].0);
                    let message = concat3("unexpected key in actual output: `", kp.as_str(), "`");
                    return ComparisonOutcome::Mismatch { path: kp, message };
                }
                i += 1;
            }
            let mut i: usize = 0;
            while i < xs.len()
                invariant
                    0 <= i <= xs@.len(),
                    spec_first_missing(xv, yv, 0) is None,
                    spec_first_missing(yv, xv, 0) is None,
                    spec_compare_fields(xv, yv, path@, 0) == spec_compare_fields(
                        xv,
                        yv,
                        path@,
                        i as int,
                    ),
                decreases xs@.len() - i,
            {
                match crate::config::find_field(ys, xs[i].0.as_str(), Ghost(yv)) {
                    Some(av) => {
                        let kp = key_path_str(path, &xs[i].0);
                        let c = compare_json(&xs[i].1, av, &kp);
                        if !c.is_match() {
                            return c;
                        }
                    },
                    None => {
                        proof {
                            lemma_first_missing(xv, yv, 0);
                            lemma_field_iff_has_key(yv, xv[i as int].0);
                        }
                        return ComparisonOutcome::Match;
                    },
                }
                i += 1;
            }
            ComparisonOutcome::Match
        },
        _ => {
            let message = concat6(
                "type mismatch at `",
                path.as_str(),
                "`: expected ",
                kind_name(e),
                ", got ",
                kind_name(a),
            );
            ComparisonOutcome::Mismatch { path: path.clone(), message }
        },
    }
}


/// How path normalization may rewrite a tree: the same shape everywhere,
/// with each string leaf either kept or replaced by a contiguous piece of
/// itself (its final path component).
pub open spec fn norm_rel(v: JsonView, r: JsonView) -> bool
    decreases v,
{
    match (v, r) {
        (JsonView::Null, JsonView::Null) => true,
        (JsonView::Bool(x), JsonView::Bool(y)) => x == y,
        (JsonView::Num(x), JsonView::Num(y)) => x == y,
        (JsonView::Str(x), JsonView::Str(y)) => y == x || (exists|a: int, b: int|
            0 <= a <= b <= x.len() && y == x.subrange(a, b)),
        (JsonView::Arr(xs), JsonView::Arr(ys)) => xs.len() == ys.len() && (forall|i: int|
            0 <= i < xs.len() ==> norm_rel(#[trigger] xs[i], ys[i])),
        (JsonView::Obj(xs), JsonView::Obj(ys)) => xs.len() == ys.len() && (forall|i: int|
            0 <= i < xs.len() ==> (#[trigger] ys[i]).0 == xs[i].0 && norm_rel(xs[i].1, ys[i].1)),
        _ => false,
    }
}

/// Relies on std::path::Path::exists and Path::file_name: a string naming an
/// extant local path is reduced to its final path component; any other
/// string is returned unchanged. What exists on disk can change between
/// calls, so nothing more is promised than that the result is the string
/// itself or a contiguous piece of it.
#[verifier::external_body]
fn normalize_path(s: &String) -> (r: String)
    ensures
        r@ == s@ || (exists|a: int, b: int| 0 <= a <= b <= s@.len() && r@ == s@.subrange(a, b)),
{
    let path = std::path::Path::new(s.as_str());
    if path.exists() {
        match path.file_name().and_then(|name| name.to_str()) {
            Some(name) => name.to_string(),
            None => s.clone(),
        }
    } else {
        s.clone()
    }
}

/// Rewrites every string leaf that names an extant local path to its final
/// path component, keeping the tree's shape.
#[verifier::loop_isolation(false)]
fn normalize_json(v: &Json) -> (r: Json)
    ensures
        norm_rel(v@, r@),
    decreases v,
{
    match v {
        Json::Null => Json::Null,
        Json::Bool(b) => Json::Bool(*b),
        Json::Num(n) => Json::Num(clone_num(n)),
        Json::Str(s) => Json::Str(normalize_path(s)),
        Json::Arr(elems) => {
            let ghost ev = v@->Arr_0;
            let mut out: Vec<Json> = Vec::new();
            let mut i: usize = 0;
            while i < elems.len()
                invariant
                    0 <= i <= elems@.len(),
                    out@.len() == i,
                    forall|k: int| 0 <= k < i ==> norm_rel(ev[k], json_view(#[trigger] out@[k])),
                decreases elems@.len() - i,
            {
                out.push(normalize_json(&elems[i]));
                i += 1;
            }
            let r = Json::Arr(out);
            proof {
                assert(norm_rel(v@, r@));
            }
            r
        },
        Json::Obj(pairs) => {
            let ghost pv = v@->Obj_0;
            let mut out: Vec<(String, Json)> = Vec::new();
            let mut i: usize = 0;
            while i < pairs.len()
                invariant
                    0 <= i <= pairs@.len(),
                    out@.len() == i,
                    forall|k: int| 0 <= k < i ==> (#[trigger] out@[k]).0@ == pv[k].0 && norm_rel(
                        pv[k].1,
                        json_view(out@[k].1),
                    ),
                decreases pairs@.len() - i,
            {
                let key = pairs[i].0.clone();
                let val = normalize_json(&pairs[i].1);
                out.push((key, val));
                i += 1;
            }
            let r = Json::Obj(out);
            proof {
                assert(norm_rel(v@, r@));
            }
            r
        },
    }
}

/// Validates that the actual output matches the expected output.
///
/// Both values are first filtered through the exclusion list; then each
/// remaining string leaf that names an extant local path is reduced to its
/// final path component (this absorbs engine-to-engine differences between
/// absolute and relative file paths); the two trees so obtained are compared
/// structurally, and the first divergence in depth-first left-to-right order
/// is reported with its path. Only the path normalization depends on the
/// machine; everything else is pinned exactly.
pub fn validate_outputs(expected: &Json, actual: &Json, exclude: &Vec<String>) -> (r:
    ComparisonOutcome)
    ensures
        exists|ne: JsonView, na: JsonView|
            {
                &&& norm_rel(
                    spec_filter(expected@, exclude.deep_view(), Seq::<char>::empty()),
                    ne,
                )
                &&& norm_rel(spec_filter(actual@, exclude.deep_view(), Seq::<char>::empty()), na)
                &&& r@ == spec_compare(ne, na, Seq::<char>::empty())
            },
{
    let fe = filter_outputs(expected, exclude);
    let fa = filter_outputs(actual, exclude);
    let ne = normalize_json(&fe);
    let na = normalize_json(&fa);
    let root = String::new();
    let r = compare_json(&ne, &na, &root);
    proof {
        let nev = ne@;
        let nav = na@;
        assert(norm_rel(spec_filter(expected@, exclude.deep_view(), Seq::<char>::empty()), nev));
        assert(norm_rel(spec_filter(actual@, exclude.deep_view(), Seq::<char>::empty()), nav));
    }
    r
}

/// Law: filtering is idempotent — filtering an already filtered value under
/// the same exclusions and path changes nothing.
pub proof fn lemma_filter_idempotent(v: JsonView, ex: Seq<Seq<char>>, cur: Seq<char>)
    ensures
        spec_filter(spec_filter(v, ex, cur), ex, cur) == spec_filter(v, ex, cur),
    decreases v, 0int,
{
    match v {
        JsonView::Arr(elems) => {
            lemma_filter_elems_idempotent(elems, ex, cur);
        },
        JsonView::Obj(pairs) => {
            lemma_filter_pairs_idempotent(pairs, ex, cur);
        },
        _ => {},
    }
}

proof fn lemma_filter_elems_idempotent(elems: Seq<JsonView>, ex: Seq<Seq<char>>, cur: Seq<char>)
    ensures
        spec_filter_elems(spec_filter_elems(elems, ex, cur), ex, cur) == spec_filter_elems(
            elems,
            ex,
            cur,
        ),
    decreases elems, 0int,
{
    if elems.len() == 0 {
        assert(spec_filter_elems(elems, ex, cur) =~= Seq::<JsonView>::empty());
    } else {
        let head = spec_filter(elems[0], ex, cur);
        let rest = spec_filter_elems(elems.drop_first(), ex, cur);
        let whole = seq![head] + rest;
        assert(spec_filter_elems(elems, ex, cur) == whole);
        assert(whole.len() > 0);
        assert(whole[0] == head);
        assert(whole.drop_first() =~= rest);
        lemma_filter_idempotent(elems[0], ex, cur);
        lemma_filter_elems_idempotent(elems.drop_first(), ex, cur);
        assert(spec_filter_elems(whole, ex, cur) == seq![spec_filter(head, ex, cur)]
            + spec_filter_elems(rest, ex, cur));
        assert(seq![spec_filter(head, ex, cur)] + spec_filter_elems(rest, ex, cur) =~= whole);
    }
}

proof fn lemma_filter_pairs_idempotent(
    pairs: Seq<(Seq<char>, JsonView)>,
    ex: Seq<Seq<char>>,
    cur: Seq<char>,
)
    ensures
        spec_filter_pairs(spec_filter_pairs(pairs, ex, cur), ex, cur) == spec_filter_pairs(
            pairs,
            ex,
            cur,
        ),
    decreases pairs, 0int,
{
    if pairs.len() == 0 {
        assert(spec_filter_pairs(pairs, ex, cur) =~= Seq::<(Seq<char>, JsonView)>::empty());
    } else {
        let k = pairs[0].0;
        let rest = spec_filter_pairs(pairs.drop_first(), ex, cur);
        lemma_filter_pairs_idempotent(pairs.drop_first(), ex, cur);
        if spec_excluded(ex, k, cur) {
            assert(spec_filter_pairs(pairs, ex, cur) == rest);
        } else {
            let kp = spec_key_path(cur, k);
            let head = (k, spec_filter(pairs[0].1, ex, kp));
            let whole = seq![head] + rest;
            assert(spec_filter_pairs(pairs, ex, cur) == whole);
            assert(whole.len() > 0);
            assert(whole[0] == head);
            assert(whole.drop_first() =~= rest);
            lemma_filter_idempotent(pairs[0].1, ex, kp);
            assert(spec_filter_pairs(whole, ex, cur) == seq![
                (k, spec_filter(head.1, ex, kp)),
            ] + spec_filter_pairs(rest, ex, cur));
            assert(seq![(k, spec_filter(head.1, ex, kp))] + spec_filter_pairs(rest, ex, cur)
                =~= whole);
        }
    }
}

/// Law: with no exclusions, filtering changes nothing.
pub proof fn lemma_filter_no_exclusions(v: JsonView, cur: Seq<char>)
    ensures
        spec_filter(v, Seq::<Seq<char>>::empty(), cur) == v,
    decreases v, 0int,
{
    let ex = Seq::<Seq<char>>::empty();
    match v {
        JsonView::Arr(elems) => {
            lemma_filter_elems_no_exclusions(elems, cur);
            assert(spec_filter(v, ex, cur)->Arr_0 == elems);
        },
        JsonView::Obj(pairs) => {
            lemma_filter_pairs_no_exclusions(pairs, cur);
            assert(spec_filter(v, ex, cur)->Obj_0 == pairs);
        },
        _ => {},
    }
}

proof fn lemma_filter_elems_no_exclusions(elems: Seq<JsonView>, cur: Seq<char>)
    ensures
        spec_filter_elems(elems, Seq::<Seq<char>>::empty(), cur) == elems,
    decreases elems, 0int,
{
    let ex = Seq::<Seq<char>>::empty();
    if elems.len() == 0 {
        assert(spec_filter_elems(elems, ex, cur) =~= elems);
    } else {
        lemma_filter_no_exclusions(elems[0], cur);
        lemma_filter_elems_no_exclusions(elems.drop_first(), cur);
        assert(seq![elems[0]] + elems.drop_first() =~= elems);
    }
}

proof fn lemma_filter_pairs_no_exclusions(pairs: Seq<(Seq<char>, JsonView)>, cur: Seq<char>)
    ensures
        spec_filter_pairs(pairs, Seq::<Seq<char>>::empty(), cur) == pairs,
    decreases pairs, 0int,
{
    let ex = Seq::<Seq<char>>::empty();
    if pairs.len() == 0 {
        assert(spec_filter_pairs(pairs, ex, cur) =~= pairs);
    } else {
        let k = pairs[0].0;
        assert(!ex.contains(k) && !ex.contains(spec_key_path(cur, k)));
        lemma_filter_no_exclusions(pairs[0].1, spec_key_path(cur, k));
        lemma_filter_pairs_no_exclusions(pairs.drop_first(), cur);
        assert((k, pairs[0].1) == pairs[0]);
        assert(seq![pairs[0]] + pairs.drop_first() =~= pairs);
    }
}

/// A well-formed JSON value: every object carries each key at most once.
pub open spec fn wf_json(v: JsonView) -> bool
    decreases v,
{
    match v {
        JsonView::Arr(elems) => forall|i: int|
            0 <= i < elems.len() ==> wf_json(#[trigger] elems[i]),
        JsonView::Obj(pairs) => {
            &&& forall|i: int, j: int|
                0 <= i < j < pairs.len() ==> (#[trigger] pairs[i]).0 != (#[trigger] pairs[j]).0
            &&& forall|i: int| 0 <= i < pairs.len() ==> wf_json((#[trigger] pairs[i]).1)
        },
        _ => true,
    }
}

/// Law: comparing a well-formed value against itself always matches.
pub proof fn lemma_compare_reflexive(v: JsonView, path: Seq<char>)
    requires
        wf_json(v),
    ensures
        spec_compare(v, v, path) == OutcomeView::Match,
    decreases v, 0int,
{
    match v {
        JsonView::Arr(elems) => {
            lemma_compare_elems_reflexive(elems, path, 0);
        },
        JsonView::Obj(pairs) => {
            lemma_first_missing_self(pairs, 0);
            lemma_compare_fields_reflexive(pairs, path, 0);
        },
        _ => {},
    }
}

proof fn lemma_compare_elems_reflexive(elems: Seq<JsonView>, path: Seq<char>, i: int)
    requires
        forall|k: int| 0 <= k < elems.len() ==> wf_json(#[trigger] elems[k]),
        i >= 0,
    ensures
        spec_compare_elems(elems, elems, path, i) == OutcomeView::Match,
    decreases elems, elems.len() - i,
{
    if 0 <= i < elems.len() {
        lemma_compare_reflexive(elems[i], spec_item_path(path, i));
        lemma_compare_elems_reflexive(elems, path, i + 1);
    }
}

proof fn lemma_first_missing_self(pairs: Seq<(Seq<char>, JsonView)>, i: int)
    requires
        i >= 0,
    ensures
        spec_first_missing(pairs, pairs, i) is None,
    decreases pairs.len() - i,
{
    if 0 <= i < pairs.len() {
        assert(spec_has_key(pairs, pairs[i].0));
        lemma_first_missing_self(pairs, i + 1);
    }
}

proof fn lemma_compare_fields_reflexive(
    pairs: Seq<(Seq<char>, JsonView)>,
    path: Seq<char>,
    i: int,
)
    requires
        forall|a: int, b: int|
            0 <= a < b < pairs.len() ==> (#[trigger] pairs[a]).0 != (#[trigger] pairs[b]).0,
        forall|a: int| 0 <= a < pairs.len() ==> wf_json((#[trigger] pairs[a]).1),
        i >= 0,
    ensures
        spec_compare_fields(pairs, pairs, path, i) == OutcomeView::Match,
    decreases pairs, pairs.len() - i,
{
    if 0 <= i < pairs.len() {
        let k = pairs[i].0;
        lemma_field_index_from(pairs, k, 0);
        match crate::config::field_index_from(pairs, k, 0) {
            Some(j) => {
                if j != i {
                    assert(pairs[j].0 == pairs[i].0);
                    assert(false);
                }
                lemma_compare_reflexive(pairs[i].1, spec_key_path(path, k));
                lemma_compare_fields_reflexive(pairs, path, i + 1);
            },
            None => {
                assert(pairs[i].0 == k);
                assert(false);
            },
        }
    }
}


/// Law: a well-formed value filtered through no exclusions always matches
/// itself. (String leaves that name extant local paths are normalized at the
/// boundary, outside this statement, since what exists on disk can change
/// between readings of the two sides.)
pub proof fn lemma_validate_reflexive(v: JsonView)
    requires
        wf_json(v),
    ensures
        spec_compare(
            spec_filter(v, Seq::<Seq<char>>::empty(), Seq::<char>::empty()),
            spec_filter(v, Seq::<Seq<char>>::empty(), Seq::<char>::empty()),
            Seq::<char>::empty(),
        ) == OutcomeView::Match,
{
    lemma_filter_no_exclusions(v, Seq::<char>::empty());
    lemma_compare_reflexive(v, Seq::<char>::empty());
}

} // verus!

//! Resource files embedded in the markdown specification.
//!
//! A resource block is a collapsible block whose summary line reads
//! `Resource: <filename>` followed by a fenced code block holding the
//! literal file content. Matching is case-insensitive, crosses line breaks,
//! and takes the shortest well-formed block at each position, scanning left
//! to right without overlap.

use vstd::prelude::*;

use crate::scan::{
    find_ci_from, lemma_find_ci_from, lemma_skip_ws_from, lemma_trim_back, lemma_word_end_from,
    matches_ci, matches_ci_at, skip_ws, skip_ws_from, subvec, trim_back, trim_back_at, word_end,
    word_end_from, find_ci,
};

verus! {

/// The raw pieces of one resource block: the file name and the literal
/// content.
#[verifier::ext_equal]
pub struct RawResource {
    /// The file name.
    pub name: Seq<u8>,
    /// The content bytes.
    pub content: Seq<u8>,
}

/// Whether a fence at `v` closes the block: optional whitespace, then
/// `</summary>`, optional whitespace, then `</details>`.
pub open spec fn resource_tail_ok(s: Seq<u8>, v: int) -> bool {
    let u = skip_ws_from(s, v + 3);
    let d = skip_ws_from(s, u + 10);
    matches_ci_at(s, "</summary>"@, u) && matches_ci_at(s, "</details>"@, d)
}

/// The first position at or after `i` where a closing fence stands.
pub open spec fn content_end_from(s: Seq<u8>, i: int) -> Option<int>
    decreases s.len() - i,
{
    if i < 0 || i + 3 > s.len() {
        None
    } else if matches_ci_at(s, "```"@, i) && resource_tail_ok(s, i) {
        Some(i)
    } else {
        content_end_from(s, i + 1)
    }
}

/// What a found closing fence means.
pub proof fn lemma_content_end_from(s: Seq<u8>, i: int)
    requires
        i >= 0,
    ensures
        match content_end_from(s, i) {
            Some(v) => i <= v && v + 3 <= s.len() && matches_ci_at(s, "```"@, v)
                && resource_tail_ok(s, v),
            None => true,
        },
    decreases s.len() - i,
{
    if i + 3 <= s.len() && !(matches_ci_at(s, "```"@, i) && resource_tail_ok(s, i)) {
        lemma_content_end_from(s, i + 1);
    }
}

/// The resource block beginning exactly at `p`, if one does: its raw pieces
/// and the position just past the block.
pub open spec fn try_resource_at(s: Seq<u8>, p: int) -> Option<(RawResource, int)> {
    if !matches_ci_at(s, "<details>"@, p) {
        None
    } else {
        let q = skip_ws_from(s, p + 9);
        if !matches_ci_at(s, "<summary>"@, q) {
            None
        } else {
            let n0 = skip_ws_from(s, q + 9);
            if !matches_ci_at(s, "Resource: "@, n0) {
                None
            } else {
                let n1 = n0 + 10;
                match find_ci_from(s, "```"@, n1 + 1) {
                    None => None,
                    Some(t) => {
                        let ne = trim_back(s, n1 + 1, t);
                        let c0 = skip_ws_from(s, word_end_from(s, t + 3));
                        match content_end_from(s, c0 + 1) {
                            None => None,
                            Some(v) => {
                                let u = skip_ws_from(s, v + 3);
                                let d = skip_ws_from(s, u + 10);
                                Some(
                                    (
                                        RawResource {
                                            name: s.subrange(n1, ne),
                                            content: s.subrange(c0, v),
                                        },
                                        d + 10,
                                    ),
                                )
                            },
                        }
                    },
                }
            }
        }
    }
}

/// A matched resource block lies within the text and past its start.
pub proof fn lemma_try_resource_bounds(s: Seq<u8>, p: int)
    requires
        0 <= p,
        try_resource_at(s, p) is Some,
    ensures
        p < try_resource_at(s, p).unwrap().1 <= s.len(),
{
    reveal_strlit("<details>");
    reveal_strlit("<summary>");
    reveal_strlit("Resource: ");
    reveal_strlit("```");
    reveal_strlit("</summary>");
    reveal_strlit("</details>");
    let q = skip_ws_from(s, p + 9);
    lemma_skip_ws_from(s, p + 9);
    let n0 = skip_ws_from(s, q + 9);
    lemma_skip_ws_from(s, q + 9);
    let n1 = n0 + 10;
    lemma_find_ci_from(s, "```"@, n1 + 1);
    let t = find_ci_from(s, "```"@, n1 + 1).unwrap();
    lemma_word_end_from(s, t + 3);
    let l = word_end_from(s, t + 3);
    lemma_skip_ws_from(s, l);
    let c0 = skip_ws_from(s, l);
    lemma_content_end_from(s, c0 + 1);
    let v = content_end_from(s, c0 + 1).unwrap();
    lemma_skip_ws_from(s, v + 3);
    let u = skip_ws_from(s, v + 3);
    lemma_skip_ws_from(s, u + 10);
}

#[via_fn]
proof fn scan_resources_decreases(s: Seq<u8>, i: int) {
    if 0 <= i < s.len() && try_resource_at(s, i) is Some {
        lemma_try_resource_bounds(s, i);
    }
}

/// All resource blocks at or after `i`, in order of appearance; scanning
/// resumes past each block.
pub open spec fn scan_resources(s: Seq<u8>, i: int) -> Seq<RawResource>
    decreases s.len() - i,
    via scan_resources_decreases
{
    if i < 0 || i >= s.len() {
        Seq::empty()
    } else {
        match try_resource_at(s, i) {
            Some(re) => seq![re.0] + scan_resources(s, re.1),
            None => scan_resources(s, i + 1),
        }
    }
}

/// The resource blocks of a markdown document, in order of appearance.
pub open spec fn spec_resources(s: Seq<u8>) -> Seq<RawResource> {
    scan_resources(s, 0)
}

/// A resource file.
#[derive(Debug, Clone, PartialEq, Eq)]
pub struct Resource {
    /// The file name.
    pub filename: Vec<u8>,
    /// The source of the resource file.
    pub src: Vec<u8>,
}

impl View for Resource {
    type V = RawResource;

    open spec fn view(&self) -> RawResource {
        RawResource { name: self.filename@, content: self.src@ }
    }
}

impl Resource {
    /// Gets the file name.
    pub fn filename(&self) -> (r: &Vec<u8>)
        ensures
            r@ == self@.name,
    {
        &self.filename
    }

    /// Gets the source of the resource file.
    pub fn src(&self) -> (r: &Vec<u8>)
        ensures
            r@ == self@.content,
    {
        &self.src
    }
}

/// A set of resource files.
#[derive(Debug, Clone, PartialEq, Eq)]
pub struct Resources(pub Vec<Resource>);

impl Resources {
    /// Turns a markdown specification into the resources it embeds, in order
    /// of appearance.
    pub fn compile(contents: &Vec<u8>) -> (r: Resources)
        ensures
            r.0@.len() == spec_resources(contents@).len(),
            forall|k: int|
                0 <= k < r.0@.len() ==> (#[trigger] r.0@[k])@.name == spec_resources(contents@)[k].name
                    && r.0@[k]@.content == spec_resources(contents@)[k].content,
    {
        let mut acc: Vec<Resource> = Vec::new();
        let mut i: usize = 0;
        let ghost whole = scan_resources(contents@, 0);
        proof {
            assert(Seq::new(acc@.len(), |k: int| acc@[k]@) =~= Seq::<RawResource>::empty());
            assert(Seq::<RawResource>::empty() + scan_resources(contents@, 0) =~= whole);
        }
        loop
            invariant
                0 <= i <= contents@.len(),
                whole == scan_resources(contents@, 0),
                Seq::new(acc@.len(), |k: int| acc@[k]@) + scan_resources(contents@, i as int)
                    =~= whole,
            decreases contents@.len() - i,
        {
            if i >= contents.len() {
                proof {
                    assert(Seq::new(acc@.len(), |k: int| acc@[k]@) =~= whole);
                    assert(forall|k: int|
                        0 <= k < acc@.len() ==> (#[trigger] acc@[k])@ == whole[k]);
                }
                return Resources(acc);
            }
            match try_resource(contents, i) {
                Some(m) => {
                    let ghost prev = Seq::new(acc@.len(), |k: int| acc@[k]@);
                    let filename = subvec(contents, m.0, m.1);
                    let src = subvec(contents, m.2, m.3);
                    let re = Resource { filename, src };
                    proof {
                        assert(re@ =~= try_resource_at(contents@, i as int).unwrap().0);
                        lemma_try_resource_bounds(contents@, i as int);
                    }
                    acc.push(re);
                    proof {
                        let cur = Seq::new(acc@.len(), |k: int| acc@[k]@);
                        assert(cur =~= prev.push(re@));
                        assert(prev.push(re@) + scan_resources(contents@, m.4 as int) =~= prev + (
                        seq![re@] + scan_resources(contents@, m.4 as int)));
                    }
                    i = m.4;
                },
                None => {
                    i += 1;
                },
            }
        }
    }

    /// The resources, in order of appearance.
    pub fn iter(&self) -> (r: &Vec<Resource>)
        ensures
            r == &self.0,
    {
        &self.0
    }
}

/// Tries to read a resource block at position `p`; on success, the name
/// range, the content range and the end of the block.
fn try_resource(s: &Vec<u8>, p: usize) -> (r: Option<(usize, usize, usize, usize, usize)>)
    requires
        p < s@.len(),
    ensures
        match r {
            Some(m) => {
                &&& try_resource_at(s@, p as int) is Some
                &&& m.0 <= m.1 <= s@.len()
                &&& m.2 <= m.3 <= s@.len()
                &&& try_resource_at(s@, p as int).unwrap().0.name == s@.subrange(
                    m.0 as int,
                    m.1 as int,
                )
                &&& try_resource_at(s@, p as int).unwrap().0.content == s@.subrange(
                    m.2 as int,
                    m.3 as int,
                )
                &&& try_resource_at(s@, p as int).unwrap().1 == m.4 as int
            },
            None => try_resource_at(s@, p as int) is None,
        },
{
    let slen: usize = s.len();
    proof {
        reveal_strlit("<details>");
        reveal_strlit("<summary>");
        reveal_strlit("Resource: ");
        reveal_strlit("```");
        reveal_strlit("</summary>");
        reveal_strlit("</details>");
        assert("<details>".is_ascii());
        assert("<summary>".is_ascii());
        assert("Resource: ".is_ascii());
        assert("```".is_ascii());
        assert("</summary>".is_ascii());
        assert("</details>".is_ascii());
        assert(s@.len() == slen as int);
    }
    if !matches_ci(s, "<details>", p) {
        return None;
    }
    let q = skip_ws(s, p + 9);
    if !matches_ci(s, "<summary>", q) {
        return None;
    }
    let n0 = skip_ws(s, q + 9);
    if !matches_ci(s, "Resource: ", n0) {
        return None;
    }
    let n1 = n0 + 10;
    if n1 >= s.len() {
        proof {
            lemma_find_ci_from(s@, "```"@, n1 + 1);
        }
        return None;
    }
    let t = match find_ci(s, "```", n1 + 1) {
        Some(t) => t,
        None => {
            return None;
        },
    };
    proof {
        lemma_find_ci_from(s@, "```"@, n1 + 1);
    }
    let ne = trim_back_at(s, n1 + 1, t);
    let l = word_end(s, t + 3);
    let c0 = skip_ws(s, l);
    if c0 >= s.len() {
        return None;
    }
    let v = match content_end(s, c0 + 1) {
        Some(v) => v,
        None => {
            return None;
        },
    };
    proof {
        lemma_content_end_from(s@, c0 as int + 1);
    }
    let u = skip_ws(s, v + 3);
    let d = skip_ws(s, u + 10);
    Some((n1, ne, c0, v, d + 10))
}

/// The first closing fence at or after `from`.
#[verifier::loop_isolation(false)]
fn content_end(s: &Vec<u8>, from: usize) -> (r: Option<usize>)
    requires
        from <= s@.len(),
    ensures
        match r {
            Some(v) => content_end_from(s@, from as int) == Some(v as int) && from <= v
                && v + 3 <= s@.len(),
            None => content_end_from(s@, from as int) is None,
        },
{
    let slen: usize = s.len();
    proof {
        reveal_strlit("```");
        reveal_strlit("</summary>");
        reveal_strlit("</details>");
        assert("```".is_ascii());
        assert("</summary>".is_ascii());
        assert("</details>".is_ascii());
        assert(s@.len() == slen as int);
    }
    let mut i: usize = from;
    loop
        invariant
            from <= i,
            content_end_from(s@, from as int) == content_end_from(s@, i as int),
        decreases s@.len() + 1 - i,
    {
        if i > s.len() || s.len() - i < 3 {
            return None;
        }
        if matches_ci(s, "```", i) {
            let u = skip_ws(s, i + 3);
            if matches_ci(s, "</summary>", u) {
                if u + 10 <= s.len() {
                    let d = skip_ws(s, u + 10);
                    if matches_ci(s, "</details>", d) {
                        proof {
                            lemma_content_end_from(s@, i as int);
                        }
                        return Some(i);
                    }
                }
            }
        }
        i += 1;
    }
}

} // verus!

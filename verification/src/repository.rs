//! The specification repository a run checks its tests out of.
//!
//! Cloning and opening the repository are outside work; this type only
//! carries where it lives and what to check out.

use vstd::prelude::*;

verus! {

/// The byte encoding of a string.
pub open spec fn str_bytes(s: Seq<char>) -> Seq<u8> {
    vstd::utf8::encode_utf8(s)
}

/// The default URL for the specification repository.
pub open spec fn spec_default_url() -> Seq<u8> {
    str_bytes("https://github.com/openwdl/wdl.git"@)
}

/// The WDL specification repository.
#[derive(Debug, Clone, PartialEq, Eq)]
pub struct Repository {
    /// The local directory.
    ///
    /// An empty local directory signifies that a temporary directory should
    /// be created upon checkout.
    pub local_dir: Option<Vec<u8>>,
    /// The branch to check out.
    pub branch: Vec<u8>,
    /// The remote url.
    pub url: Vec<u8>,
}

/// A builder for [`Repository`]; the branch must be given, the rest may.
pub struct RepositoryBuilder {
    /// The local directory, if given.
    pub local_dir: Option<Vec<u8>>,
    /// The branch, once given.
    pub branch: Option<Vec<u8>>,
    /// The URL, if given.
    pub url: Option<Vec<u8>>,
}

impl RepositoryBuilder {
    /// Sets the branch to check out.
    pub fn branch(self, branch: &str) -> (r: RepositoryBuilder)
        ensures
            r.branch matches Some(b) && b@ == str_bytes(branch@),
            r.local_dir == self.local_dir,
            r.url == self.url,
    {
        RepositoryBuilder { branch: Some(branch.as_bytes_vec()), ..self }
    }

    /// Sets the remote URL.
    pub fn url(self, url: &str) -> (r: RepositoryBuilder)
        ensures
            r.url matches Some(u) && u@ == str_bytes(url@),
            r.local_dir == self.local_dir,
            r.branch == self.branch,
    {
        RepositoryBuilder { url: Some(url.as_bytes_vec()), ..self }
    }

    /// Sets the local directory, if one is given.
    pub fn maybe_local_dir(self, local_dir: Option<Vec<u8>>) -> (r: RepositoryBuilder)
        ensures
            r.local_dir == local_dir,
            r.branch == self.branch,
            r.url == self.url,
    {
        RepositoryBuilder { local_dir, ..self }
    }

    /// Builds the repository; the URL falls back to the default.
    pub fn build(self) -> (r: Repository)
        requires
            self.branch is Some,
        ensures
            r.local_dir == self.local_dir,
            r.branch == self.branch.unwrap(),
            r.url@ == (match self.url {
                Some(u) => u@,
                None => spec_default_url(),
            }),
    {
        proof {
            reveal_strlit("https://github.com/openwdl/wdl.git");
        }
        let url = match self.url {
            Some(u) => u,
            None => "https://github.com/openwdl/wdl.git".as_bytes_vec(),
        };
        let branch = match self.branch {
            Some(b) => b,
            None => Vec::new(),
        };
        Repository { local_dir: self.local_dir, branch, url }
    }
}

impl Repository {
    /// Starts building a repository.
    pub fn builder() -> (r: RepositoryBuilder)
        ensures
            r.local_dir is None,
            r.branch is None,
            r.url is None,
    {
        RepositoryBuilder { local_dir: None, branch: None, url: None }
    }

    /// Gets a reference to the local directory.
    pub fn local_dir(&self) -> (r: Option<&Vec<u8>>)
        ensures
            match r {
                Some(d) => self.local_dir == Some(*d),
                None => self.local_dir is None,
            },
    {
        match &self.local_dir {
            Some(d) => Some(d),
            None => None,
        }
    }

    /// Gets a reference to the URL.
    pub fn url(&self) -> (r: &Vec<u8>)
        ensures
            r == &self.url,
    {
        &self.url
    }

    /// Gets a reference to the branch.
    pub fn branch(&self) -> (r: &Vec<u8>)
        ensures
            r == &self.branch,
    {
        &self.branch
    }
}

} // verus!

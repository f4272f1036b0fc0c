//! A model of the filesystem facts the conversion reads.
//!
//! The build-distribution translator only asks whether a path is a file and
//! whether a path exists. Those answers are carried in a plain value, so the
//! translation itself is a pure function of its inputs; the caller fills the
//! oracle by probing the project directory, and a path it does not list
//! counts as absent.

use crate::text;
use crate::utils::{seq_has_str, str_views};
use vstd::prelude::*;

verus! {

/// The filesystem facts of one project directory: which project-relative
/// paths are files, and which exist at all.
pub struct FsOracle {
    pub files: Vec<String>,
    pub existing: Vec<String>,
}

/// Whether the oracle holds the path as a file.
pub open spec fn oracle_is_file(o: FsOracle, p: Seq<char>) -> bool {
    seq_has_str(str_views(o.files@), p)
}

/// Whether the oracle holds the path as existing.
pub open spec fn oracle_exists(o: FsOracle, p: Seq<char>) -> bool {
    seq_has_str(str_views(o.existing@), p)
}

impl FsOracle {
    pub fn new() -> (r: FsOracle)
        ensures
            r.files@.len() == 0,
            r.existing@.len() == 0,
    {
        FsOracle { files: Vec::new(), existing: Vec::new() }
    }

    /// Record a project-relative path as an existing file.
    pub fn add_file(&mut self, p: String)
        ensures
            final(self).files@ == old(self).files@.push(p),
            final(self).existing@ == old(self).existing@.push(p),
    {
        self.existing.push(p.clone());
        self.files.push(p);
    }

    /// Record a project-relative path as existing (a directory, say).
    pub fn add_existing(&mut self, p: String)
        ensures
            final(self).files@ == old(self).files@,
            final(self).existing@ == old(self).existing@.push(p),
    {
        self.existing.push(p);
    }

    pub fn is_file(&self, p: &Vec<char>) -> (r: bool)
        ensures
            r == oracle_is_file(*self, p@),
    {
        crate::utils::vec_has_string(&self.files, p)
    }

    pub fn path_exists(&self, p: &Vec<char>) -> (r: bool)
        ensures
            r == oracle_exists(*self, p@),
    {
        crate::utils::vec_has_string(&self.existing, p)
    }
}

/// Two relative path pieces joined with a slash; an empty left piece yields
/// the right piece alone.
pub open spec fn spec_join_path(a: Seq<char>, b: Seq<char>) -> Seq<char> {
    if a.len() == 0 {
        b
    } else {
        a + seq!['/'] + b
    }
}

pub fn join_path(a: &Vec<char>, b: &Vec<char>) -> (r: Vec<char>)
    ensures
        r@ == spec_join_path(a@, b@),
{
    let mut r: Vec<char> = Vec::new();
    if a.len() == 0 {
        text::append_chars(&mut r, b);
        return r;
    }
    text::append_chars(&mut r, a);
    r.push('/');
    text::append_chars(&mut r, b);
    proof {
        assert(r@ =~= a@ + seq!['/'] + b@);
    }
    r
}

} // verus!

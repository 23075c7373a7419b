//! Reading documents.

use vstd::prelude::*;

use crate::errors::ConfigError;
use crate::paths::{join, joined, parent, parent_of, separator};
use crate::text::{ends_with, same_text, strip_prefix};
use crate::value::{imported, parsed, Node};

verus! {

/// Reads `text`, the content of the file at `path`, as a document.
pub fn parse(path: &str, text: &str) -> (r: Result<Node, ConfigError>)
    ensures
        match parsed(text@) {
            Some(raw) => r is Ok && r->Ok_0@ == imported(raw),
            None => r matches Err(ConfigError::InvalidToml { path: p, .. }) && p@ == path@,
        },
        r matches Ok(node) ==> node@.wf(),
{
    match Node::parse(text) {
        Ok(table) => Ok(table),
        Err(e) => Err(ConfigError::InvalidToml { path: path.to_owned(), message: e.message }),
    }
}

/// What to do next to find a file in a directory or in one that holds it.
#[derive(Debug)]
pub enum Search<'p> {
    /// See whether there is a file at `candidate`, which is where the file
    /// would be in `dir`.
    Probe { dir: &'p str, candidate: String },
    /// The file is in this directory.
    Found(&'p str),
    /// The file is in none of the directories.
    Missing,
}

/// One step of the search for `file` in `dir` and the directories that hold
/// it, nearest first. `exists` says whether the file was found in `dir`;
/// it is `None` before `dir` was looked at.
pub fn search<'p>(dir: &'p str, file: &str, found: Option<bool>) -> (r: Search<'p>)
    ensures
        match found {
            None => r matches Search::Probe { dir: d, candidate } && d@ == dir@ && candidate@
                == joined(dir@, file@),
            Some(true) => r matches Search::Found(d) && d@ == dir@,
            Some(false) => match parent_of(dir@) {
                Some(up) => r matches Search::Probe { dir: d, candidate } && d@ == up && candidate@
                    == joined(up, file@),
                None => r is Missing,
            },
        },
{
    match found {
        None => Search::Probe { dir, candidate: join(dir, file) },
        Some(true) => Search::Found(dir),
        Some(false) => match parent(dir) {
            Some(up) => Search::Probe { dir: up, candidate: join(up, file) },
            None => Search::Missing,
        },
    }
}

/// A search goes up: the directory that holds another has the shorter path,
/// so a search ends.
pub proof fn lemma_search_goes_up(dir: Seq<char>)
    ensures
        parent_of(dir) matches Some(up) ==> up.len() < dir.len(),
{
    crate::paths::lemma_parent_is_shorter(dir);
}

/// The path of `entry` from the directory `base` on, where `entry` is
/// `base` or lies under it.
pub open spec fn relative_to(entry: Seq<char>, base: Seq<char>) -> Option<Seq<char>> {
    if entry == base {
        Some(Seq::empty())
    } else if separator().is_suffix_of(base) && base.is_prefix_of(entry) {
        Some(entry.skip(base.len() as int))
    } else if (base + separator()).is_prefix_of(entry) {
        Some(entry.skip((base.len() + separator().len()) as int))
    } else {
        None
    }
}

/// What is done with one entry of a directory that is copied.
#[derive(Debug)]
pub enum CopyStep {
    /// Make the directory at this path, and those that hold it.
    MakeDir(String),
    /// Copy the file at `from` to `to`.
    CopyFile { from: String, to: String },
}

/// What copying the directory `src` to `dst` does with `entry`, which was
/// found under `src`: a directory is made at the same place under `dst`, a
/// file is copied there.
pub fn cp_r(src: &str, dst: &str, entry: &str, is_dir: bool) -> (r: Result<CopyStep, ConfigError>)
    ensures
        match relative_to(entry@, src@) {
            Some(rest) => if is_dir {
                r matches Ok(CopyStep::MakeDir(path)) && path@ == joined(dst@, rest)
            } else {
                r matches Ok(CopyStep::CopyFile { from, to }) && from@ == entry@ && to@ == joined(
                    dst@,
                    rest,
                )
            },
            None => r matches Err(ConfigError::NotUnder { entry: e, base }) && e@ == entry@
                && base@ == src@,
        },
{
    let rest: &str = if same_text(entry, src) {
        ""
    } else if ends_with(src, "/") {
        match strip_prefix(entry, src) {
            Some(rest) => {
                proof {
                    lemma_rest_behind(src@, rest@, entry@);
                }
                rest
            },
            None => {
                proof {
                    lemma_not_under(entry@, src@);
                }
                return Err(ConfigError::NotUnder { entry: entry.to_owned(), base: src.to_owned() });
            },
        }
    } else {
        let base = src.to_owned().concat("/");
        match strip_prefix(entry, base.as_str()) {
            Some(rest) => {
                proof {
                    lemma_rest_behind(base@, rest@, entry@);
                }
                rest
            },
            None => {
                return Err(ConfigError::NotUnder { entry: entry.to_owned(), base: src.to_owned() });
            },
        }
    };
    proof {
        reveal_strlit("");
        assert(""@.len() == 0);
        assert(""@ =~= Seq::<char>::empty());
    }
    let to = join(dst, rest);
    if is_dir {
        Ok(CopyStep::MakeDir(to))
    } else {
        Ok(CopyStep::CopyFile { from: entry.to_owned(), to })
    }
}

/// What stands behind the start of a text.
proof fn lemma_rest_behind(start: Seq<char>, rest: Seq<char>, whole: Seq<char>)
    requires
        whole == start + rest,
    ensures
        start.is_prefix_of(whole),
        whole.skip(start.len() as int) == rest,
{
    assert(whole.subrange(0, start.len() as int) =~= start);
    assert(whole.skip(start.len() as int) =~= rest);
}

/// A path that does not start with a directory's path does not start with
/// that path and a separator behind it either.
proof fn lemma_not_under(entry: Seq<char>, base: Seq<char>)
    requires
        !base.is_prefix_of(entry),
    ensures
        !(base + separator()).is_prefix_of(entry),
{
    let longer = base + separator();
    if longer.is_prefix_of(entry) {
        assert(entry.subrange(0, base.len() as int) =~= longer.subrange(0, base.len() as int));
        assert(longer.subrange(0, base.len() as int) =~= base);
    }
}

} // verus!

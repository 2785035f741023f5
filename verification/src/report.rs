//! The list of archives that show the import, in the order in which they
//! were scanned.

use vstd::prelude::*;
use crate::archive::{
    archive_members, archive_outcome, lemma_match_decides, lemma_no_match_decides, passes_over,
    rlib_contains_import, shows, MalformedArchive,
};
use crate::import::{pair_of, ImportPair};
use crate::layout::{first_walk, reaches};

verus! {

/// The archives that showed the import so far, each by the path it was
/// scanned under.
pub struct Report {
    shown: Vec<String>,
}

impl View for Report {
    type V = Seq<String>;

    closed spec fn view(&self) -> Seq<String> {
        self.shown@
    }
}

/// The list `before` after an archive scanned under `path` gave `outcome`: the
/// path is added behind the others if the archive shows the import, and the
/// list stays as it is otherwise.
pub open spec fn recorded(
    before: Seq<String>,
    path: String,
    outcome: Result<bool, MalformedArchive>,
) -> Seq<String> {
    if outcome == Ok::<bool, MalformedArchive>(true) {
        before.push(path)
    } else {
        before
    }
}

/// An archive in which the member at `at` shows the import, the scan passes
/// over those before it and the walk reaches it, is added to the list once,
/// however many members it has and whatever lies behind that member.
pub proof fn lemma_one_match_is_shown_once(
    before: Seq<String>,
    path: String,
    archive: Seq<u8>,
    at: nat,
    query: ImportPair,
)
    requires
        at < archive_members(archive).len(),
        reaches(archive, first_walk(archive), at),
        forall|i: int| 0 <= i < at ==> passes_over(#[trigger] archive_members(archive)[i], query),
        shows(archive_members(archive)[at as int], query),
    ensures
        archive_outcome(archive, query) == Ok::<bool, MalformedArchive>(true),
        recorded(before, path, archive_outcome(archive, query)) == before.push(path),
{
    lemma_match_decides(archive, first_walk(archive), archive_members(archive), at, query);
}

/// An archive of which every member is passed over, and in which the walk
/// reaches the end, is not added to the list.
pub proof fn lemma_no_match_is_not_shown(
    before: Seq<String>,
    path: String,
    archive: Seq<u8>,
    query: ImportPair,
)
    requires
        reaches(archive, first_walk(archive), archive_members(archive).len()),
        forall|i: int|
            0 <= i < archive_members(archive).len() ==> passes_over(
                #[trigger] archive_members(archive)[i],
                query,
            ),
    ensures
        archive_outcome(archive, query) == Ok::<bool, MalformedArchive>(false),
        recorded(before, path, archive_outcome(archive, query)) == before,
{
    lemma_no_match_decides(archive, first_walk(archive), archive_members(archive), query);
}

/// An archive that cannot be read to the point that decides is not added to
/// the list.
pub proof fn lemma_error_is_not_shown(
    before: Seq<String>,
    path: String,
    archive: Seq<u8>,
    query: ImportPair,
)
    requires
        archive_outcome(archive, query) is Err,
    ensures
        recorded(before, path, archive_outcome(archive, query)) == before,
{
}

impl Report {
    /// A report with no archive in it.
    pub fn new() -> (report: Report)
        ensures
            report@ == Seq::<String>::empty(),
    {
        Report { shown: Vec::new() }
    }

    /// Scans the archive `archive`, found under `path`, and adds the path to
    /// the report if the archive shows an import of `name` from `module`.
    ///
    /// An archive that cannot be read leaves the report as it is, and its
    /// error is handed on.
    pub fn add_archive(&mut self, path: String, archive: &[u8], module: &str, name: &str) -> (done:
        Result<(), MalformedArchive>)
        ensures
            final(self)@ == recorded(
                old(self)@,
                path,
                archive_outcome(archive@, pair_of(module, name)),
            ),
            done is Ok == archive_outcome(archive@, pair_of(module, name)) is Ok,
            done matches Err(error) ==> archive_outcome(archive@, pair_of(module, name)) == Err::<
                bool,
                MalformedArchive,
            >(error),
    {
        match rlib_contains_import(archive, module, name) {
            Ok(true) => {
                self.shown.push(path);
                Ok(())
            },
            Ok(false) => Ok(()),
            Err(error) => Err(error),
        }
    }

    /// The paths of the archives that show the import, in the order in which
    /// they were added.
    pub fn paths(&self) -> (paths: &Vec<String>)
        ensures
            paths@ == self@,
    {
        &self.shown
    }

    /// Whether no archive showed the import.
    pub fn is_empty(&self) -> (empty: bool)
        ensures
            empty == (self@.len() == 0),
    {
        self.shown.len() == 0
    }
}

} // verus!

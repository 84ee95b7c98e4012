//! The resolver: the candidate rule, the deterministic selection among
//! candidates, the error taxonomy, and the decision taken for each way an
//! observation of the meeting folder can turn out.

use vstd::prelude::*;

use crate::extension::has_recognized_extension;
use crate::extension::name_has_recognized_extension;
use crate::text::lemma_lex_le_antisymmetric;
use crate::text::lemma_lex_lt_connected;
use crate::text::lemma_lex_lt_transitive;
use crate::text::lex_le;
use crate::text::str_lt;
use vstd::string::StringExecFns;

verus! {

/// One immediate entry of the meeting folder, as the caller observed it:
/// the entry's full path, its file name, and whether it is a regular file.
/// The candidate rule reads the name; the selection rule orders candidates
/// by their full path.
pub struct FolderEntry {
    pub path: String,
    pub name: String,
    pub is_regular: bool,
}

/// What one observation of the file system saw of the meeting folder.
pub enum FolderView {
    /// The supplied path could not be resolved to an existing object;
    /// `cause` is the underlying OS error text.
    Unresolved { cause: String },
    /// The path resolved to an existing object that is not a directory.
    NotDirectory,
    /// The path resolved to a directory whose contents could not be
    /// listed; `cause` is the underlying OS error text.
    Unreadable { cause: String },
    /// The directory could be listed: one entry for each immediate member
    /// that could be inspected (entries whose inspection failed are simply
    /// left out by the observer).
    Listed { entries: Vec<FolderEntry> },
}

/// Why a lookup failed.
#[derive(Debug)]
pub enum ResolveError {
    /// The input path cannot be resolved to an existing filesystem object.
    PathResolution { input: String, cause: String },
    /// The resolved object exists but is not a directory.
    NotADirectory { input: String },
    /// The directory exists but its contents cannot be listed.
    DirectoryRead { input: String, cause: String },
}

impl ResolveError {
    /// Human-readable description of the failure: the stage that failed,
    /// the offending input, and the underlying cause.
    pub fn message(&self) -> (r: String)
        ensures
            match self {
                ResolveError::PathResolution { input, cause } => r@ == "Failed to resolve path "@
                    + input@ + ": "@ + cause@,
                ResolveError::NotADirectory { input } => r@ == "Path is not a directory: "@
                    + input@,
                ResolveError::DirectoryRead { input, cause } => r@ == "Failed to read directory "@
                    + input@ + ": "@ + cause@,
            },
    {
        match self {
            ResolveError::PathResolution { input, cause } => {
                let mut s = "Failed to resolve path ".to_owned();
                s.append(input.as_str());
                s.append(": ");
                s.append(cause.as_str());
                s
            },
            ResolveError::NotADirectory { input } => {
                let mut s = "Path is not a directory: ".to_owned();
                s.append(input.as_str());
                s
            },
            ResolveError::DirectoryRead { input, cause } => {
                let mut s = "Failed to read directory ".to_owned();
                s.append(input.as_str());
                s.append(": ");
                s.append(cause.as_str());
                s
            },
        }
    }
}

/// The candidate rule: an entry may be the recording only when it is a
/// regular file and its name carries a recognized extension.
pub open spec fn is_candidate(e: FolderEntry) -> bool {
    e.is_regular && name_has_recognized_extension(e.name@)
}

/// Executable form of the candidate rule.
pub fn entry_is_candidate(e: &FolderEntry) -> (r: bool)
    ensures
        r == is_candidate(*e),
{
    e.is_regular && has_recognized_extension(e.name.as_str())
}

/// The view of an optional path: the character sequence it carries, if any.
pub open spec fn selected_view(r: Option<String>) -> Option<Seq<char>> {
    match r {
        Some(p) => Some(p@),
        None => None,
    }
}

/// What the selection rule demands of a result `r` for the entry sequence
/// `entries`: absent exactly when no entry is a candidate, and otherwise
/// the path of a candidate that no candidate's path precedes.
pub open spec fn is_selected(entries: Seq<FolderEntry>, r: Option<Seq<char>>) -> bool {
    match r {
        None => forall|j: int| 0 <= j < entries.len() ==> !is_candidate(entries[j]),
        Some(p) => {
            &&& exists|k: int|
                0 <= k < entries.len() && is_candidate(entries[k]) && entries[k].path@ == p
            &&& forall|j: int|
                0 <= j < entries.len() && is_candidate(entries[j]) ==> lex_le(p, entries[j].path@)
        },
    }
}

/// The selection stage: among the candidate entries, the one whose full
/// path is lexicographically smallest; absence when there is no candidate.
pub fn select_recording(entries: &Vec<FolderEntry>) -> (r: Option<String>)
    ensures
        is_selected(entries@, selected_view(r)),
{
    let n = entries.len();
    let mut best: Option<usize> = None;
    let mut i: usize = 0;
    while i < n
        invariant
            0 <= i <= n,
            n == entries@.len(),
            match best {
                None => forall|j: int| 0 <= j < i ==> !is_candidate(entries@[j]),
                Some(k) => {
                    &&& 0 <= k < i
                    &&& is_candidate(entries@[k as int])
                    &&& forall|j: int|
                        0 <= j < i && is_candidate(entries@[j]) ==> lex_le(
                            entries@[k as int].path@,
                            entries@[j].path@,
                        )
                },
            },
        decreases n - i,
    {
        if entry_is_candidate(&entries[i]) {
            match best {
                None => {
                    best = Some(i);
                },
                Some(k) => {
                    let ghost pi = entries@[i as int].path@;
                    let ghost pk = entries@[k as int].path@;
                    if str_lt(entries[i].path.as_str(), entries[k].path.as_str()) {
                        proof {
                            assert forall|j: int|
                                0 <= j < i + 1 && is_candidate(entries@[j]) implies lex_le(
                                pi,
                                entries@[j].path@,
                            ) by {
                                if j < i {
                                    let pj = entries@[j].path@;
                                    if pk == pj {
                                        assert(lex_le(pi, pj));
                                    } else {
                                        lemma_lex_lt_transitive(pi, pk, pj);
                                    }
                                }
                            }
                        }
                        best = Some(i);
                    } else {
                        proof {
                            if pk != pi {
                                lemma_lex_lt_connected(pk, pi);
                            }
                        }
                    }
                },
            }
        }
        i += 1;
    }
    match best {
        None => None,
        Some(k) => Some(entries[k].path.clone()),
    }
}

/// What the whole lookup must return, given the caller's input and what
/// the observation of the file system saw: each failed observation becomes
/// its error, carrying the original input and the underlying cause, and a
/// listed directory yields the selected recording or absence.
pub open spec fn resolution_matches(
    input: Seq<char>,
    view: FolderView,
    r: Result<Option<String>, ResolveError>,
) -> bool {
    match view {
        FolderView::Unresolved { cause } => r matches Err(
            ResolveError::PathResolution { input: i, cause: c },
        ) && i@ == input && c@ == cause@,
        FolderView::NotDirectory => r matches Err(ResolveError::NotADirectory { input: i })
            && i@ == input,
        FolderView::Unreadable { cause } => r matches Err(
            ResolveError::DirectoryRead { input: i, cause: c },
        ) && i@ == input && c@ == cause@,
        FolderView::Listed { entries } => r matches Ok(sel) && is_selected(
            entries@,
            selected_view(sel),
        ),
    }
}

/// One whole lookup: the decision taken for what the caller observed of
/// the meeting folder named by `input`.  Absence of a recording in a
/// listed directory is success, not an error.
pub fn resolve_recording(input: &str, view: FolderView) -> (r: Result<
    Option<String>,
    ResolveError,
>)
    ensures
        resolution_matches(input@, view, r),
{
    match view {
        FolderView::Unresolved { cause } => Err(
            ResolveError::PathResolution { input: input.to_owned(), cause },
        ),
        FolderView::NotDirectory => Err(ResolveError::NotADirectory { input: input.to_owned() }),
        FolderView::Unreadable { cause } => Err(
            ResolveError::DirectoryRead { input: input.to_owned(), cause },
        ),
        FolderView::Listed { entries } => Ok(select_recording(&entries)),
    }
}

/// A lookup outcome stripped to its mathematical content: which case it
/// is, and the character sequences it carries.
pub enum Resolution {
    Found(Seq<char>),
    NoRecording,
    FailedResolution { input: Seq<char>, cause: Seq<char> },
    FailedNotDirectory { input: Seq<char> },
    FailedRead { input: Seq<char>, cause: Seq<char> },
}

/// The abstract content of a lookup result: the views of the strings it
/// carries.
pub open spec fn result_abstract(r: Result<Option<String>, ResolveError>) -> Resolution {
    match r {
        Ok(sel) => match sel {
            Some(p) => Resolution::Found(p@),
            None => Resolution::NoRecording,
        },
        Err(e) => match e {
            ResolveError::PathResolution { input, cause } => Resolution::FailedResolution {
                input: input@,
                cause: cause@,
            },
            ResolveError::NotADirectory { input } => Resolution::FailedNotDirectory {
                input: input@,
            },
            ResolveError::DirectoryRead { input, cause } => Resolution::FailedRead {
                input: input@,
                cause: cause@,
            },
        },
    }
}

/// Selection is deterministic: the selection rule admits only one outcome
/// for a given entry sequence.
pub proof fn lemma_selection_unique(
    entries: Seq<FolderEntry>,
    r1: Option<Seq<char>>,
    r2: Option<Seq<char>>,
)
    requires
        is_selected(entries, r1),
        is_selected(entries, r2),
    ensures
        r1 == r2,
{
    match (r1, r2) {
        (Option::Some(p1), Option::Some(p2)) => {
            let k1 = choose|k: int|
                0 <= k < entries.len() && is_candidate(entries[k]) && entries[k].path@ == p1;
            let k2 = choose|k: int|
                0 <= k < entries.len() && is_candidate(entries[k]) && entries[k].path@ == p2;
            assert(lex_le(p1, entries[k2].path@));
            assert(lex_le(p2, entries[k1].path@));
            lemma_lex_le_antisymmetric(p1, p2);
        },
        (Option::Some(p1), Option::None) => {
            let k1 = choose|k: int|
                0 <= k < entries.len() && is_candidate(entries[k]) && entries[k].path@ == p1;
            assert(!is_candidate(entries[k1]));
        },
        (Option::None, Option::Some(p2)) => {
            let k2 = choose|k: int|
                0 <= k < entries.len() && is_candidate(entries[k]) && entries[k].path@ == p2;
            assert(!is_candidate(entries[k2]));
        },
        (Option::None, Option::None) => {},
    }
}

/// A folder holding exactly one candidate entry resolves to that entry's
/// path.
pub proof fn lemma_single_candidate(entries: Seq<FolderEntry>, k: int, r: Option<Seq<char>>)
    requires
        0 <= k < entries.len(),
        is_candidate(entries[k]),
        forall|j: int| 0 <= j < entries.len() && j != k ==> !is_candidate(entries[j]),
        is_selected(entries, r),
    ensures
        r == Some(entries[k].path@),
{
    match r {
        Option::None => {
            assert(!is_candidate(entries[k]));
        },
        Option::Some(p) => {
            let m = choose|m: int|
                0 <= m < entries.len() && is_candidate(entries[m]) && entries[m].path@ == p;
            assert(m == k);
        },
    }
}

/// A folder whose entries hold no candidate resolves to absence, which is
/// a successful outcome.
pub proof fn lemma_no_candidate_none(entries: Seq<FolderEntry>, r: Option<Seq<char>>)
    requires
        forall|j: int| 0 <= j < entries.len() ==> !is_candidate(entries[j]),
        is_selected(entries, r),
    ensures
        r is None,
{
    match r {
        Option::Some(p) => {
            let k = choose|k: int|
                0 <= k < entries.len() && is_candidate(entries[k]) && entries[k].path@ == p;
            assert(!is_candidate(entries[k]));
        },
        Option::None => {},
    }
}

/// Among several candidates, the one whose full path is lexicographically
/// smallest is the one selected.
pub proof fn lemma_smallest_selected(entries: Seq<FolderEntry>, k: int, r: Option<Seq<char>>)
    requires
        0 <= k < entries.len(),
        is_candidate(entries[k]),
        forall|j: int|
            0 <= j < entries.len() && is_candidate(entries[j]) ==> lex_le(
                entries[k].path@,
                entries[j].path@,
            ),
        is_selected(entries, r),
    ensures
        r == Some(entries[k].path@),
{
    assert(0 <= k < entries.len() && is_candidate(entries[k]) && entries[k].path@ == entries[k].path@);
    lemma_selection_unique(entries, r, Some(entries[k].path@));
}

/// A selected path always names a regular file among the entries: a
/// non-regular entry, whatever its name, is never selected.
pub proof fn lemma_selected_is_regular(entries: Seq<FolderEntry>, p: Seq<char>)
    requires
        is_selected(entries, Some(p)),
    ensures
        exists|k: int| 0 <= k < entries.len() && entries[k].is_regular && entries[k].path@ == p,
{
    let k = choose|k: int|
        0 <= k < entries.len() && is_candidate(entries[k]) && entries[k].path@ == p;
    assert(0 <= k < entries.len() && entries[k].is_regular && entries[k].path@ == p);
}

/// Repeated lookups against an unchanged folder agree: for one input and
/// one observation, the lookup contract admits a single abstract outcome.
pub proof fn lemma_resolution_deterministic(
    input: Seq<char>,
    view: FolderView,
    r1: Result<Option<String>, ResolveError>,
    r2: Result<Option<String>, ResolveError>,
)
    requires
        resolution_matches(input, view, r1),
        resolution_matches(input, view, r2),
    ensures
        result_abstract(r1) == result_abstract(r2),
{
    match view {
        FolderView::Listed { entries } => {
            match (r1, r2) {
                (Result::Ok(s1), Result::Ok(s2)) => {
                    lemma_selection_unique(entries@, selected_view(s1), selected_view(s2));
                },
                _ => {},
            }
        },
        _ => {},
    }
}

} // verus!

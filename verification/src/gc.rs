//! Classification of the storage collector's diagnostic output.
//!
//! When storage reclamation runs after the per-profile pipelines, its
//! progress lines are scraped for logging only and never feed back
//! into retention decisions.  This module decides what each line says;
//! a line shaped differently from every known form is left
//! unrecognized rather than refused.

use vstd::prelude::*;

use crate::text::find_pat;
use crate::text::find_sub;
use crate::text::spec_tokens;
use crate::text::starts_with;
use crate::text::str_eq;
use crate::text::tokenize;
use crate::text::views_of;

verus! {

/// Whether `s` begins with the prefix `p` and closes the quote that
/// `p` opens at its very end.
pub open spec fn quoted_ok(s: Seq<char>, p: Seq<char>) -> bool {
    p.is_prefix_of(s) && s.len() > p.len() && s[s.len() - 1] == '\''
}

/// The text between the prefix `p` and the closing quote.
pub open spec fn quoted_rest(s: Seq<char>, p: Seq<char>) -> Seq<char> {
    s.subrange(p.len() as int, s.len() - 1)
}

/// What one diagnostic line of the collector says, with payloads as
/// character sequences.  This is the specification-level mirror of
/// [`GcStderrLine`].
pub enum GcLineShape {
    WaitingForLock,
    FindingRoots,
    DeletingGarbage,
    DeletingUnusedLinks,
    HardLinkSavings { saved: Seq<char> },
    DeletingPath { path: Seq<char> },
    RemovingStaleRootsFile { path: Seq<char> },
    RemovingStaleLink { auto_root: Seq<char>, target: Seq<char> },
    DeletingUnusedLink { path: Seq<char> },
    Unrecognized,
}

/// What one diagnostic line of the collector says.
#[derive(Debug, PartialEq, Eq)]
pub enum GcStderrLine {
    WaitingForLock,
    FindingRoots,
    DeletingGarbage,
    DeletingUnusedLinks,
    HardLinkSavings { saved: String },
    DeletingPath { path: String },
    RemovingStaleRootsFile { path: String },
    RemovingStaleLink { auto_root: String, target: String },
    DeletingUnusedLink { path: String },
    Unrecognized,
}

/// The classification of one diagnostic line: the known fixed lines
/// first, then the quoted forms, whose payload sits between the
/// opening and the closing quote.  A stale-link line carries two
/// paths, split at the first quoted separator.
pub open spec fn spec_classify_stderr(s: Seq<char>) -> GcLineShape {
    if s == "waiting for the big garbage collector lock..."@ {
        GcLineShape::WaitingForLock
    } else if s == "finding garbage collector roots..."@ {
        GcLineShape::FindingRoots
    } else if s == "deleting garbage..."@ {
        GcLineShape::DeletingGarbage
    } else if s == "deleting unused links..."@ {
        GcLineShape::DeletingUnusedLinks
    } else if "note: currently hard linking saves "@.is_prefix_of(s) {
        GcLineShape::HardLinkSavings {
            saved: s.subrange(
                "note: currently hard linking saves "@.len() as int,
                s.len() as int,
            ),
        }
    } else if "deleting '"@.is_prefix_of(s) {
        if quoted_ok(s, "deleting '"@) {
            GcLineShape::DeletingPath { path: quoted_rest(s, "deleting '"@) }
        } else {
            GcLineShape::Unrecognized
        }
    } else if "removing stale temporary roots file '"@.is_prefix_of(s) {
        if quoted_ok(s, "removing stale temporary roots file '"@) {
            GcLineShape::RemovingStaleRootsFile {
                path: quoted_rest(s, "removing stale temporary roots file '"@),
            }
        } else {
            GcLineShape::Unrecognized
        }
    } else if "removing stale link from '"@.is_prefix_of(s) {
        if quoted_ok(s, "removing stale link from '"@) {
            let mid = quoted_rest(s, "removing stale link from '"@);
            match find_pat(mid, "' to '"@) {
                Some(k1) => {
                    let rest2 = mid.subrange(k1 + "' to '"@.len(), mid.len() as int);
                    GcLineShape::RemovingStaleLink {
                        auto_root: mid.subrange(0, k1),
                        target: match find_pat(rest2, "' to '"@) {
                            Some(k2) => rest2.subrange(0, k2),
                            None => rest2,
                        },
                    }
                },
                None => GcLineShape::Unrecognized,
            }
        } else {
            GcLineShape::Unrecognized
        }
    } else if "deleting unused link '"@.is_prefix_of(s) {
        if quoted_ok(s, "deleting unused link '"@) {
            GcLineShape::DeletingUnusedLink { path: quoted_rest(s, "deleting unused link '"@) }
        } else {
            GcLineShape::Unrecognized
        }
    } else {
        GcLineShape::Unrecognized
    }
}

/// Whether the classified line `r` carries the payloads that the shape
/// `m` prescribes.
pub open spec fn stderr_matches(r: GcStderrLine, m: GcLineShape) -> bool {
    match (r, m) {
        (GcStderrLine::WaitingForLock, GcLineShape::WaitingForLock) => true,
        (GcStderrLine::FindingRoots, GcLineShape::FindingRoots) => true,
        (GcStderrLine::DeletingGarbage, GcLineShape::DeletingGarbage) => true,
        (GcStderrLine::DeletingUnusedLinks, GcLineShape::DeletingUnusedLinks) => true,
        (
            GcStderrLine::HardLinkSavings { saved },
            GcLineShape::HardLinkSavings { saved: saved_shape },
        ) => saved@ == saved_shape,
        (GcStderrLine::DeletingPath { path }, GcLineShape::DeletingPath { path: path_shape }) => (
        path@ == path_shape),
        (
            GcStderrLine::RemovingStaleRootsFile { path },
            GcLineShape::RemovingStaleRootsFile { path: path_shape },
        ) => path@ == path_shape,
        (
            GcStderrLine::RemovingStaleLink { auto_root, target },
            GcLineShape::RemovingStaleLink { auto_root: root_shape, target: target_shape },
        ) => auto_root@ == root_shape && target@ == target_shape,
        (
            GcStderrLine::DeletingUnusedLink { path },
            GcLineShape::DeletingUnusedLink { path: path_shape },
        ) => path@ == path_shape,
        (GcStderrLine::Unrecognized, GcLineShape::Unrecognized) => true,
        _ => false,
    }
}

/// Classifies one diagnostic line of the collector.
pub fn classify_stderr_line(line: &str) -> (r: GcStderrLine)
    ensures
        stderr_matches(r, spec_classify_stderr(line@)),
{
    if str_eq(line, "waiting for the big garbage collector lock...") {
        return GcStderrLine::WaitingForLock;
    }
    if str_eq(line, "finding garbage collector roots...") {
        return GcStderrLine::FindingRoots;
    }
    if str_eq(line, "deleting garbage...") {
        return GcStderrLine::DeletingGarbage;
    }
    if str_eq(line, "deleting unused links...") {
        return GcStderrLine::DeletingUnusedLinks;
    }
    let n = line.unicode_len();
    if starts_with(line, "note: currently hard linking saves ") {
        let plen = "note: currently hard linking saves ".unicode_len();
        let saved = line.substring_char(plen, n).to_owned();
        return GcStderrLine::HardLinkSavings { saved };
    }
    if starts_with(line, "deleting '") {
        let plen = "deleting '".unicode_len();
        if n > plen && line.get_char(n - 1) == '\'' {
            let path = line.substring_char(plen, n - 1).to_owned();
            return GcStderrLine::DeletingPath { path };
        }
        return GcStderrLine::Unrecognized;
    }
    if starts_with(line, "removing stale temporary roots file '") {
        let plen = "removing stale temporary roots file '".unicode_len();
        if n > plen && line.get_char(n - 1) == '\'' {
            let path = line.substring_char(plen, n - 1).to_owned();
            return GcStderrLine::RemovingStaleRootsFile { path };
        }
        return GcStderrLine::Unrecognized;
    }
    if starts_with(line, "removing stale link from '") {
        let plen = "removing stale link from '".unicode_len();
        if n > plen && line.get_char(n - 1) == '\'' {
            let mid = line.substring_char(plen, n - 1);
            let sep = "' to '";
            match find_sub(mid, sep) {
                Some(k1) => {
                    let seplen = sep.unicode_len();
                    let mid_len = mid.unicode_len();
                    let auto_root = mid.substring_char(0, k1).to_owned();
                    let rest2 = mid.substring_char(k1 + seplen, mid_len);
                    let target = match find_sub(rest2, sep) {
                        Some(k2) => rest2.substring_char(0, k2).to_owned(),
                        None => rest2.to_owned(),
                    };
                    return GcStderrLine::RemovingStaleLink { auto_root, target };
                },
                None => {
                    return GcStderrLine::Unrecognized;
                },
            }
        }
        return GcStderrLine::Unrecognized;
    }
    if starts_with(line, "deleting unused link '") {
        let plen = "deleting unused link '".unicode_len();
        if n > plen && line.get_char(n - 1) == '\'' {
            let path = line.substring_char(plen, n - 1).to_owned();
            return GcStderrLine::DeletingUnusedLink { path };
        }
        return GcStderrLine::Unrecognized;
    }
    GcStderrLine::Unrecognized
}

/// Whether `s` is the collector's completion line: seven fields
/// `<deleted> store paths deleted, <size> <unit> freed`.
pub open spec fn stdout_completed(s: Seq<char>) -> bool {
    let t = spec_tokens(s);
    &&& t.len() == 7
    &&& t[1] == "store"@
    &&& t[2] == "paths"@
    &&& t[3] == "deleted,"@
    &&& t[6] == "freed"@
}

/// What one progress line of the collector says.
#[derive(Debug, PartialEq, Eq)]
pub enum GcStdoutLine {
    /// A completed collection: how many store paths were deleted and
    /// how much space was freed.
    Completed { deleted: String, freed: String },
    Unrecognized,
}

/// Classifies one progress line of the collector.
pub fn classify_stdout_line(line: &str) -> (r: GcStdoutLine)
    ensures
        stdout_completed(line@) ==> (r matches GcStdoutLine::Completed { deleted, freed }
            && deleted@ == spec_tokens(line@)[0] && freed@ == spec_tokens(line@)[4] + " "@
            + spec_tokens(line@)[5]),
        !stdout_completed(line@) ==> r is Unrecognized,
{
    let toks = tokenize(line);
    proof {
        assert(forall|j: int|
            0 <= j < toks@.len() ==> #[trigger] toks@[j]@ == spec_tokens(line@)[j]);
    }
    if toks.len() == 7 && str_eq(toks[1], "store") && str_eq(toks[2], "paths") && str_eq(
        toks[3],
        "deleted,",
    ) && str_eq(toks[6], "freed") {
        let deleted = toks[0].to_owned();
        let freed = toks[4].to_owned().concat(" ").concat(toks[5]);
        GcStdoutLine::Completed { deleted, freed }
    } else {
        GcStdoutLine::Unrecognized
    }
}

} // verus!

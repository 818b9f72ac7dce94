use vstd::prelude::*;
use crate::digest::{digest_text, render_digest};
use crate::manifest::{parsed_pair, ManifestEntry};

verus! {

/// How one manifest entry compares against the file system.
#[derive(PartialEq, Eq, Structural, Clone, Copy, Debug)]
pub enum Outcome {
    Verified,
    Failed,
    NotFound,
}

/// An entry whose file could not be opened is not found; otherwise it is
/// verified exactly when the rendered digest of the file equals the text
/// recorded in the manifest.
pub open spec fn outcome_of(expected: Seq<char>, actual: Option<u128>) -> Outcome {
    match actual {
        None => Outcome::NotFound,
        Some(d) => if digest_text(d) == expected {
            Outcome::Verified
        } else {
            Outcome::Failed
        },
    }
}

/// Classifies one entry given the digest of its file, or `None` when the
/// file could not be opened.
pub fn classify(expected: &String, actual: Option<u128>) -> (r: Outcome)
    ensures
        r == outcome_of(expected@, actual),
{
    match actual {
        None => Outcome::NotFound,
        Some(d) => {
            let text = render_digest(d);
            if text.eq(expected) {
                Outcome::Verified
            } else {
                Outcome::Failed
            }
        },
    }
}

/// The result of verification: a count per outcome, a count of malformed
/// lines, and the paths that failed or were missing, in manifest order.
pub struct VerifyReport {
    pub verified: usize,
    pub failed: usize,
    pub not_found: usize,
    pub malformed: usize,
    pub failed_paths: Vec<String>,
    pub missing_paths: Vec<String>,
}

/// The mathematical content of a `VerifyReport`.
pub struct ReportView {
    pub verified: nat,
    pub failed: nat,
    pub not_found: nat,
    pub malformed: nat,
    pub failed_paths: Seq<Seq<char>>,
    pub missing_paths: Seq<Seq<char>>,
}

impl View for VerifyReport {
    type V = ReportView;

    open spec fn view(&self) -> ReportView {
        ReportView {
            verified: self.verified as nat,
            failed: self.failed as nat,
            not_found: self.not_found as nat,
            malformed: self.malformed as nat,
            failed_paths: self.failed_paths.deep_view(),
            missing_paths: self.missing_paths.deep_view(),
        }
    }
}

pub open spec fn empty_report() -> ReportView {
    ReportView {
        verified: 0,
        failed: 0,
        not_found: 0,
        malformed: 0,
        failed_paths: Seq::empty(),
        missing_paths: Seq::empty(),
    }
}

/// The report after one more line: a malformed line, or an entry with the
/// digest of its file.
pub open spec fn record(
    r: ReportView,
    line: Option<(Seq<char>, Seq<char>)>,
    actual: Option<u128>,
) -> ReportView {
    match line {
        None => ReportView { malformed: r.malformed + 1, ..r },
        Some(entry) => match outcome_of(entry.1, actual) {
            Outcome::Verified => ReportView { verified: r.verified + 1, ..r },
            Outcome::Failed => ReportView {
                failed: r.failed + 1,
                failed_paths: r.failed_paths.push(entry.0),
                ..r
            },
            Outcome::NotFound => ReportView {
                not_found: r.not_found + 1,
                missing_paths: r.missing_paths.push(entry.0),
                ..r
            },
        },
    }
}

/// The report over the first `n` lines, `actual[i]` being the digest of the
/// file that line `i` names.
pub open spec fn report_prefix(
    lines: Seq<Option<(Seq<char>, Seq<char>)>>,
    actual: Seq<Option<u128>>,
    n: nat,
) -> ReportView
    decreases n,
{
    if n == 0 {
        empty_report()
    } else {
        record(
            report_prefix(lines, actual, (n - 1) as nat),
            lines[n - 1],
            actual[n - 1],
        )
    }
}

/// The report over all lines.
pub open spec fn report_of(
    lines: Seq<Option<(Seq<char>, Seq<char>)>>,
    actual: Seq<Option<u128>>,
) -> ReportView {
    report_prefix(lines, actual, lines.len())
}

/// The parsed lines of a manifest as (path, digest) pairs.
pub open spec fn parsed_lines(entries: Seq<Option<ManifestEntry>>) -> Seq<
    Option<(Seq<char>, Seq<char>)>,
> {
    entries.map_values(|o: Option<ManifestEntry>| parsed_pair(o))
}

/// Compares each parsed manifest line against the digest of the file it
/// names (`None` where that file could not be opened; ignored for a
/// malformed line).
pub fn verify_entries(entries: &Vec<Option<ManifestEntry>>, actual: &Vec<Option<u128>>) -> (r:
    VerifyReport)
    requires
        entries@.len() == actual@.len(),
    ensures
        r@ == report_of(parsed_lines(entries@), actual@),
{
    let mut r = VerifyReport {
        verified: 0,
        failed: 0,
        not_found: 0,
        malformed: 0,
        failed_paths: Vec::new(),
        missing_paths: Vec::new(),
    };
    let ghost lines = parsed_lines(entries@);
    assert(r.failed_paths.deep_view() =~= Seq::<Seq<char>>::empty());
    assert(r.missing_paths.deep_view() =~= Seq::<Seq<char>>::empty());
    let mut i: usize = 0;
    while i < entries.len()
        invariant
            i <= entries@.len() == actual@.len(),
            lines == parsed_lines(entries@),
            r@ == report_prefix(lines, actual@, i as nat),
            r.verified + r.failed + r.not_found + r.malformed == i,
        decreases entries.len() - i,
    {
        let ghost before = r@;
        assert(lines[i as int] == parsed_pair(entries@[i as int]));
        match &entries[i] {
            None => {
                r.malformed = r.malformed + 1;
            },
            Some(e) => {
                match classify(&e.digest, actual[i]) {
                    Outcome::Verified => {
                        r.verified = r.verified + 1;
                    },
                    Outcome::Failed => {
                        r.failed = r.failed + 1;
                        r.failed_paths.push(e.path.clone());
                        assert(r.failed_paths.deep_view() =~= before.failed_paths.push(e.path@));
                    },
                    Outcome::NotFound => {
                        r.not_found = r.not_found + 1;
                        r.missing_paths.push(e.path.clone());
                        assert(r.missing_paths.deep_view() =~= before.missing_paths.push(e.path@));
                    },
                }
            },
        }
        i = i + 1;
    }
    r
}

} // verus!

use vstd::prelude::*;
use crate::digest::{digest_text, is_upper_hex, lemma_digest_text_injective, lemma_digest_text_shape};
use crate::generate::{hashed_entries, unreadable_count, HashedFile};
use crate::manifest::{
    entry_line, is_white_space, line_scan, manifest_text, parse_entry, strip_cr, text_lines,
    trim_end, trim_start, trimmed,
};
use crate::verify::{empty_report, report_of, report_prefix, ReportView};

verus! {

/// A path that a manifest line gives back unchanged: not empty, not
/// starting with white space, and without a newline.
pub open spec fn path_fits(p: Seq<char>) -> bool {
    &&& p.len() > 0
    &&& !is_white_space(p[0])
    &&& forall|i: int| 0 <= i < p.len() ==> p[i] != '\n'
}

/// Files that could all be read and whose paths all fit in a manifest line.
pub open spec fn readable_files(files: Seq<HashedFile>) -> bool {
    forall|i: int|
        0 <= i < files.len() ==> (#[trigger] files[i]).digest is Some && path_fits(files[i].path@)
}

/// The digest of each file, as a later pass over unchanged files finds it.
pub open spec fn digests_of(files: Seq<HashedFile>) -> Seq<Option<u128>> {
    files.map_values(|f: HashedFile| f.digest)
}

/// The manifest generated over `files`, read back and parsed line by line.
pub open spec fn reread(files: Seq<HashedFile>) -> Seq<Option<(Seq<char>, Seq<char>)>> {
    text_lines(manifest_text(hashed_entries(files))).map_values(
        |l: Seq<char>| parse_entry(l),
    )
}

/// The (path, rendered digest) pair of each file.
pub open spec fn expected_lines(files: Seq<HashedFile>) -> Seq<Option<(Seq<char>, Seq<char>)>> {
    files.map_values(|f: HashedFile| Some((f.path@, digest_text(f.digest->0))))
}

proof fn lemma_entries_of_readable(files: Seq<HashedFile>)
    requires
        readable_files(files),
    ensures
        hashed_entries(files) == files.map_values(
            |f: HashedFile| (f.path@, digest_text(f.digest->0)),
        ),
    decreases files.len(),
{
    if files.len() > 0 {
        let prior = files.drop_last();
        assert forall|i: int| 0 <= i < prior.len() implies (#[trigger] prior[i]).digest is Some
            && path_fits(prior[i].path@) by {
            assert(prior[i] == files[i]);
        }
        lemma_entries_of_readable(prior);
        assert(files[files.len() - 1].digest is Some);
        assert(hashed_entries(files) =~= files.map_values(
            |f: HashedFile| (f.path@, digest_text(f.digest->0)),
        ));
    }
}

proof fn lemma_scan_without_newline(t: Seq<char>, b: Seq<char>)
    requires
        forall|i: int| 0 <= i < b.len() ==> b[i] != '\n',
    ensures
        line_scan(t + b) == (line_scan(t).0, line_scan(t).1 + b),
    decreases b.len(),
{
    if b.len() == 0 {
        assert(t + b == t);
        assert(line_scan(t).1 + b == line_scan(t).1);
    } else {
        let s = t + b;
        assert(s.drop_last() == t + b.drop_last());
        assert(s.last() == b.last());
        lemma_scan_without_newline(t, b.drop_last());
        assert(line_scan(t).1 + b.drop_last() + seq![b.last()] == line_scan(t).1 + b);
        assert((line_scan(t).1 + b.drop_last()).push(b.last()) == line_scan(t).1 + b);
    }
}

proof fn lemma_line_shape(p: Seq<char>, d: u128)
    requires
        path_fits(p),
    ensures
        ({
            let l = entry_line(p, digest_text(d));
            &&& l.len() == p.len() + 33
            &&& forall|i: int| 0 <= i < l.len() ==> l[i] != '\n'
            &&& l.last() != '\r'
            &&& !is_white_space(l.last())
            &&& !is_white_space(l[0])
        }),
{
    lemma_digest_text_shape(d);
    let l = entry_line(p, digest_text(d));
    let h = digest_text(d);
    assert forall|i: int| 0 <= i < l.len() implies l[i] != '\n' by {
        if i >= p.len() + 1 {
            assert(l[i] == h[i - p.len() - 1]);
            assert(is_upper_hex(h[i - p.len() - 1]));
        }
    }
    assert(l.last() == h[31]);
    assert(is_upper_hex(h[31]));
    assert(l[0] == p[0]);
}

proof fn lemma_scan_manifest(entries: Seq<(Seq<char>, u128)>)
    requires
        entries.len() > 0,
        forall|i: int| 0 <= i < entries.len() ==> path_fits(#[trigger] entries[i].0),
    ensures
        line_scan(manifest_text(entries.map_values(|e: (Seq<char>, u128)| (e.0, digest_text(e.1)))))
            == (
            entries.drop_last().map_values(
                |e: (Seq<char>, u128)| entry_line(e.0, digest_text(e.1)),
            ),
            entry_line(entries.last().0, digest_text(entries.last().1)),
        ),
    decreases entries.len(),
{
    let pairs = entries.map_values(|e: (Seq<char>, u128)| (e.0, digest_text(e.1)));
    let n = entries.len();
    let last = entry_line(entries.last().0, digest_text(entries.last().1));
    lemma_line_shape(entries.last().0, entries.last().1);
    if n == 1 {
        lemma_scan_without_newline(Seq::empty(), last);
        assert(Seq::<char>::empty() + last == last);
        assert(entries.drop_last().map_values(
            |e: (Seq<char>, u128)| entry_line(e.0, digest_text(e.1)),
        ) =~= Seq::<Seq<char>>::empty());
    } else {
        let prior = entries.drop_last();
        assert forall|i: int| 0 <= i < prior.len() implies path_fits(#[trigger] prior[i].0) by {
            assert(prior[i] == entries[i]);
        }
        lemma_scan_manifest(prior);
        let prior_pairs = prior.map_values(|e: (Seq<char>, u128)| (e.0, digest_text(e.1)));
        assert(pairs.drop_last() =~= prior_pairs);
        let m = manifest_text(prior_pairs);
        let t = m + seq!['\n'];
        assert(t.drop_last() == m);
        let prev = entry_line(prior.last().0, digest_text(prior.last().1));
        lemma_line_shape(prior.last().0, prior.last().1);
        assert(strip_cr(prev) == prev);
        lemma_scan_without_newline(t, last);
        assert(manifest_text(pairs) == t + last);
        assert(entries.drop_last().map_values(
            |e: (Seq<char>, u128)| entry_line(e.0, digest_text(e.1)),
        ) =~= prior.drop_last().map_values(
            |e: (Seq<char>, u128)| entry_line(e.0, digest_text(e.1)),
        ).push(prev));
    }
}

proof fn lemma_parse_line_back(p: Seq<char>, d: u128)
    requires
        path_fits(p),
    ensures
        parse_entry(entry_line(p, digest_text(d))) == Some((p, digest_text(d))),
{
    let l = entry_line(p, digest_text(d));
    lemma_line_shape(p, d);
    lemma_digest_text_shape(d);
    assert(trim_start(l) == l);
    assert(trim_end(l) == l);
    assert(trimmed(l) == l);
    assert(l.subrange(0, l.len() - 33) =~= p);
    assert(l.subrange(l.len() - 32, l.len() as int) =~= digest_text(d));
}

proof fn lemma_reread(files: Seq<HashedFile>)
    requires
        readable_files(files),
    ensures
        reread(files) == expected_lines(files),
{
    lemma_entries_of_readable(files);
    if files.len() == 0 {
        assert(hashed_entries(files) =~= Seq::<(Seq<char>, Seq<char>)>::empty());
        assert(reread(files) =~= expected_lines(files));
    } else {
        let entries = files.map_values(|f: HashedFile| (f.path@, f.digest->0));
        assert forall|i: int| 0 <= i < entries.len() implies path_fits(#[trigger] entries[i].0) by {
            assert(files[i].digest is Some);
        }
        let pairs = entries.map_values(|e: (Seq<char>, u128)| (e.0, digest_text(e.1)));
        assert(pairs =~= hashed_entries(files));
        lemma_scan_manifest(entries);
        let lines = entries.map_values(|e: (Seq<char>, u128)| entry_line(e.0, digest_text(e.1)));
        let last = entry_line(entries.last().0, digest_text(entries.last().1));
        lemma_line_shape(entries.last().0, entries.last().1);
        assert(text_lines(manifest_text(pairs)) == entries.drop_last().map_values(
            |e: (Seq<char>, u128)| entry_line(e.0, digest_text(e.1)),
        ).push(last));
        assert(text_lines(manifest_text(pairs)) =~= lines);
        assert forall|i: int| 0 <= i < files.len() implies reread(files)[i] == expected_lines(
            files,
        )[i] by {
            assert(files[i].digest is Some && path_fits(files[i].path@));
            lemma_parse_line_back(files[i].path@, files[i].digest->0);
        }
        assert(reread(files) =~= expected_lines(files));
    }
}

/// The report when every one of `n` entries verifies.
pub open spec fn all_verified(n: nat) -> ReportView {
    ReportView { verified: n, ..empty_report() }
}

proof fn lemma_report_unchanged(files: Seq<HashedFile>, n: nat)
    requires
        readable_files(files),
        n <= files.len(),
    ensures
        report_prefix(expected_lines(files), digests_of(files), n) == all_verified(n),
    decreases n,
{
    if n > 0 {
        lemma_report_unchanged(files, (n - 1) as nat);
        assert(files[n - 1].digest is Some);
    }
}

/// Generating a manifest over files that can all be read, and then
/// verifying it while their contents are unchanged, verifies every file:
/// nothing fails, nothing is missing, nothing is malformed.
pub proof fn lemma_generate_then_verify(files: Seq<HashedFile>)
    requires
        readable_files(files),
    ensures
        reread(files).len() == files.len(),
        report_of(reread(files), digests_of(files)) == all_verified(files.len()),
{
    lemma_reread(files);
    lemma_report_unchanged(files, files.len());
}

proof fn lemma_report_one_changed(files: Seq<HashedFile>, k: int, d: u128, n: nat)
    requires
        readable_files(files),
        0 <= k < files.len(),
        files[k].digest != Some(d),
        n <= files.len(),
    ensures
        report_prefix(expected_lines(files), digests_of(files).update(k, Some(d)), n) == if n
            <= k {
            all_verified(n)
        } else {
            ReportView {
                verified: (n - 1) as nat,
                failed: 1,
                failed_paths: seq![files[k].path@],
                ..empty_report()
            }
        },
    decreases n,
{
    if n > 0 {
        lemma_report_one_changed(files, k, d, (n - 1) as nat);
        assert(files[n - 1].digest is Some);
        if n - 1 == k {
            if digest_text(d) == digest_text(files[k].digest->0) {
                lemma_digest_text_injective(d, files[k].digest->0);
            }
            assert(Seq::<Seq<char>>::empty().push(files[k].path@) == seq![files[k].path@]);
        }
    }
}

/// After a manifest is generated over files that can all be read, a change
/// to one file that changes its digest makes exactly that file's entry fail
/// on verification; every other entry verifies.
pub proof fn lemma_one_file_modified(files: Seq<HashedFile>, k: int, d: u128)
    requires
        readable_files(files),
        0 <= k < files.len(),
        files[k].digest != Some(d),
    ensures
        report_of(reread(files), digests_of(files).update(k, Some(d))) == (ReportView {
            verified: (files.len() - 1) as nat,
            failed: 1,
            failed_paths: seq![files[k].path@],
            ..empty_report()
        }),
{
    lemma_reread(files);
    lemma_report_one_changed(files, k, d, files.len());
}

proof fn lemma_report_one_missing(files: Seq<HashedFile>, k: int, n: nat)
    requires
        readable_files(files),
        0 <= k < files.len(),
        n <= files.len(),
    ensures
        report_prefix(expected_lines(files), digests_of(files).update(k, None), n) == if n
            <= k {
            all_verified(n)
        } else {
            ReportView {
                verified: (n - 1) as nat,
                not_found: 1,
                missing_paths: seq![files[k].path@],
                ..empty_report()
            }
        },
    decreases n,
{
    if n > 0 {
        lemma_report_one_missing(files, k, (n - 1) as nat);
        assert(files[n - 1].digest is Some);
        if n - 1 == k {
            assert(Seq::<Seq<char>>::empty().push(files[k].path@) == seq![files[k].path@]);
        }
    }
}

/// After a manifest is generated over files that can all be read, deleting
/// one file makes exactly that file's entry not found on verification;
/// every other entry verifies.
pub proof fn lemma_one_file_deleted(files: Seq<HashedFile>, k: int)
    requires
        readable_files(files),
        0 <= k < files.len(),
    ensures
        report_of(reread(files), digests_of(files).update(k, None)) == (ReportView {
            verified: (files.len() - 1) as nat,
            not_found: 1,
            missing_paths: seq![files[k].path@],
            ..empty_report()
        }),
{
    lemma_reread(files);
    lemma_report_one_missing(files, k, files.len());
}

/// With no files to hash, generation writes an empty manifest and counts
/// nothing, and verifying that empty manifest counts nothing either.
pub proof fn lemma_empty_tree(files: Seq<HashedFile>)
    requires
        files.len() == 0,
    ensures
        manifest_text(hashed_entries(files)) == Seq::<char>::empty(),
        hashed_entries(files).len() == 0,
        unreadable_count(files) == 0,
        text_lines(Seq::<char>::empty()).len() == 0,
        report_of(Seq::empty(), Seq::empty()) == empty_report(),
{
}

} // verus!

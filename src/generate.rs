use vstd::prelude::*;
use crate::digest::{digest_text, render_digest};
use crate::manifest::{entry_line, manifest_text};

verus! {

broadcast use vstd::string::group_string_axioms;

/// A regular file met during traversal: its path, and its digest, or `None`
/// when it could not be opened.
pub struct HashedFile {
    pub path: String,
    pub digest: Option<u128>,
}

/// What generation produces: the manifest text and the counts of files
/// hashed and of files that could not be read.
pub struct Generated {
    pub manifest: String,
    pub good_files: usize,
    pub bad_files: usize,
}

/// The manifest entries of the files that could be read, in traversal order.
pub open spec fn hashed_entries(files: Seq<HashedFile>) -> Seq<(Seq<char>, Seq<char>)>
    decreases files.len(),
{
    if files.len() == 0 {
        Seq::empty()
    } else {
        let prior = hashed_entries(files.drop_last());
        match files.last().digest {
            Some(d) => prior.push((files.last().path@, digest_text(d))),
            None => prior,
        }
    }
}

/// How many of the files could not be read.
pub open spec fn unreadable_count(files: Seq<HashedFile>) -> nat
    decreases files.len(),
{
    if files.len() == 0 {
        0
    } else {
        unreadable_count(files.drop_last()) + if files.last().digest is None {
            1nat
        } else {
            0nat
        }
    }
}

proof fn lemma_counts_bounded(files: Seq<HashedFile>)
    ensures
        hashed_entries(files).len() + unreadable_count(files) == files.len(),
    decreases files.len(),
{
    if files.len() > 0 {
        lemma_counts_bounded(files.drop_last());
    }
}

/// The path under which traversal from `.` meets the running program.
pub open spec fn own_path_of(exe_name: Seq<char>) -> Seq<char> {
    seq!['.', '/'] + exe_name
}

/// The path of the running program as traversal from `.` writes it.
pub fn own_path(exe_name: &str) -> (r: String)
    ensures
        r@ == own_path_of(exe_name@),
{
    let mut r = String::from_str("./");
    proof {
        reveal_strlit("./");
    }
    r.append(exe_name);
    r
}

/// Whether a traversal entry is hashed: only regular files, and never the
/// running program itself.
pub fn should_hash(path: &String, is_file: bool, own: &String) -> (r: bool)
    ensures
        r == (is_file && path@ != own@),
{
    is_file && !path.eq(own)
}

/// Builds the manifest from the traversed files: one line per file that
/// could be read, in order, and the two counts.
pub fn generate_manifest(files: &Vec<HashedFile>) -> (r: Generated)
    ensures
        r.manifest@ == manifest_text(hashed_entries(files@)),
        r.good_files == hashed_entries(files@).len(),
        r.bad_files == unreadable_count(files@),
{
    let mut text = String::new();
    let mut good: usize = 0;
    let mut bad: usize = 0;
    let mut i: usize = 0;
    while i < files.len()
        invariant
            i <= files.len(),
            text@ == manifest_text(hashed_entries(files@.take(i as int))),
            good == hashed_entries(files@.take(i as int)).len(),
            bad == unreadable_count(files@.take(i as int)),
        decreases files.len() - i,
    {
        proof {
            assert(files@.take(i + 1).drop_last() == files@.take(i as int));
            lemma_counts_bounded(files@.take(i + 1));
        }
        let f = &files[i];
        match f.digest {
            Some(d) => {
                let ghost prior = hashed_entries(files@.take(i as int));
                let ghost e = (f.path@, digest_text(d));
                proof {
                    reveal_strlit("\n");
                    reveal_strlit(" ");
                    assert("\n"@ =~= seq!['\n']);
                    assert(" "@ =~= seq![' ']);
                }
                let ghost before = text@;
                if good > 0 {
                    text.append("\n");
                }
                let ghost sep = text@;
                text.append(f.path.as_str());
                text.append(" ");
                let hex = render_digest(d);
                text.append(hex.as_str());
                assert(text@ =~= sep + entry_line(e.0, e.1));
                proof {
                    let now = prior.push(e);
                    assert(now.drop_last() == prior);
                    assert(now.last() == e);
                    if good == 0 {
                        assert(prior.len() == 0);
                        assert(before.len() == 0);
                        assert(sep =~= Seq::<char>::empty());
                        assert(text@ =~= entry_line(e.0, e.1));
                    } else {
                        assert(prior.len() > 0);
                        assert(text@ =~= manifest_text(prior) + seq!['\n'] + entry_line(e.0, e.1));
                    }
                }
                good = good + 1;
            },
            None => {
                bad = bad + 1;
            },
        }
        i = i + 1;
    }
    proof {
        assert(files@.take(i as int) == files@);
    }
    Generated { manifest: text, good_files: good, bad_files: bad }
}

} // verus!

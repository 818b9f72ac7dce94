use hashverify::generate::{generate_manifest, own_path, should_hash, HashedFile};
use hashverify::manifest::parse_manifest;
use hashverify::mode::{
    exit_code, generation_failed, select_mode, verification_failed, Mode, MANIFEST_FILE,
};
use hashverify::verify::{classify, verify_entries, Outcome};

fn file(path: &str, digest: Option<u128>) -> HashedFile {
    HashedFile { path: path.to_string(), digest }
}

fn sample() -> Vec<HashedFile> {
    vec![
        file("./a.txt", Some(1)),
        file("./dir/b.bin", Some(0xABCDEF)),
        file("./c", Some(u128::MAX)),
    ]
}

#[test]
fn generate_writes_lines_in_order() {
    let g = generate_manifest(&sample());
    assert_eq!(
        g.manifest,
        "./a.txt 00000000000000000000000000000001\n\
         ./dir/b.bin 00000000000000000000000000ABCDEF\n\
         ./c FFFFFFFFFFFFFFFFFFFFFFFFFFFFFFFF"
    );
    assert_eq!((g.good_files, g.bad_files), (3, 0));
    assert!(!generation_failed(&g));
}

#[test]
fn generate_counts_unreadable_files() {
    let files = vec![file("./x", None), file("./y", Some(16)), file("./z", None)];
    let g = generate_manifest(&files);
    assert_eq!(g.manifest, "./y 00000000000000000000000000000010");
    assert_eq!((g.good_files, g.bad_files), (1, 2));
    assert!(generation_failed(&g));
}

#[test]
fn round_trip_verifies_every_file() {
    let files = sample();
    let g = generate_manifest(&files);
    let parsed = parse_manifest(&g.manifest);
    let actual: Vec<Option<u128>> = files.iter().map(|f| f.digest).collect();
    let r = verify_entries(&parsed, &actual);
    assert_eq!((r.verified, r.failed, r.not_found, r.malformed), (3, 0, 0, 0));
    assert!(r.failed_paths.is_empty() && r.missing_paths.is_empty());
    assert!(!verification_failed(&r));
}

#[test]
fn modified_file_fails_alone() {
    let files = sample();
    let g = generate_manifest(&files);
    let parsed = parse_manifest(&g.manifest);
    let actual = vec![Some(1), Some(0xABCDEE), Some(u128::MAX)];
    let r = verify_entries(&parsed, &actual);
    assert_eq!((r.verified, r.failed, r.not_found), (2, 1, 0));
    assert_eq!(r.failed_paths, vec!["./dir/b.bin"]);
    assert!(r.missing_paths.is_empty());
    assert!(verification_failed(&r));
}

#[test]
fn deleted_file_is_not_found_alone() {
    let files = sample();
    let g = generate_manifest(&files);
    let parsed = parse_manifest(&g.manifest);
    let actual = vec![None, Some(0xABCDEF), Some(u128::MAX)];
    let r = verify_entries(&parsed, &actual);
    assert_eq!((r.verified, r.failed, r.not_found), (2, 0, 1));
    assert_eq!(r.missing_paths, vec!["./a.txt"]);
    assert!(r.failed_paths.is_empty());
    assert!(verification_failed(&r));
}

#[test]
fn empty_tree_gives_empty_manifest() {
    let g = generate_manifest(&Vec::new());
    assert_eq!(g.manifest, "");
    assert_eq!((g.good_files, g.bad_files), (0, 0));
    let parsed = parse_manifest(&g.manifest);
    assert!(parsed.is_empty());
    let r = verify_entries(&parsed, &Vec::new());
    assert_eq!((r.verified, r.failed, r.not_found, r.malformed), (0, 0, 0, 0));
}

#[test]
fn running_program_is_not_hashed() {
    let own = own_path("checker");
    assert_eq!(own, "./checker");
    assert!(!should_hash(&"./checker".to_string(), true, &own));
    assert!(should_hash(&"./checker2".to_string(), true, &own));
    assert!(!should_hash(&"./sub".to_string(), false, &own));
    let entries: Vec<HashedFile> = ["./checker"]
        .iter()
        .filter(|p| should_hash(&p.to_string(), true, &own))
        .map(|p| file(p, Some(5)))
        .collect();
    let g = generate_manifest(&entries);
    assert_eq!(g.manifest, "");
    assert_eq!((g.good_files, g.bad_files), (0, 0));
}

#[test]
fn malformed_line_is_counted() {
    let parsed = parse_manifest("short\n./a 00000000000000000000000000000001");
    let r = verify_entries(&parsed, &vec![None, Some(1)]);
    assert_eq!((r.verified, r.failed, r.not_found, r.malformed), (1, 0, 0, 1));
    assert!(verification_failed(&r));
}

#[test]
fn classify_compares_rendered_text() {
    let expected = "000000000000000000000000000000AB".to_string();
    assert_eq!(classify(&expected, Some(0xAB)), Outcome::Verified);
    assert_eq!(classify(&expected, Some(0xAC)), Outcome::Failed);
    assert_eq!(classify(&expected, None), Outcome::NotFound);
    let lower = "000000000000000000000000000000ab".to_string();
    assert_eq!(classify(&lower, Some(0xAB)), Outcome::Failed);
}

#[test]
fn mode_follows_manifest_existence() {
    assert_eq!(select_mode(true), Mode::Verify);
    assert_eq!(select_mode(false), Mode::Generate);
    assert_eq!(MANIFEST_FILE, "hashes.txt");
    assert_eq!(exit_code(true), 1);
    assert_eq!(exit_code(false), 0);
}

use datedir::errors::Error;
use datedir::report::{aggregate, Outcome};

#[test]
fn aggregate_tallies_every_outcome() {
    let results = vec![
        ("a.txt".to_string(), Outcome::Transferred),
        ("b.txt".to_string(), Outcome::SkippedAlreadyExists),
        ("c.txt".to_string(), Outcome::Failed(Error::OpeningSourceFile("denied".to_string()))),
        ("d".to_string(), Outcome::SkippedIsDirectory),
        ("e.txt".to_string(), Outcome::Failed(Error::CopyingFileContents("short write".to_string()))),
    ];
    let report = aggregate(&results);
    assert_eq!(report.transferred, 1);
    assert_eq!(report.skipped, 2);
    assert_eq!(report.failures.len(), 2);
    assert_eq!(report.failures[0].0, "c.txt");
    assert!(matches!(report.failures[0].1, Error::OpeningSourceFile(_)));
    assert_eq!(report.failures[1].0, "e.txt");
    assert!(matches!(report.failures[1].1, Error::CopyingFileContents(_)));
    assert!(report.is_failure());
}

#[test]
fn clean_run_is_no_failure() {
    let results = vec![
        ("a".to_string(), Outcome::Transferred),
        ("b".to_string(), Outcome::SkippedIsDirectory),
    ];
    let report = aggregate(&results);
    assert!(!report.is_failure());
    assert_eq!(report.transferred, 1);
    assert_eq!(report.skipped, 1);
    assert_eq!(report.failures.len(), 0);
}

#[test]
fn empty_results_aggregate() {
    let results: Vec<(String, Outcome)> = Vec::new();
    let report = aggregate(&results);
    assert_eq!(report.transferred, 0);
    assert_eq!(report.skipped, 0);
    assert!(!report.is_failure());
}

#[test]
fn order_does_not_change_counts() {
    let forward = vec![
        ("a".to_string(), Outcome::Transferred),
        ("b".to_string(), Outcome::SkippedAlreadyExists),
        ("c".to_string(), Outcome::Failed(Error::ModifiedTimeToChrono)),
        ("d".to_string(), Outcome::Transferred),
    ];
    let backward = vec![
        ("d".to_string(), Outcome::Transferred),
        ("c".to_string(), Outcome::Failed(Error::ModifiedTimeToChrono)),
        ("b".to_string(), Outcome::SkippedAlreadyExists),
        ("a".to_string(), Outcome::Transferred),
    ];
    let r1 = aggregate(&forward);
    let r2 = aggregate(&backward);
    assert_eq!(r1.transferred, r2.transferred);
    assert_eq!(r1.skipped, r2.skipped);
    assert_eq!(r1.failures.len(), r2.failures.len());
}

#[test]
fn error_messages() {
    let d = || "boom".to_string();
    assert_eq!(
        Error::ReadingSourceDir(d()).message(),
        "failed reading source dir: boom"
    );
    assert_eq!(Error::Metadata(d()).message(), "failed getting file metadata: boom");
    assert_eq!(Error::ModifiedTime(d()).message(), "failed getting mtime: boom");
    assert_eq!(
        Error::ModifiedTimeDuration(d()).message(),
        "failed getting mtime time since unix epoch: boom"
    );
    assert_eq!(
        Error::ModifiedTimeToChrono.message(),
        "could not get mtime as chrono::DateTime"
    );
    assert_eq!(
        Error::CreatingTargetDirectory(d()).message(),
        "failed creating target directory: boom"
    );
    assert_eq!(
        Error::GettingSourceFileMeta(d()).message(),
        "failed getting source file metadata: boom"
    );
    assert_eq!(
        Error::GettingTargetFileMeta(d()).message(),
        "failed getting target file metadata: boom"
    );
    assert_eq!(
        Error::OpeningSourceFile(d()).message(),
        "failed opening source file: boom"
    );
    assert_eq!(
        Error::CreatingTargetFile(d()).message(),
        "failed creating target file: boom"
    );
    assert_eq!(Error::CopyingFileContents(d()).message(), "failed copying data: boom");
    assert_eq!(
        Error::DeletingSourceFile(d()).message(),
        "failed deleting source file: boom"
    );
}

#[test]
fn duplicate_preserves_error() {
    let e = Error::DeletingSourceFile("busy".to_string());
    let copy = e.duplicate();
    assert!(matches!(copy, Error::DeletingSourceFile(ref s) if s == "busy"));
    let plain = Error::ModifiedTimeToChrono.duplicate();
    assert!(matches!(plain, Error::ModifiedTimeToChrono));
}

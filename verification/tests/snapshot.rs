use ttry::difference::unified_diff;
use ttry::snapshot::{
    file_name, sanitize_name, serialize_region, serialize_screen, stable_hash, SnapshotStep,
    SnapshotWrite, StoredSnapshot, TemporaryFile, TemporaryStep,
};
use ttry::{Error, Rect, SnapshotOptions, SnapshotResult, SnapshotStore, Terminal};

fn store(update: bool) -> SnapshotStore {
    SnapshotStore::new(
        b"snapshots".to_vec(),
        SnapshotOptions { update, preserve_width: false },
    )
}

#[test]
fn creation_match_and_mismatch() {
    let mut terminal = Terminal::new(4, 1).unwrap();
    terminal.advance(b"ok");
    let update = store(true);
    let (step, written) =
        update.assert_screen("case", terminal.screen(), StoredSnapshot::Missing);
    let write = match step {
        SnapshotStep::Write(write) => write,
        other => panic!("nothing to write: {:?}", other),
    };
    assert!(matches!(
        update.written("case", write, Ok(())).unwrap(),
        SnapshotResult::Created(_)
    ));
    let verify = store(false);
    let (step, _) = verify.assert_screen(
        "case",
        terminal.screen(),
        StoredSnapshot::Content(written.clone()),
    );
    assert!(matches!(step, SnapshotStep::Matched));
    terminal.advance(b"x");
    let (step, _) = verify.assert_screen(
        "case",
        terminal.screen(),
        StoredSnapshot::Content(written.clone()),
    );
    assert!(matches!(
        step,
        SnapshotStep::Failed(Error::SnapshotMismatch { .. })
    ));
    let (step, written) =
        update.assert_screen("case", terminal.screen(), StoredSnapshot::Content(written));
    assert!(matches!(step, SnapshotStep::Write(SnapshotWrite::Update)));
    assert!(matches!(
        update.written("case", SnapshotWrite::Update, Ok(())).unwrap(),
        SnapshotResult::Updated(_)
    ));
    assert_eq!(written, "okx\n");
    assert!(update.path_for("case").ends_with(b".snap"));
}

fn name_of(path: Vec<u8>) -> String {
    let text = String::from_utf8(path).unwrap();
    text.rsplit('/').next().unwrap().to_string()
}

#[test]
fn snapshot_paths_are_nonempty_and_collision_safe() {
    let store = SnapshotStore::new(b"snapshots".to_vec(), SnapshotOptions::default());
    assert_ne!(store.path_for("a/b"), store.path_for("a:b"));
    assert_ne!(store.path_for("!!!"), b"snapshots/.snap".to_vec());
    assert!(name_of(store.path_for("!!!")).starts_with("snapshot--"));

    let long_name = "very-long-name-".repeat(1_000);
    let filename = name_of(store.path_for(&long_name));
    assert!(filename.len() < 128);
    assert!(filename.ends_with(".snap"));
}

#[test]
fn file_names_are_exact() {
    assert_eq!(stable_hash(b""), 0xcbf2_9ce4_8422_2325);
    assert_eq!(stable_hash(b"a"), 0xaf63_dc4c_8601_ec8c);
    assert_eq!(stable_hash(b"foobar"), 0x8594_4171_f739_67e8);
    assert_eq!(file_name("a"), "a--af63dc4c8601ec8c.snap");
    assert_eq!(sanitize_name("--Group › a_b!-"), "Group---a_b");
    assert_eq!(sanitize_name("é"), "");
    let long = format!("{}-{}", "x".repeat(95), "y");
    assert_eq!(sanitize_name(&long), "x".repeat(95));
    assert_eq!(store(false).path_for("a"), b"snapshots/a--af63dc4c8601ec8c.snap".to_vec());
    let rooted = SnapshotStore::new(b"/".to_vec(), SnapshotOptions::default());
    assert_eq!(rooted.path_for("a"), b"/a--af63dc4c8601ec8c.snap".to_vec());
}

#[test]
fn missing_and_unreadable_snapshots_are_errors() {
    let step = store(false).assert_content("a", "x\n", StoredSnapshot::Missing);
    assert!(matches!(
        step,
        SnapshotStep::Failed(error) if error.message()
            == "snapshot `a` is missing at snapshots/a--af63dc4c8601ec8c.snap; \
                rerun with update mode enabled"
    ));
    let step = store(true).assert_content("a", "x\n", StoredSnapshot::Failed("denied".to_string()));
    assert!(matches!(
        step,
        SnapshotStep::Failed(error) if error.message() == "I/O error: denied"
    ));
    let result = store(true).written("a", SnapshotWrite::Create, Err("full".to_string()));
    assert_eq!(result.unwrap_err().message(), "I/O error: full");
}

#[test]
fn mismatches_show_a_line_diff() {
    let step = store(false).assert_content(
        "a",
        "one\n2\nthree\n",
        StoredSnapshot::Content("one\ntwo\nthree\n".to_string()),
    );
    assert!(matches!(
        step,
        SnapshotStep::Failed(error) if error.message()
            == "snapshot `a` does not match\n--- expected\n+++ received\n one\n-two\n+2\n three\n"
    ));
    assert_eq!(unified_diff("", "x"), "--- expected\n+++ received\n+x");
    assert_eq!(unified_diff("a\n", "a\n"), "--- expected\n+++ received\n a\n");
}

#[test]
fn temporary_files_are_tried_a_hundred_times() {
    let store = store(true);
    assert_eq!(
        store.temporary_path("a", 7, 12),
        b"snapshots/.a--af63dc4c8601ec8c.snap.tmp-7-12".to_vec()
    );
    assert!(matches!(
        store.temporary_step("a", 0, TemporaryFile::Opened),
        TemporaryStep::Use
    ));
    assert!(matches!(
        store.temporary_step("a", 98, TemporaryFile::Exists),
        TemporaryStep::Retry
    ));
    assert!(matches!(
        store.temporary_step("a", 99, TemporaryFile::Exists),
        TemporaryStep::Failed(error) if error.message()
            == "I/O error: could not allocate a temporary snapshot beside \
                snapshots/a--af63dc4c8601ec8c.snap"
    ));
    assert!(matches!(
        store.temporary_step("a", 0, TemporaryFile::Failed("no".to_string())),
        TemporaryStep::Failed(Error::Io(reason)) if reason == "no"
    ));
}

#[test]
fn snapshots_trim_or_keep_the_width() {
    let mut terminal = Terminal::new(4, 2).unwrap();
    terminal.advance(b"ok\r\n x");
    let screen = terminal.screen();
    assert_eq!(serialize_screen(screen, false), "ok\n x\n");
    assert_eq!(serialize_screen(screen, true), "ok  \n x  \n");
    let region = screen.region(Rect::new(1, 0, 2, 2)).unwrap();
    assert_eq!(serialize_region(&region, screen, false), "k\nx\n");
    assert_eq!(serialize_region(&region, screen, true), "k \nx \n");
}

#[test]
fn every_row_of_a_snapshot_ends_with_a_line_feed() {
    let mut terminal = Terminal::new(4, 3).unwrap();
    terminal.advance(b"ab\r\ncd");
    assert_eq!(serialize_screen(terminal.screen(), false), "ab\ncd\n\n");
    assert_eq!(serialize_screen(terminal.screen(), true), "ab  \ncd  \n    \n");
}

#[test]
fn a_region_has_a_snapshot_of_its_own() {
    let mut terminal = Terminal::new(6, 2).unwrap();
    terminal.advance(b"abcd\r\nef");
    let region = terminal.screen().region(Rect::new(1, 0, 3, 2)).unwrap();
    let (step, content) =
        store(true).assert_region("part", &region, terminal.screen(), StoredSnapshot::Missing);
    assert!(matches!(step, SnapshotStep::Write(SnapshotWrite::Create)));
    assert_eq!(content, "bcd\nf\n");
    let stored = StoredSnapshot::Content(content);
    let (step, _) = store(false).assert_region("part", &region, terminal.screen(), stored);
    assert!(matches!(step, SnapshotStep::Matched));
    let wide = SnapshotStore::new(
        b"snapshots".to_vec(),
        SnapshotOptions { update: false, preserve_width: true },
    );
    let stored = StoredSnapshot::Content("bcd\nf\n".to_string());
    let (step, content) = wide.assert_region("part", &region, terminal.screen(), stored);
    assert_eq!(content, "bcd\nf  \n");
    assert!(matches!(step, SnapshotStep::Failed(Error::SnapshotMismatch { .. })));
}

#[test]
fn one_byte_names_hash_apart() {
    let mut hashes: Vec<u64> = (0..=255_u8).map(|byte| stable_hash(&[byte])).collect();
    hashes.sort_unstable();
    hashes.dedup();
    assert_eq!(hashes.len(), 256);
}

#[test]
fn names_that_differ_in_one_byte_hash_apart() {
    let name = b"projects / open".to_vec();
    let hash = stable_hash(&name);
    for at in 0..name.len() {
        for byte in 0..=255_u8 {
            let mut other = name.clone();
            other[at] = byte;
            assert_eq!(stable_hash(&other) == hash, byte == name[at]);
        }
    }
}

use std::cell::RefCell;
use std::collections::BTreeSet;
use wintermute_tts::cache::{normalize, CacheError, CacheManager, RenderReport};
use wintermute_tts::pass::{Pass, PassAction, PassEvent, PassPhase};
use wintermute_tts::synth::{Synth, SynthError};

/// A disk that holds nothing but the names of its files.
struct Disk {
    dirs: RefCell<BTreeSet<String>>,
    files: RefCell<BTreeSet<String>>,
}

impl Disk {
    fn new() -> Self {
        Disk { dirs: RefCell::new(BTreeSet::new()), files: RefCell::new(BTreeSet::new()) }
    }

    fn create_dir(&self, path: &str) -> Result<(), String> {
        self.dirs.borrow_mut().insert(path.to_string());
        Ok(())
    }

    fn is_file(&self, path: &str) -> bool {
        self.files.borrow().contains(path)
    }
}

struct FakeSynth<'a> {
    disk: &'a Disk,
    calls: RefCell<Vec<(String, String)>>,
    fail_for: Option<String>,
}

impl<'a> FakeSynth<'a> {
    fn new(disk: &'a Disk) -> Self {
        FakeSynth { disk, calls: RefCell::new(Vec::new()), fail_for: None }
    }

    fn fail_for(disk: &'a Disk, text: &str) -> Self {
        FakeSynth {
            disk,
            calls: RefCell::new(Vec::new()),
            fail_for: Some(text.to_string()),
        }
    }
}

impl Synth for FakeSynth<'_> {
    fn render(&self, voice: &str, text: &str, out_path: &str) -> Result<(), SynthError> {
        self.calls.borrow_mut().push((voice.to_string(), text.to_string()));
        if self.fail_for.as_deref() == Some(text) {
            return Err(SynthError::BackendFailed {
                status: 1,
                stderr: format!("boom on {text}"),
            });
        }
        self.disk.files.borrow_mut().insert(out_path.to_string());
        Ok(())
    }
}

fn prerender(
    mgr: &CacheManager,
    phrases: &[String],
    synth: &FakeSynth<'_>,
) -> Result<RenderReport, CacheError> {
    let disk = synth.disk;
    mgr.prerender(phrases, synth, |d: &str| disk.create_dir(d), |p: &str| disk.is_file(p))
}

fn manager() -> CacheManager {
    CacheManager::new("/tmp/cache".to_string(), "en_US-lessac-medium".to_string())
}

#[test]
fn entry_path_is_normalized_and_stable() {
    let mgr = manager();
    let a = mgr.entry_path("Yes");
    let b = mgr.entry_path("  yes  ");
    assert_eq!(a, b, "case- and whitespace-equivalent phrases share a path");
    assert!(a.starts_with("/tmp/cache/en_US-lessac-medium/"));
    assert!(a.ends_with(".wav"));
}

#[test]
fn prerender_creates_missing_files_and_reports_hits() {
    let disk = Disk::new();
    let mgr = manager();
    let synth = FakeSynth::new(&disk);
    let phrases = vec!["yes".to_string(), "no".to_string(), "one moment".to_string()];

    let first = prerender(&mgr, &phrases, &synth).expect("first render ok");
    assert_eq!(first.hits, 0);
    assert_eq!(first.rendered, 3);
    assert!(first.failures.is_empty());
    for p in &phrases {
        assert!(
            mgr.has(p, |q: &str| disk.is_file(q)),
            "{p} should be cached after first render"
        );
    }

    let second = prerender(&mgr, &phrases, &synth).expect("second render ok");
    assert_eq!(second.hits, 3, "second pass is all hits");
    assert_eq!(second.rendered, 0);
    assert_eq!(synth.calls.borrow().len(), 3);
    assert!(disk.dirs.borrow().contains("/tmp/cache/en_US-lessac-medium"));
}

#[test]
fn prerender_records_per_phrase_failures_without_aborting() {
    let disk = Disk::new();
    let mgr = manager();
    let synth = FakeSynth::fail_for(&disk, "one moment");
    let phrases = vec!["yes".to_string(), "one moment".to_string(), "no".to_string()];

    let report = prerender(&mgr, &phrases, &synth).expect("io ok");
    assert_eq!(report.rendered, 2);
    assert_eq!(report.hits, 0);
    assert_eq!(report.failures.len(), 1);
    assert_eq!(report.failure_count(), 1);
    assert_eq!(report.failures[0].0, "one moment");
    assert_eq!(
        report.failures[0].1,
        "backend exited with status 1: boom on one moment"
    );
    assert!(mgr.has("yes", |p: &str| disk.is_file(p)));
    assert!(mgr.has("no", |p: &str| disk.is_file(p)));
    assert!(!mgr.has("one moment", |p: &str| disk.is_file(p)));
    assert_eq!(
        synth.calls.borrow()[0],
        ("en_US-lessac-medium".to_string(), "yes".to_string())
    );
}

#[test]
fn entry_path_is_the_head_of_the_digest() {
    // SHA-256 of "yes" begins with 8a798890fe93817163b10b5f7bd2ca4d...
    assert_eq!(
        manager().entry_path(" YES "),
        "/tmp/cache/en_US-lessac-medium/8a798890fe938171.wav"
    );
    // SHA-256 of the empty text begins with e3b0c44298fc1c14...
    assert_eq!(
        manager().entry_path("  "),
        "/tmp/cache/en_US-lessac-medium/e3b0c44298fc1c14.wav"
    );
}

#[test]
fn letters_beyond_ascii_are_lowered_too() {
    assert_eq!(normalize("  ÄÖÜ Straße "), "äöü straße");
    assert_eq!(manager().entry_path("GRÜSSE"), manager().entry_path("grüsse"));
}

#[test]
fn directory_that_cannot_be_made_is_an_error() {
    let disk = Disk::new();
    let synth = FakeSynth::new(&disk);
    let err = manager()
        .prerender(
            &["yes".to_string()],
            &synth,
            |_: &str| Err("read-only".to_string()),
            |_: &str| false,
        )
        .expect_err("no directory");
    assert_eq!(
        err,
        CacheError::Io {
            path: "/tmp/cache/en_US-lessac-medium".to_string(),
            source: "read-only".to_string(),
        }
    );
    assert_eq!(
        err.message(),
        "io failure on /tmp/cache/en_US-lessac-medium: read-only"
    );
    assert!(synth.calls.borrow().is_empty());
    let other = CacheError::Synth(SynthError::BackendMissing("piper".to_string()));
    assert_eq!(
        other.message(),
        "synth backend failure: backend binary not found: piper"
    );
}

#[test]
fn failures_are_kept_in_order_and_once() {
    let mut report = RenderReport::new();
    report.record_failure("b", "1".to_string());
    report.record_failure("a", "2".to_string());
    report.record_failure("b", "3".to_string());
    report.record_failure("ab", "4".to_string());
    let expected: Vec<(String, String)> = vec![
        ("a".to_string(), "2".to_string()),
        ("ab".to_string(), "4".to_string()),
        ("b".to_string(), "3".to_string()),
    ];
    assert_eq!(report.failures, expected);
}

#[test]
fn absolute_voice_replaces_the_root() {
    let mgr = CacheManager::new("/a".to_string(), "/b".to_string());
    assert_eq!(mgr.voice_dir(), "/b");
    let mgr = CacheManager::new(String::new(), "v".to_string());
    assert_eq!(mgr.voice_dir(), "v");
}

#[test]
fn file_names_are_sixteen_lower_case_digits() {
    for phrase in ["yes", "No", "one moment", "", "Ä", "\n\t x"] {
        let path = manager().entry_path(phrase);
        let name = path.strip_prefix("/tmp/cache/en_US-lessac-medium/").expect("in its directory");
        let digits = name.strip_suffix(".wav").expect("a WAV file");
        assert_eq!(digits.len(), 16);
        assert!(digits.chars().all(|c| c.is_ascii_digit() || ('a'..='f').contains(&c)));
    }
}

#[test]
fn backend_is_asked_exactly_for_missing_files() {
    let mgr = manager();
    let phrases = vec!["yes".to_string(), "no".to_string(), "maybe".to_string()];
    let (mut pass, first) = Pass::begin(&mgr, &phrases);
    assert!(matches!(first, PassAction::MakeDir(d) if d == "/tmp/cache/en_US-lessac-medium"));
    let action = pass.step(PassEvent::DirMade);
    assert!(matches!(action, PassAction::LookUp(p) if p == mgr.entry_path("yes")));
    // There: the next phrase is looked up at once.
    let action = pass.step(PassEvent::Found(true));
    assert!(matches!(action, PassAction::LookUp(p) if p == mgr.entry_path("no")));
    match pass.step(PassEvent::Found(false)) {
        PassAction::Render { voice, text, path } => {
            assert_eq!(voice, "en_US-lessac-medium");
            assert_eq!(text, "no");
            assert_eq!(path, mgr.entry_path("no"));
        }
        other => panic!("expected a rendering, got {other:?}"),
    }
    let failed = SynthError::BackendMissing("piper".to_string());
    let action = pass.step(PassEvent::RenderFailed(failed));
    assert!(matches!(action, PassAction::LookUp(p) if p == mgr.entry_path("maybe")));
    assert!(matches!(pass.step(PassEvent::Found(false)), PassAction::Render { .. }));
    assert!(matches!(pass.step(PassEvent::Rendered), PassAction::Finish));
    assert_eq!((pass.report.hits, pass.report.rendered), (1, 1));
    assert_eq!(
        pass.report.failures,
        vec![("no".to_string(), "backend binary not found: piper".to_string())]
    );
    assert!(matches!(pass.step(PassEvent::Rendered), PassAction::Stop));
}

#[test]
fn nothing_is_asked_once_the_directory_failed() {
    let mgr = manager();
    let phrases = vec!["yes".to_string()];
    let (mut pass, _) = Pass::begin(&mgr, &phrases);
    match pass.step(PassEvent::DirFailed("read-only".to_string())) {
        PassAction::Fail(e) => assert_eq!(
            e.message(),
            "io failure on /tmp/cache/en_US-lessac-medium: read-only"
        ),
        other => panic!("expected a failure, got {other:?}"),
    }
    assert_eq!(pass.phase, PassPhase::Done);
    assert!(matches!(pass.step(PassEvent::DirMade), PassAction::Stop));
    assert!(matches!(pass.step(PassEvent::Found(false)), PassAction::Stop));
}

#[test]
fn second_pass_asks_the_backend_for_nothing() {
    let disk = Disk::new();
    let mgr = manager();
    let synth = FakeSynth::new(&disk);
    let phrases = vec!["yes".to_string(), "Yes ".to_string(), "no".to_string()];
    let first = prerender(&mgr, &phrases, &synth).expect("first pass");
    // The second phrase shares the file of the first.
    assert_eq!((first.hits, first.rendered), (1, 2));
    let calls = synth.calls.borrow().clone();
    assert_eq!(calls.len(), 2);
    let second = prerender(&mgr, &phrases, &synth).expect("second pass");
    assert_eq!((second.hits, second.rendered), (3, 0));
    assert!(second.failures.is_empty());
    assert_eq!(*synth.calls.borrow(), calls);
}

#[test]
fn pass_over_nothing_finishes_at_once() {
    let mgr = manager();
    let (mut pass, _) = Pass::begin(&mgr, &[]);
    assert!(matches!(pass.step(PassEvent::DirMade), PassAction::Finish));
    assert_eq!(pass.report, RenderReport::default());
}

use mrdocument::chatgpt::data_url;
use mrdocument::chatgpt::encode_pages;
use mrdocument::chatgpt::make_instructions;
use mrdocument::chatgpt::make_outputs;
use mrdocument::chatgpt::make_specs;
use mrdocument::chatgpt::require_tool_arguments;
use mrdocument::document::DocumentData;
use mrdocument::error::Error;
use mrdocument::fs_state::FsState;
use mrdocument::handler::Handler;
use mrdocument::handler::should_process;
use mrdocument::paths::Location;
use mrdocument::paths::LocationNames;
use mrdocument::paths::Paths;
use mrdocument::profile::Profile;
use mrdocument::profile_handler::Directive;
use mrdocument::profile_handler::ProfileHandler;
use mrdocument::profile_handler::content_hash;
use mrdocument::watcher::CreateKind;
use mrdocument::watcher::EventKind;
use mrdocument::watcher::FsEvent;
use mrdocument::watcher::LoopDecision;
use mrdocument::watcher::WatchLoopState;
use mrdocument::watcher::WatcherEvent;
use mrdocument::watcher::dispatch_event;
use mrdocument::watcher::filter_events;
use mrdocument::watcher::scan_event;

fn plain_paths(root: &str) -> Paths {
    Paths::new(root.to_string(), LocationNames::empty())
}

fn profile(root: &str) -> Profile {
    Profile::new_default("/home/u").with_path(root.to_string())
}

fn doc() -> DocumentData {
    DocumentData {
        content: Some("transcript".to_string()),
        summary: "a bill".to_string(),
        class: "invoice".to_string(),
        source: "acme".to_string(),
        keywords: vec!["x".to_string()],
        title: "march-bill".to_string(),
        date: "2024-03-01".to_string(),
    }
}

// With a ceiling of N, the N+1-th admission is refused until one of the
// first N completes.
#[test]
fn task_pool_admission_control() {
    let mut handler = Handler::new(profile("/r"), 2);
    assert!(handler.try_admit());
    assert!(handler.try_admit());
    assert!(!handler.try_admit());
    assert!(!handler.try_admit());
    handler.task_done();
    assert!(handler.try_admit());
    assert!(!handler.try_admit());
    handler.task_done();
    handler.task_done();
    assert!(handler.try_admit());
    assert_eq!(handler.profile().name, "default");
}

#[test]
fn only_create_events_start_processing() {
    assert!(should_process(EventKind::Create(CreateKind::Any)));
    assert!(should_process(EventKind::Create(CreateKind::File)));
    assert!(!should_process(EventKind::Create(CreateKind::Folder)));
    assert!(!should_process(EventKind::Modify));
    assert!(!should_process(EventKind::Remove));
    assert!(!should_process(EventKind::Other));
}

// A file that never parses within the retry budget ends in the error
// location with a not-a-valid-document failure.
#[test]
fn readiness_budget_exhausted_routes_to_error() {
    let mut fs = FsState::new();
    assert!(fs.create_new("/r/inbox/slow.pdf".to_string(), 5));
    let parse_ok = vec![false, false, false, false, false, false, true];
    let err = Handler::handle_file_transit(
        &mut fs,
        plain_paths("/r"),
        "/r/inbox/slow.pdf".to_string(),
        &parse_ok,
        Ok(doc()),
        true,
    )
    .unwrap_err();
    assert_eq!(err, Error::NotValidPdfError);
    assert!(!fs.exists_file(&"/r/inbox/slow.pdf".to_string()));
    assert_eq!(fs.content_of(&"/r/error/slow.pdf".to_string()), Some(5));
}

// A file that disappears mid-wait fails as disappeared and is not moved.
#[test]
fn vanished_file_is_not_moved() {
    let mut fs = FsState::new();
    let err = Handler::handle_file_transit(
        &mut fs,
        plain_paths("/r"),
        "/r/inbox/gone.pdf".to_string(),
        &vec![true],
        Ok(doc()),
        true,
    )
    .unwrap_err();
    assert_eq!(err, Error::FileDisappearedError("/r/inbox/gone.pdf".to_string()));
    assert!(!fs.exists_file(&"/r/error/gone.pdf".to_string()));
    assert!(!fs.exists_file(&"/r/inbox/gone.pdf".to_string()));
}

// An empty parse record means no attempt ever succeeded.
#[test]
fn readiness_with_no_parses_routes_to_error() {
    let mut fs = FsState::new();
    assert!(fs.create_new("/r/inbox/never.pdf".to_string(), 5));
    let err = Handler::handle_file_transit(
        &mut fs,
        plain_paths("/r"),
        "/r/inbox/never.pdf".to_string(),
        &vec![],
        Ok(doc()),
        true,
    )
    .unwrap_err();
    assert_eq!(err, Error::NotValidPdfError);
    assert_eq!(fs.content_of(&"/r/error/never.pdf".to_string()), Some(5));
}

// A parse on a later attempt within the budget still succeeds.
#[test]
fn readiness_late_parse_succeeds() {
    let mut fs = FsState::new();
    assert!(fs.create_new("/r/inbox/late.pdf".to_string(), 5));
    let parse_ok = vec![false, false, false, false, false, true];
    Handler::handle_file_transit(
        &mut fs,
        plain_paths("/r"),
        "/r/inbox/late.pdf".to_string(),
        &parse_ok,
        Ok(doc()),
        true,
    )
    .unwrap();
    assert_eq!(fs.content_of(&"/r/processed/late.pdf".to_string()), Some(5));
}

// A classification failure routes the file to the error location and
// surfaces the original failure.
#[test]
fn classification_failure_quarantines() {
    let mut fs = FsState::new();
    assert!(fs.create_new("/r/inbox/bad.pdf".to_string(), 5));
    let err = Handler::handle_file_transit(
        &mut fs,
        plain_paths("/r"),
        "/r/inbox/bad.pdf".to_string(),
        &vec![true],
        Err(Error::TimeoutError),
        true,
    )
    .unwrap_err();
    assert_eq!(err, Error::TimeoutError);
    assert_eq!(fs.content_of(&"/r/error/bad.pdf".to_string()), Some(5));
    assert!(!fs.exists_file(&"/r/inbox/bad.pdf".to_string()));
    assert!(!fs.exists_file(&"/r/transit/bad.pdf".to_string()));
}

// A failed metadata rewrite routes the file to the error location.
#[test]
fn rewrite_failure_quarantines() {
    let mut fs = FsState::new();
    assert!(fs.create_new("/r/inbox/rw.pdf".to_string(), 5));
    let err = Handler::handle_file_transit(
        &mut fs,
        plain_paths("/r"),
        "/r/inbox/rw.pdf".to_string(),
        &vec![true],
        Ok(doc()),
        false,
    )
    .unwrap_err();
    assert!(matches!(err, Error::MetadataOutError(_)));
    assert_eq!(fs.content_of(&"/r/error/rw.pdf".to_string()), Some(5));
}

#[test]
fn unsupported_file_quarantines() {
    let mut fs = FsState::new();
    assert!(fs.create_new("/r/inbox/notes.txt".to_string(), 5));
    let err = Handler::handle_file_transit(
        &mut fs,
        plain_paths("/r"),
        "/r/inbox/notes.txt".to_string(),
        &vec![true],
        Ok(doc()),
        true,
    )
    .unwrap_err();
    assert_eq!(err, Error::UnsupportedFileTypeError("/r/inbox/notes.txt".to_string()));
    assert_eq!(fs.content_of(&"/r/error/notes.txt".to_string()), Some(5));
}

// End to end: a parseable scan.pdf in the inbox, a successful
// classification, and a successful rewrite leave the artifact under
// outbox/invoice/acme and nothing in inbox, transit or error.
#[test]
fn end_to_end_scan_pdf() {
    let mut fs = FsState::new();
    assert!(fs.create_new("/r/inbox/scan.pdf".to_string(), 7));
    Handler::handle_file_transit(
        &mut fs,
        plain_paths("/r"),
        "/r/inbox/scan.pdf".to_string(),
        &vec![true],
        Ok(doc()),
        true,
    )
    .unwrap();
    assert_eq!(
        fs.content_of(&"/r/outbox/invoice/acme/2024-03-01-march-bill.pdf".to_string()),
        Some(7)
    );
    assert!(fs.exists_file(&"/r/outbox/invoice/acme/2024-03-01-march-bill.content".to_string()));
    assert!(fs.exists_file(&"/r/outbox/invoice/acme/2024-03-01-march-bill.summary".to_string()));
    assert_eq!(fs.content_of(&"/r/processed/scan.pdf".to_string()), Some(7));
    assert!(!fs.exists_file(&"/r/inbox/scan.pdf".to_string()));
    assert!(!fs.exists_file(&"/r/transit/scan.pdf".to_string()));
    assert!(!fs.exists_file(&"/r/error/scan.pdf".to_string()));
}

// Without a transcribed content, no content sidecar is written.
#[test]
fn end_to_end_without_content() {
    let mut fs = FsState::new();
    assert!(fs.create_new("/r/inbox/scan.pdf".to_string(), 7));
    let mut dd = doc();
    dd.content = None;
    Handler::handle_file_transit(
        &mut fs,
        plain_paths("/r"),
        "/r/inbox/scan.pdf".to_string(),
        &vec![true],
        Ok(dd),
        true,
    )
    .unwrap();
    assert!(!fs.exists_file(&"/r/outbox/invoice/acme/2024-03-01-march-bill.content".to_string()));
    assert!(fs.exists_file(&"/r/outbox/invoice/acme/2024-03-01-march-bill.summary".to_string()));
}

// Two same-named documents both land in the outbox, the second under a
// disambiguated name.
#[test]
fn same_named_documents_disambiguated() {
    let mut fs = FsState::new();
    assert!(fs.create_new(
        "/r/outbox/invoice/acme/2024-03-01-march-bill.pdf".to_string(),
        1
    ));
    assert!(fs.create_new("/r/inbox/scan.pdf".to_string(), 7));
    Handler::handle_file_transit(
        &mut fs,
        plain_paths("/r"),
        "/r/inbox/scan.pdf".to_string(),
        &vec![true],
        Ok(doc()),
        true,
    )
    .unwrap();
    assert_eq!(
        fs.content_of(&"/r/outbox/invoice/acme/2024-03-01-march-bill.pdf".to_string()),
        Some(1)
    );
    assert_eq!(fs.content_of(&"/r/processed/scan.pdf".to_string()), Some(7));
}

// Hot reload: an unchanged hash keeps the loop, a changed hash tears it
// down and asks for a restart, a removal unregisters the path.
#[test]
fn supervisor_hot_reload() {
    let mut sup = ProfileHandler::new("/cfg/profile".to_string());
    let path = "/cfg/profile/main.yaml".to_string();

    // First sighting: untracked, a regular file: start requested.
    let d: Directive = sup.handle_profile(&path, EventKind::Create(CreateKind::File), Some(b"cfg-one".to_vec()), true);
    assert_eq!(d.shutdown_loop, None);
    assert!(d.start_watcher);
    assert!(!sup.is_tracked(&path));

    sup.record_started(path.clone(), content_hash(&b"cfg-one".to_vec()), 11);
    assert!(sup.is_tracked(&path));
    assert_eq!(sup.loop_of(&path), Some(11));

    // Same content: hash unchanged, nothing restarts.
    let d = sup.handle_profile(&path, EventKind::Modify, Some(b"cfg-one".to_vec()), true);
    assert_eq!(d.shutdown_loop, None);
    assert!(!d.start_watcher);
    assert_eq!(sup.loop_of(&path), Some(11));

    // Changed content: the old loop is shut down and a restart requested.
    let d = sup.handle_profile(&path, EventKind::Modify, Some(b"cfg-two".to_vec()), true);
    assert_eq!(d.shutdown_loop, Some(11));
    assert!(d.start_watcher);
    assert!(!sup.is_tracked(&path));

    sup.record_started(path.clone(), content_hash(&b"cfg-two".to_vec()), 12);

    // Removal: the loop is shut down and the entry dropped, no restart.
    let d = sup.handle_profile(&path, EventKind::Remove, None, false);
    assert_eq!(d.shutdown_loop, Some(12));
    assert!(!d.start_watcher);
    assert!(!sup.is_tracked(&path));

    // An irrelevant event never disturbs a tracked profile.
    sup.record_started(path.clone(), content_hash(&b"cfg-two".to_vec()), 13);
    let d = sup.handle_profile(&path, EventKind::Access, None, true);
    assert_eq!(d.shutdown_loop, None);
    assert!(!d.start_watcher);
    assert_eq!(sup.loop_of(&path), Some(13));
}

// The recorded content hash is the real SHA-256 digest.
#[test]
fn content_hash_is_sha256() {
    let h = content_hash(&b"abc".to_vec());
    let expected: Vec<u8> = vec![
        0xba, 0x78, 0x16, 0xbf, 0x8f, 0x01, 0xcf, 0xea, 0x41, 0x41, 0x40, 0xde, 0x5d, 0xae, 0x22,
        0x23, 0xb0, 0x03, 0x61, 0xa3, 0x96, 0x17, 0x7a, 0x9c, 0xb4, 0x10, 0xff, 0x61, 0xf2, 0x00,
        0x15, 0xad,
    ];
    assert_eq!(h, expected);
}

#[test]
fn dispatch_decisions() {
    let event = FsEvent {
        kind: EventKind::Create(CreateKind::File),
        paths: vec!["/r/inbox/a.pdf".to_string()],
    };
    match dispatch_event(Some(WatcherEvent::Event(event))) {
        LoopDecision::Dispatch(e) => {
            assert_eq!(e.paths, vec!["/r/inbox/a.pdf".to_string()]);
        },
        _ => panic!("expected dispatch"),
    }
    assert!(matches!(dispatch_event(Some(WatcherEvent::Quit)), LoopDecision::StopOk));
    match dispatch_event(Some(WatcherEvent::Error(Error::SendError))) {
        LoopDecision::StopError(e) => assert_eq!(e, Error::SendError),
        _ => panic!("expected stop"),
    }
    match dispatch_event(None) {
        LoopDecision::StopError(e) => assert_eq!(e, Error::StreamClosedError),
        _ => panic!("expected stream closed"),
    }
}

// The loop lifecycle: the stop hook becomes due exactly when consumption
// stops, and the terminal result is the one fixed at that moment.
#[test]
fn loop_lifecycle_fixes_terminal_result() {
    let mut state = WatchLoopState::new();
    state.begin_consuming();
    let event = FsEvent { kind: EventKind::Modify, paths: vec![] };
    let handed = state.observe(LoopDecision::Dispatch(event));
    assert!(handed.is_some());
    let handed = state.observe(LoopDecision::StopOk);
    assert!(handed.is_none());
    assert!(state.finish().is_ok());

    let mut state = WatchLoopState::new();
    state.begin_consuming();
    let handed = state.observe(LoopDecision::StopError(Error::StreamClosedError));
    assert!(handed.is_none());
    assert_eq!(state.finish().unwrap_err(), Error::StreamClosedError);
}

#[test]
fn raw_notification_filter() {
    let ok = FsEvent { kind: EventKind::Modify, paths: vec![] };
    assert!(matches!(filter_events(Ok(ok)), Some(WatcherEvent::Event(_))));
    match filter_events(Err(Error::SendError)) {
        Some(WatcherEvent::Error(e)) => assert_eq!(e, Error::SendError),
        _ => panic!("expected a fatal error item"),
    }

    match scan_event("/r/a.pdf".to_string(), true) {
        Some(WatcherEvent::Event(e)) => {
            assert_eq!(e.kind, EventKind::Create(CreateKind::File));
            assert_eq!(e.paths, vec!["/r/a.pdf".to_string()]);
        },
        _ => panic!("expected scan event"),
    }
    assert!(scan_event("/r/sub".to_string(), false).is_none());
}

// The transport form of a page image; fails if the encoding step handed
// its input back unchanged.
#[test]
fn data_urls_use_base64() {
    assert_eq!(data_url("image/png", &b"foo".to_vec()), "data:image/png;base64,Zm9v");
    let urls = encode_pages(&vec![b"foo".to_vec(), b"ab".to_vec()], "image/png");
    assert_eq!(
        urls,
        vec![
            "data:image/png;base64,Zm9v".to_string(),
            "data:image/png;base64,YWI=".to_string()
        ]
    );
}

#[test]
fn instruction_text_built_from_vocabulary() {
    let outputs = make_outputs();
    assert_eq!(outputs.len(), 7);
    assert_eq!(outputs[1], "* A summary of the content of the entire document.");

    let plain = make_specs(vec![], vec![]);
    assert_eq!(plain.len(), 1);

    let specs = make_specs(
        vec!["invoice".to_string(), "letter".to_string()],
        vec!["acme".to_string()],
    );
    assert_eq!(specs.len(), 3);
    assert_eq!(
        specs[1],
        "* When choosing the class of the document, check if any of these classes match before creating a new one: invoice, letter"
    );
    assert_eq!(
        specs[2],
        "* When choosing the source of the document, check if any of these sources match before creating a new one: acme"
    );

    let instructions = make_instructions(vec!["invoice".to_string()], vec![]);
    assert_eq!(instructions.len(), 1);
    let expected = format!(
        "You will be given a scan of a document. It may consist of one or more pages. You shall provide as output in the language of the document:\n{}\n\nWhen producing the output, you shall observe the following points:\n{}\n",
        make_outputs().join("\n"),
        make_specs(vec!["invoice".to_string()], vec![]).join("\n")
    );
    assert_eq!(instructions[0], expected);
}

// A service answer without tool-call arguments cannot be processed and
// retains the raw response.
#[test]
fn missing_tool_arguments_not_processed() {
    let r = require_tool_arguments(Some("{}".to_string()), Some("raw".to_string()));
    assert_eq!(r.unwrap(), "{}");
    let e = require_tool_arguments(None, Some("raw".to_string())).unwrap_err();
    assert_eq!(e, Error::DoesNotProcessError(Some("raw".to_string())));
}

// Only directory entries enter the discovered vocabulary, in order.
#[test]
fn outbox_vocabulary_keeps_directories() {
    let first = vec![
        ("invoice".to_string(), true),
        ("stray.pdf".to_string(), false),
        ("letter".to_string(), true),
    ];
    let second = vec![("acme".to_string(), true), ("notes.txt".to_string(), false)];
    let (classes, sources) = mrdocument::handler::outbox_vocabulary(first, second);
    assert_eq!(classes, vec!["invoice".to_string(), "letter".to_string()]);
    assert_eq!(sources, vec!["acme".to_string()]);
}

// The tracked profile root decides every location path.
#[test]
fn handler_profile_paths() {
    let handler = Handler::new(profile("/data"), 4);
    assert_eq!(handler.profile().paths.make_root(Location::Inbox), "/data/inbox");
}

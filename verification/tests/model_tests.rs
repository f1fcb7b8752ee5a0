use mrdocument::document::DocumentData;
use mrdocument::error::Error;
use mrdocument::file_info::FileInfo;
use mrdocument::file_info::collect_page_images;
use mrdocument::file_info::page_number;
use mrdocument::file_object::FileObject;
use mrdocument::file_object::file_name_of;
use mrdocument::fs_state::FsState;
use mrdocument::paths::Location;
use mrdocument::paths::LocationNames;
use mrdocument::paths::Paths;
use mrdocument::pdf::make_metdata_entry;
use mrdocument::pdf::updated_metadata;
use mrdocument::profile::Profile;
use mrdocument::util::MoveOutcome;
use mrdocument::util::join_strings;
use mrdocument::util::make_unique_path;
use mrdocument::util::move_file;

fn plain_paths(root: &str) -> Paths {
    Paths::new(root.to_string(), LocationNames::empty())
}

fn doc() -> DocumentData {
    DocumentData {
        content: Some("transcript".to_string()),
        summary: "a bill".to_string(),
        class: "invoice".to_string(),
        source: "acme".to_string(),
        keywords: vec!["x".to_string()],
        title: "march-bill".to_string(),
        date: "2024-03-01".to_string(),
    }
}

#[test]
fn make_root_uses_location_names() {
    let paths = plain_paths("/home/baz");
    assert_eq!(paths.make_root(Location::Inbox), "/home/baz/inbox");
    assert_eq!(paths.make_root(Location::Outbox), "/home/baz/outbox");
    assert_eq!(paths.make_root(Location::Transit), "/home/baz/transit");
    assert_eq!(paths.make_root(Location::Processed), "/home/baz/processed");
    assert_eq!(paths.make_root(Location::Error), "/home/baz/error");
}

#[test]
fn make_root_honours_overrides() {
    let mapping = LocationNames {
        inbox: Some("in".to_string()),
        outbox: None,
        transit: None,
        processed: None,
        error: None,
    };
    let paths = Paths::new("/r".to_string(), mapping);
    assert_eq!(paths.make_root(Location::Inbox), "/r/in");
    assert_eq!(paths.make_root(Location::Outbox), "/r/outbox");
}

#[test]
fn legacy_paths_make_root() {
    let paths = mrdocument::file::Paths::new("/home/baz".to_string());
    assert_eq!(
        paths.make_root(mrdocument::file::Location::Transit),
        "/home/baz/transit"
    );
}

// For all valid filenames, adoption followed by make_path yields
// root/locationName/filename for every location.
#[test]
fn tracked_file_paths_for_every_location() {
    let fs = FsState::new();
    let file = FileObject::new(
        plain_paths("/home/baz"),
        "/home/baz/inbox/foobar.pdf".to_string(),
        &fs,
    )
    .unwrap();
    assert_eq!(file.current_location, Location::Inbox);
    assert_eq!(file.make_path(Location::Inbox), "/home/baz/inbox/foobar.pdf");
    assert_eq!(file.make_path(Location::Transit), "/home/baz/transit/foobar.pdf");
    assert_eq!(file.make_path(Location::Outbox), "/home/baz/outbox/foobar.pdf");
    assert_eq!(
        file.make_path(Location::Processed),
        "/home/baz/processed/foobar.pdf"
    );
    assert_eq!(file.make_path(Location::Error), "/home/baz/error/foobar.pdf");
    assert_eq!(file.get_path(), "/home/baz/inbox/foobar.pdf");
}

// Construction fails with a collision error when any non-inbox location
// already holds a same-named entry.
#[test]
fn tracked_file_collision_refused() {
    let mut fs = FsState::new();
    assert!(fs.create_new("/r/processed/a.pdf".to_string(), 9));
    let err = FileObject::new(plain_paths("/r"), "/r/inbox/a.pdf".to_string(), &fs).unwrap_err();
    assert_eq!(err, Error::FileExists("/r/inbox/a.pdf".to_string()));
    // A same-named inbox entry is no collision.
    let mut fs2 = FsState::new();
    assert!(fs2.create_new("/r/inbox/a.pdf".to_string(), 9));
    assert!(FileObject::new(plain_paths("/r"), "/r/inbox/a.pdf".to_string(), &fs2).is_ok());
}

#[test]
fn tracked_file_needs_filename() {
    let fs = FsState::new();
    let err = FileObject::new(plain_paths("/r"), "/r/inbox/".to_string(), &fs).unwrap_err();
    assert_eq!(err, Error::UnsupportedFileTypeError("/r/inbox/".to_string()));
}

#[test]
fn file_name_of_extracts_last_segment() {
    assert_eq!(file_name_of("/a/b/c.pdf"), Some("c.pdf".to_string()));
    assert_eq!(file_name_of("c.pdf"), Some("c.pdf".to_string()));
    assert_eq!(file_name_of("/a/b/"), None);
    assert_eq!(file_name_of(""), None);
}

// A move is atomic or a no-op: after a simulated failure mid-move,
// exactly one copy exists, and the state reflects reality.
#[test]
fn move_file_is_atomic_or_noop() {
    let mut fs = FsState::new();
    assert!(fs.create_new("/r/inbox/a.pdf".to_string(), 42));

    // Simulated failure during the move: rolled back, exactly one copy.
    let out = move_file(
        &mut fs,
        &"/r/inbox/a.pdf".to_string(),
        &"/r/transit/a.pdf".to_string(),
        true,
    );
    assert_eq!(out, MoveOutcome::Interrupted);
    assert!(fs.exists_file(&"/r/inbox/a.pdf".to_string()));
    assert!(!fs.exists_file(&"/r/transit/a.pdf".to_string()));

    // Successful move: exactly one copy, at the destination.
    let out = move_file(
        &mut fs,
        &"/r/inbox/a.pdf".to_string(),
        &"/r/transit/a.pdf".to_string(),
        false,
    );
    assert_eq!(out, MoveOutcome::Moved);
    assert!(!fs.exists_file(&"/r/inbox/a.pdf".to_string()));
    assert_eq!(fs.content_of(&"/r/transit/a.pdf".to_string()), Some(42));

    // Occupied destination: refused, nothing touched.
    assert!(fs.create_new("/r/processed/a.pdf".to_string(), 7));
    let out = move_file(
        &mut fs,
        &"/r/transit/a.pdf".to_string(),
        &"/r/processed/a.pdf".to_string(),
        false,
    );
    assert_eq!(out, MoveOutcome::DestinationExists);
    assert_eq!(fs.content_of(&"/r/transit/a.pdf".to_string()), Some(42));
    assert_eq!(fs.content_of(&"/r/processed/a.pdf".to_string()), Some(7));

    // Vanished source: rolled back, no copy appears.
    let out = move_file(
        &mut fs,
        &"/r/inbox/gone.pdf".to_string(),
        &"/r/transit/gone.pdf".to_string(),
        false,
    );
    assert_eq!(out, MoveOutcome::SourceMissing);
    assert!(!fs.exists_file(&"/r/transit/gone.pdf".to_string()));
}

#[test]
fn rename_updates_location_only_on_success() {
    let mut fs = FsState::new();
    assert!(fs.create_new("/r/inbox/a.pdf".to_string(), 1));
    let mut file = FileObject::new(plain_paths("/r"), "/r/inbox/a.pdf".to_string(), &fs).unwrap();

    // A failed (interrupted) move leaves the recorded location untouched.
    let err = file.rename(&mut fs, Location::Transit, true).unwrap_err();
    assert!(matches!(err, Error::IoError(_)));
    assert_eq!(file.current_location, Location::Inbox);
    assert!(fs.exists_file(&"/r/inbox/a.pdf".to_string()));

    // A successful move updates it.
    file.rename(&mut fs, Location::Transit, false).unwrap();
    assert_eq!(file.current_location, Location::Transit);
    assert_eq!(file.get_path(), "/r/transit/a.pdf");
    assert_eq!(fs.content_of(&"/r/transit/a.pdf".to_string()), Some(1));
    assert!(!fs.exists_file(&"/r/inbox/a.pdf".to_string()));
}

// Reserving a name never overwrites an existing file, and repeated
// reservations never hand out the same path twice.
#[test]
fn make_unique_path_never_reuses_names() {
    let mut fs = FsState::new();
    let dir = "/r/outbox/invoice/acme".to_string();
    let name = "2024-01-01-foo.pdf".to_string();

    let first = make_unique_path(&mut fs, &dir, &name).unwrap();
    assert_eq!(first, "/r/outbox/invoice/acme/2024-01-01-foo.pdf");
    assert!(fs.exists_file(&first));

    let second = make_unique_path(&mut fs, &dir, &name).unwrap();
    assert_ne!(second, first);
    assert!(second.starts_with("/r/outbox/invoice/acme/2024-01-01-foo-"));
    assert!(second.ends_with(".pdf"));
    // The disambiguating infix is a 36-character identifier.
    assert_eq!(second.len(), first.len() - ".pdf".len() + 1 + 36 + ".pdf".len());
    assert!(fs.exists_file(&second));

    let third = make_unique_path(&mut fs, &dir, &name).unwrap();
    assert_ne!(third, first);
    assert_ne!(third, second);
}

#[test]
fn make_path_with_filename_reserves_under_location() {
    let mut fs = FsState::new();
    let paths = plain_paths("/r");
    let p = paths
        .make_path_with_filename(&mut fs, Location::Outbox, "a.pdf".to_string())
        .unwrap();
    assert_eq!(p, "/r/outbox/a.pdf");
    assert!(fs.exists_file(&p));
    let q = paths
        .make_path_with_filename(&mut fs, Location::Outbox, "a.pdf".to_string())
        .unwrap();
    assert_ne!(q, p);
}

#[test]
fn location_listing_and_names() {
    assert_eq!(
        Location::all(),
        vec![
            Location::Inbox,
            Location::Outbox,
            Location::Transit,
            Location::Processed,
            Location::Error
        ]
    );
    assert_eq!(Location::Processed.lowercase_name(), "processed");
    assert_eq!(
        mrdocument::file::Location::Error.lowercase_name(),
        "error"
    );
}

#[test]
fn page_images_with_equal_pages_and_empty_input() {
    assert_eq!(collect_page_images(&vec![]), Vec::<String>::new());
    let names = vec!["image-01.png".to_string(), "image-1.png".to_string()];
    let sorted = collect_page_images(&names);
    assert_eq!(sorted.len(), 2);
    assert!(sorted.contains(&"image-01.png".to_string()));
    assert!(sorted.contains(&"image-1.png".to_string()));
}

#[test]
fn filename_builders_shared_with_the_mirror() {
    let name = "2024-01-01-foo.pdf.bak".to_string();
    assert_eq!(
        mrdocument::util::normalize_filename(&name),
        "2024-01-01-foo.pdf"
    );
    let salted = mrdocument::util::fresh_disambiguated_filename(&name);
    assert!(salted.starts_with("2024-01-01-foo-"));
    assert!(salted.ends_with(".pdf"));
    assert_eq!(salted.len(), "2024-01-01-foo-.pdf".len() + 36);
}

#[test]
fn make_unique_path_cuts_extra_segments() {
    let mut fs = FsState::new();
    let p = make_unique_path(&mut fs, &"/d".to_string(), &"a.b.c".to_string()).unwrap();
    assert_eq!(p, "/d/a.b");
}

#[test]
fn document_naming_scheme() {
    let dd = doc();
    assert_eq!(dd.make_filename("pdf"), "2024-03-01-march-bill.pdf");
    assert_eq!(dd.make_filename("summary"), "2024-03-01-march-bill.summary");
    assert_eq!(dd.make_path(), "invoice/acme");
}

// The class/source directory is lower-cased; this fails if the
// case-folding step handed its input back unchanged.
#[test]
fn document_path_lowercases() {
    let mut dd = doc();
    dd.class = "Invoice".to_string();
    dd.source = "ACME".to_string();
    assert_eq!(dd.make_path(), "invoice/acme");
}

#[test]
fn file_info_accepts_only_pdf() {
    assert_eq!(
        FileInfo::new("/in/scan.pdf".to_string()).unwrap(),
        FileInfo::PDF("/in/scan.pdf".to_string())
    );
    assert_eq!(
        FileInfo::new("/in/scan.PDF".to_string()).unwrap(),
        FileInfo::PDF("/in/scan.PDF".to_string())
    );
    assert_eq!(
        FileInfo::new("/in/scan.txt".to_string()).unwrap_err(),
        Error::UnsupportedFileTypeError("/in/scan.txt".to_string())
    );
    assert_eq!(
        FileInfo::new("/in/noext".to_string()).unwrap_err(),
        Error::UnsupportedFileTypeError("/in/noext".to_string())
    );
    assert_eq!(
        FileInfo::new("/in/.hidden".to_string()).unwrap_err(),
        Error::UnsupportedFileTypeError("/in/.hidden".to_string())
    );
    assert_eq!(
        FileInfo::new(String::new()).unwrap_err(),
        Error::UnsupportedFileTypeError(String::new())
    );
}

#[test]
fn file_info_mime_types() {
    let f = FileInfo::new("/in/scan.pdf".to_string()).unwrap();
    assert_eq!(f.mime_type(), "image/png");
    assert_eq!(FileInfo::JPEG("x.jpg".to_string()).mime_type(), "image/jpeg");
}

#[test]
fn page_numbers_parse_only_page_files() {
    assert_eq!(page_number("image-1.png"), Some(1));
    assert_eq!(page_number("image-0042.png"), Some(42));
    assert_eq!(page_number("image-+7.png"), Some(7));
    assert_eq!(page_number("image-.png"), None);
    assert_eq!(page_number("image-12.jpg"), None);
    assert_eq!(page_number("picture-12.png"), None);
    assert_eq!(page_number("image-1x.png"), None);
    assert_eq!(page_number("image-99999999999.png"), None);
}

#[test]
fn page_images_sorted_by_page() {
    let names = vec![
        "image-10.png".to_string(),
        "readme.txt".to_string(),
        "image-2.png".to_string(),
        "image-1.png".to_string(),
        "image-x.png".to_string(),
    ];
    let sorted = collect_page_images(&names);
    assert_eq!(
        sorted,
        vec![
            "image-1.png".to_string(),
            "image-2.png".to_string(),
            "image-10.png".to_string()
        ]
    );
}

#[test]
fn metadata_entry_lines() {
    let entry = make_metdata_entry("Keywords".to_string(), "a, b".to_string());
    assert_eq!(
        entry,
        vec![
            "InfoBegin".to_string(),
            "InfoKey: Keywords".to_string(),
            "InfoValue: a, b".to_string()
        ]
    );
}

#[test]
fn metadata_text_appends_keywords() {
    let out = updated_metadata(
        "DUMP".to_string(),
        &vec!["key1".to_string(), "key2".to_string(), "foo".to_string()],
    );
    assert_eq!(out, "DUMPInfoBegin\nInfoKey: Keywords\nInfoValue: key1, key2, foo");
}

#[test]
fn join_strings_with_separator() {
    assert_eq!(join_strings(&vec![], ", "), "");
    assert_eq!(join_strings(&vec!["a".to_string()], ", "), "a");
    assert_eq!(
        join_strings(&vec!["a".to_string(), "b".to_string()], ", "),
        "a, b"
    );
}

#[test]
fn profile_with_path_moves_root() {
    let profile = Profile::new_default("/home/u").with_path("/data".to_string());
    assert_eq!(profile.paths.path, "/data");
    assert_eq!(profile.name, "default");
    assert_eq!(profile.chatgpt.model, "gpt-4o");
    assert_eq!(profile.chatgpt.temperature, 100);
    assert!(!profile.polling);
    assert_eq!(profile.config_file_name(), "default.yaml");
    assert_eq!(mrdocument::profile::default_temperature(), 100);
}

#[test]
fn profile_dir_shape() {
    if let Ok(dir) = Profile::get_profile_dir() {
        assert!(dir.ends_with("/MrDocument/profile"));
    }
    if let Ok(dir) = Profile::get_config_dir() {
        assert!(dir.ends_with("/MrDocument"));
    }
}

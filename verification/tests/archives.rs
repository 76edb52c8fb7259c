use archive::gzip::gzip_bytes;
use archive::gzip::gzip_fed;
use archive::gzip::gzip_finished;
use archive::gzip::gzip_started;
use archive::source::Entry;
use archive::source::Item;
use archive::source::Metadata;
use archive::source::Node;
use archive::source::SourceDir;
use archive::tarball::tar;
use archive::tarball::tar_appended;
use archive::tarball::tar_dir;
use archive::tarball::tar_finished;
use archive::zipfile::clamp_time;
use archive::zipfile::zip_appended;
use archive::zipfile::zip_dir;
use archive::zipfile::zip_finished;
use archive::ArchiveMethod;
use archive::ContextualError;
use std::io::Read;

const CONTENT: &[u8] = b"Test Hello Yes";

fn meta(mode: u32) -> Metadata {
    Metadata { mode, modified: 1_600_000_000, uid: 1000, gid: 100 }
}

fn file(name: &str, data: &[u8]) -> Entry {
    Entry { name: name.to_string(), node: Node::File { meta: meta(0o644), data: data.to_vec() } }
}

fn dir(name: &str, children: Vec<Entry>) -> Entry {
    Entry { name: name.to_string(), node: Node::Dir { meta: meta(0o755), children } }
}

fn link(name: &str, target: &str, referent: Option<Node>) -> Entry {
    Entry {
        name: name.to_string(),
        node: Node::Symlink {
            meta: meta(0o777),
            target: target.to_string(),
            referent: referent.map(Box::new),
        },
    }
}

fn source(path: &[u8], children: Vec<Entry>) -> SourceDir {
    SourceDir { path: path.to_vec(), meta: meta(0o755), children }
}

fn three_files() -> SourceDir {
    source(b"a/b/c", vec![file("e", CONTENT), file("f", CONTENT), file("g", CONTENT)])
}

fn nested() -> SourceDir {
    source(
        b"/srv/share/",
        vec![
            file("readme", b"top"),
            dir("docs", vec![file("one", b"1"), dir("deep", vec![file("two", b"22")])]),
            dir("empty", vec![]),
        ],
    )
}

/// The entries of a TAR archive: path, type byte and contents.
fn read_tar(bytes: &[u8]) -> Vec<(String, u8, Vec<u8>)> {
    let mut reader = tar::Archive::new(bytes);
    let mut found = Vec::new();
    for entry in reader.entries().unwrap() {
        let mut entry = entry.unwrap();
        let path = entry.path().unwrap().to_str().unwrap().to_string();
        let kind = entry.header().entry_type().as_byte();
        let mut data = Vec::new();
        entry.read_to_end(&mut data).unwrap();
        found.push((path, kind, data));
    }
    found
}

/// The entries of a ZIP archive: name and contents.
fn read_zip(bytes: &[u8]) -> Vec<(String, Vec<u8>)> {
    let mut reader = zip::ZipArchive::new(std::io::Cursor::new(bytes.to_vec())).unwrap();
    let mut found = Vec::new();
    for i in 0..reader.len() {
        let mut member = reader.by_index(i).unwrap();
        let name = member.name().unwrap().to_string();
        let mut data = Vec::new();
        member.read_to_end(&mut data).unwrap();
        found.push((name, data));
    }
    found
}

fn gunzip(bytes: &[u8]) -> Vec<u8> {
    let mut decoder = libflate::gzip::Decoder::new(bytes).unwrap();
    let mut data = Vec::new();
    decoder.read_to_end(&mut data).unwrap();
    data
}

fn make(method: ArchiveMethod, dir: &SourceDir, skip_symlinks: bool) -> Vec<u8> {
    let mut out = Vec::new();
    method.create_archive(dir, skip_symlinks, &mut out).unwrap();
    out
}

#[test]
fn tar_of_three_files_is_rooted_at_the_directory_name() {
    let entries = read_tar(&make(ArchiveMethod::Tar, &three_files(), true));
    assert_eq!(
        entries,
        vec![
            ("c".to_string(), b'5', vec![]),
            ("c/e".to_string(), b'0', CONTENT.to_vec()),
            ("c/f".to_string(), b'0', CONTENT.to_vec()),
            ("c/g".to_string(), b'0', CONTENT.to_vec()),
        ]
    );
    assert_eq!(CONTENT.len(), 14);
}

#[test]
fn tar_gz_of_three_files_decompresses_to_the_tar() {
    let plain = make(ArchiveMethod::Tar, &three_files(), true);
    let packed = make(ArchiveMethod::TarGz, &three_files(), true);
    assert_ne!(packed, plain);
    assert_eq!(&packed[..2], &[0x1f, 0x8b]);
    assert_eq!(gunzip(&packed), plain);
    let names: Vec<String> = read_tar(&gunzip(&packed)).into_iter().map(|e| e.0).collect();
    assert_eq!(names, vec!["c", "c/e", "c/f", "c/g"]);
}

#[test]
fn zip_of_three_files_is_rooted_at_the_directory_name() {
    let entries = read_zip(&make(ArchiveMethod::Zip, &three_files(), true));
    assert_eq!(
        entries,
        vec![
            ("c/e".to_string(), CONTENT.to_vec()),
            ("c/f".to_string(), CONTENT.to_vec()),
            ("c/g".to_string(), CONTENT.to_vec()),
        ]
    );
}

#[test]
fn tar_ends_with_two_blocks_of_zeros() {
    let bytes = make(ArchiveMethod::Tar, &source(b"empty", vec![]), true);
    assert_eq!(bytes.len(), 512 + 1024);
    assert!(bytes[512..].iter().all(|b| *b == 0));
    assert_eq!(&bytes[..5], b"empty");
}

#[test]
fn tar_of_a_nested_tree_keeps_relative_paths() {
    let entries = read_tar(&make(ArchiveMethod::Tar, &nested(), true));
    let listed: Vec<(String, Vec<u8>)> = entries.into_iter().map(|e| (e.0, e.2)).collect();
    assert_eq!(
        listed,
        vec![
            ("share".to_string(), vec![]),
            ("share/readme".to_string(), b"top".to_vec()),
            ("share/docs".to_string(), vec![]),
            ("share/docs/one".to_string(), b"1".to_vec()),
            ("share/docs/deep".to_string(), vec![]),
            ("share/docs/deep/two".to_string(), b"22".to_vec()),
            ("share/empty".to_string(), vec![]),
        ]
    );
}

#[test]
fn zip_of_a_nested_tree_holds_its_files() {
    let entries = read_zip(&make(ArchiveMethod::Zip, &nested(), false));
    assert_eq!(
        entries,
        vec![
            ("share/readme".to_string(), b"top".to_vec()),
            ("share/docs/one".to_string(), b"1".to_vec()),
            ("share/docs/deep/two".to_string(), b"22".to_vec()),
        ]
    );
}

#[test]
fn tar_gz_of_a_nested_tree_decompresses_to_the_tar() {
    for skip in [true, false] {
        let plain = make(ArchiveMethod::Tar, &nested(), skip);
        let packed = make(ArchiveMethod::TarGz, &nested(), skip);
        assert_eq!(gunzip(&packed), plain);
    }
}

#[test]
fn tar_records_mode_time_and_owner() {
    let bytes = make(ArchiveMethod::Tar, &three_files(), true);
    let mut reader = tar::Archive::new(&bytes[..]);
    let modes: Vec<(u32, u64, u64, u64, u64)> = reader
        .entries()
        .unwrap()
        .map(|e| {
            let e = e.unwrap();
            let h = e.header();
            (
                h.mode().unwrap(),
                h.mtime().unwrap(),
                h.size().unwrap(),
                h.uid().unwrap(),
                h.gid().unwrap(),
            )
        })
        .collect();
    assert_eq!(
        modes,
        vec![
            (0o755, 1_600_000_000, 0, 1000, 100),
            (0o644, 1_600_000_000, 14, 1000, 100),
            (0o644, 1_600_000_000, 14, 1000, 100),
            (0o644, 1_600_000_000, 14, 1000, 100),
        ]
    );
}

#[test]
fn the_archive_follows_what_the_sink_held() {
    for method in [ArchiveMethod::Tar, ArchiveMethod::TarGz, ArchiveMethod::Zip] {
        let mut out = vec![1u8, 2, 3];
        method.create_archive(&three_files(), true, &mut out).unwrap();
        assert_eq!(&out[..3], &[1, 2, 3]);
        let mut alone = Vec::new();
        method.create_archive(&three_files(), true, &mut alone).unwrap();
        assert_eq!(out.len(), 3 + alone.len());
    }
}

#[test]
fn tar_and_zip_are_functions_of_the_tree() {
    for method in [ArchiveMethod::Tar, ArchiveMethod::Zip] {
        assert_eq!(make(method, &nested(), true), make(method, &nested(), true));
    }
}

#[test]
fn a_path_without_a_final_component_writes_nothing() {
    for method in [ArchiveMethod::Tar, ArchiveMethod::TarGz, ArchiveMethod::Zip] {
        for path in [&b"/"[..], b"", b"..", b"a/b/..", b"."] {
            let mut out = vec![7u8];
            let dir = source(path, vec![file("e", CONTENT)]);
            match method.create_archive(&dir, true, &mut out) {
                Err(ContextualError::InvalidPathError(m)) => {
                    assert_eq!(m, "Directory name terminates in \"..\"")
                }
                other => panic!("unexpected: {:?}", other),
            }
            assert_eq!(out, vec![7u8]);
        }
    }
}

#[test]
fn a_directory_name_that_is_not_text_writes_nothing() {
    for method in [ArchiveMethod::Tar, ArchiveMethod::TarGz, ArchiveMethod::Zip] {
        let mut out = Vec::new();
        let dir = source(b"a/\xc3\x28", vec![file("e", CONTENT)]);
        match method.create_archive(&dir, false, &mut out) {
            Err(ContextualError::InvalidPathError(m)) => {
                assert_eq!(m, "Directory name contains invalid UTF-8 characters")
            }
            other => panic!("unexpected: {:?}", other),
        }
        assert!(out.is_empty());
    }
}

fn with_links() -> SourceDir {
    source(
        b"top",
        vec![
            file("real", b"data"),
            link("to_file", "real", Some(Node::File { meta: meta(0o600), data: b"data".to_vec() })),
            link(
                "to_dir",
                "../elsewhere",
                Some(Node::Dir { meta: meta(0o700), children: vec![file("inner", b"in")] }),
            ),
            link("dangling", "nowhere", None),
        ],
    )
}

#[test]
fn unfollowed_symlinks_do_not_fail_any_method() {
    for method in [ArchiveMethod::Tar, ArchiveMethod::TarGz, ArchiveMethod::Zip] {
        let mut out = Vec::new();
        assert!(method.create_archive(&with_links(), true, &mut out).is_ok());
        assert!(!out.is_empty());
    }
}

#[test]
fn tar_saves_unfollowed_symlinks_as_links() {
    let bytes = make(ArchiveMethod::Tar, &with_links(), true);
    let listed: Vec<(String, u8)> = read_tar(&bytes).into_iter().map(|e| (e.0, e.1)).collect();
    assert_eq!(
        listed,
        vec![
            ("top".to_string(), b'5'),
            ("top/real".to_string(), b'0'),
            ("top/to_file".to_string(), b'2'),
            ("top/to_dir".to_string(), b'2'),
            ("top/dangling".to_string(), b'2'),
        ]
    );
    let mut reader = tar::Archive::new(&bytes[..]);
    let targets: Vec<Option<String>> = reader
        .entries()
        .unwrap()
        .map(|e| e.unwrap().link_name().unwrap().map(|p| p.to_str().unwrap().to_string()))
        .collect();
    assert_eq!(
        targets,
        vec![
            None,
            None,
            Some("real".to_string()),
            Some("../elsewhere".to_string()),
            Some("nowhere".to_string()),
        ]
    );
}

#[test]
fn zip_leaves_unfollowed_symlinks_out() {
    let entries = read_zip(&make(ArchiveMethod::Zip, &with_links(), true));
    assert_eq!(entries, vec![("top/real".to_string(), b"data".to_vec())]);
}

fn with_resolved_links() -> SourceDir {
    let mut dir = with_links();
    dir.children.pop();
    dir
}

#[test]
fn tar_follows_symlinks_to_what_they_lead_to() {
    let entries = read_tar(&make(ArchiveMethod::Tar, &with_resolved_links(), false));
    assert_eq!(
        entries,
        vec![
            ("top".to_string(), b'5', vec![]),
            ("top/real".to_string(), b'0', b"data".to_vec()),
            ("top/to_file".to_string(), b'0', b"data".to_vec()),
            ("top/to_dir".to_string(), b'5', vec![]),
            ("top/to_dir/inner".to_string(), b'0', b"in".to_vec()),
        ]
    );
}

#[test]
fn zip_follows_symlinks_to_what_they_lead_to() {
    let entries = read_zip(&make(ArchiveMethod::Zip, &with_resolved_links(), false));
    assert_eq!(
        entries,
        vec![
            ("top/real".to_string(), b"data".to_vec()),
            ("top/to_file".to_string(), b"data".to_vec()),
            ("top/to_dir/inner".to_string(), b"in".to_vec()),
        ]
    );
}

#[test]
fn a_followed_symlink_that_leads_nowhere_fails_the_tarball() {
    for method in [ArchiveMethod::Tar, ArchiveMethod::TarGz] {
        let mut out = vec![9u8];
        match method.create_archive(&with_links(), false, &mut out) {
            Err(ContextualError::ArchiveCreationError(stage, cause)) => {
                assert_eq!(stage, "tarball");
                match *cause {
                    ContextualError::IoError(context, _) => {
                        assert_eq!(context, "Failed to append the content of top to the TAR archive")
                    }
                    other => panic!("unexpected: {:?}", other),
                }
            }
            other => panic!("unexpected: {:?}", other),
        }
        assert_eq!(out, vec![9u8]);
    }
}

#[test]
fn a_followed_symlink_that_leads_nowhere_fails_the_zip() {
    let mut out = Vec::new();
    match zip_dir(&with_links(), false, &mut out) {
        Err(ContextualError::ArchiveCreationError(stage, cause)) => {
            assert_eq!(stage, "ZIP");
            match *cause {
                ContextualError::IoError(context, _) => {
                    assert_eq!(context, "Failed to append the content of top to the ZIP archive")
                }
                other => panic!("unexpected: {:?}", other),
            }
        }
        other => panic!("unexpected: {:?}", other),
    }
    assert!(out.is_empty());
}

#[test]
fn an_entry_that_tar_refuses_is_an_io_error() {
    let dir = source(b"\xff/c", vec![file("..", CONTENT)]);
    let mut out = Vec::new();
    match tar(&dir, "c".to_string(), true, &mut out) {
        Err(ContextualError::IoError(context, cause)) => {
            assert_eq!(context, "Failed to append the content of file to the TAR archive");
            assert!(cause.to_string().contains(".."));
        }
        other => panic!("unexpected: {:?}", other),
    }
    assert!(out.is_empty());
}

#[test]
fn tar_saves_the_directory_under_the_given_name() {
    let mut out = Vec::new();
    tar(&three_files(), "renamed".to_string(), true, &mut out).unwrap();
    let names: Vec<String> = read_tar(&out).into_iter().map(|e| e.0).collect();
    assert_eq!(names, vec!["renamed", "renamed/e", "renamed/f", "renamed/g"]);
}

fn broken_pipe() -> std::io::Error {
    std::io::Error::new(std::io::ErrorKind::BrokenPipe, "gone")
}

#[test]
fn compression_failures_name_their_step() {
    match gzip_started(Err(broken_pipe())) {
        Err(ContextualError::IoError(context, e)) => {
            assert_eq!(context, "GZIP");
            assert_eq!(e.kind(), std::io::ErrorKind::BrokenPipe);
        }
        _ => panic!("the start did not fail"),
    }
    let mut out = vec![5u8];
    match gzip_finished(Err(broken_pipe()), &mut out) {
        Err(ContextualError::IoError(context, e)) => {
            assert_eq!(context, "GZIP finish");
            assert_eq!(e.kind(), std::io::ErrorKind::BrokenPipe);
        }
        other => panic!("unexpected: {:?}", other),
    }
    assert_eq!(out, vec![5u8]);
}

#[test]
fn a_failed_write_into_the_compression_fails_the_tarball() {
    match gzip_fed(Err(broken_pipe()), b"a/b/c") {
        Err(ContextualError::ArchiveCreationError(stage, cause)) => {
            assert_eq!(stage, "tarball");
            match *cause {
                ContextualError::IoError(context, e) => {
                    assert_eq!(context, "Failed to append the content of a/b/c to the TAR archive");
                    assert_eq!(e.kind(), std::io::ErrorKind::BrokenPipe);
                }
                other => panic!("unexpected: {:?}", other),
            }
        }
        other => panic!("unexpected: {:?}", other),
    }
    assert!(gzip_fed(Ok(()), b"a/b/c").is_ok());
}

#[test]
fn a_started_compression_is_handed_on() {
    let encoder = libflate::gzip::Encoder::new(Vec::new());
    assert!(gzip_started(encoder).is_ok());
}

#[test]
fn finished_streams_are_appended_to_the_sink() {
    let mut out = vec![1u8];
    assert!(gzip_finished(Ok(vec![2, 3]), &mut out).is_ok());
    assert!(tar_finished(Ok(vec![4]), &mut out).is_ok());
    assert!(zip_finished(Ok(vec![5, 6]), &mut out).is_ok());
    assert_eq!(out, vec![1u8, 2, 3, 4, 5, 6]);
}

#[test]
fn tar_failures_name_their_step() {
    match tar_appended(Err(broken_pipe()), b"dir") {
        Err(ContextualError::IoError(context, e)) => {
            assert_eq!(context, "Failed to append the content of dir to the TAR archive");
            assert_eq!(e.kind(), std::io::ErrorKind::BrokenPipe);
        }
        other => panic!("unexpected: {:?}", other),
    }
    assert!(tar_appended(Ok(()), b"dir").is_ok());
    let mut out = vec![5u8];
    match tar_finished(Err(broken_pipe()), &mut out) {
        Err(ContextualError::IoError(context, _)) => {
            assert_eq!(context, "Failed to finish writing the TAR archive")
        }
        other => panic!("unexpected: {:?}", other),
    }
    assert_eq!(out, vec![5u8]);
}

#[test]
fn zip_failures_name_their_stage() {
    match zip_appended(Err(broken_pipe()), b"\xff") {
        Err(ContextualError::ArchiveCreationError(stage, cause)) => {
            assert_eq!(stage, "ZIP");
            match *cause {
                ContextualError::IoError(context, e) => {
                    assert_eq!(context, "Failed to append the content of file to the ZIP archive");
                    assert_eq!(e.kind(), std::io::ErrorKind::BrokenPipe);
                }
                other => panic!("unexpected: {:?}", other),
            }
        }
        other => panic!("unexpected: {:?}", other),
    }
    assert!(zip_appended(Ok(()), b"dir").is_ok());
    let mut out = Vec::new();
    match zip_finished(Err(broken_pipe()), &mut out) {
        Err(ContextualError::ArchiveCreationError(stage, cause)) => {
            assert_eq!(stage, "ZIP finish");
            match *cause {
                ContextualError::IoError(context, _) => {
                    assert_eq!(context, "Failed to finish writing to the ZIP archive")
                }
                other => panic!("unexpected: {:?}", other),
            }
        }
        other => panic!("unexpected: {:?}", other),
    }
    assert!(out.is_empty());
}

#[test]
fn listing_names_every_entry_under_the_root() {
    let dir = nested();
    let items = dir.listing("share".to_string(), true).unwrap();
    let paths: Vec<String> = items
        .iter()
        .map(|item| match item {
            Item::File { path, .. } => path.clone(),
            Item::Dir { path, .. } => path.clone(),
            Item::Symlink { path, .. } => path.clone(),
        })
        .collect();
    assert_eq!(
        paths,
        vec![
            "share",
            "share/readme",
            "share/docs",
            "share/docs/one",
            "share/docs/deep",
            "share/docs/deep/two",
            "share/empty",
        ]
    );
    assert!(paths.iter().all(|p| p == "share" || p.starts_with("share/")));
}

#[test]
fn listing_fails_on_a_followed_link_that_leads_nowhere() {
    assert!(with_links().listing("top".to_string(), true).is_none());
    assert_eq!(with_links().listing("top".to_string(), false).unwrap().len(), 5);
}

#[test]
fn zip_times_stay_in_the_range_of_the_format() {
    assert_eq!(clamp_time(0), 315_532_800);
    assert_eq!(clamp_time(315_532_799), 315_532_800);
    assert_eq!(clamp_time(315_532_800), 315_532_800);
    assert_eq!(clamp_time(1_600_000_000), 1_600_000_000);
    assert_eq!(clamp_time(4_354_819_199), 4_354_819_199);
    assert_eq!(clamp_time(4_354_819_200), 4_354_819_199);
    assert_eq!(clamp_time(u64::MAX), 4_354_819_199);
}

#[test]
fn zip_holds_files_older_than_the_format() {
    let old = Entry {
        name: "old".to_string(),
        node: Node::File { meta: Metadata { mode: 0o644, modified: 0, uid: 0, gid: 0 }, data: b"x".to_vec() },
    };
    let entries = read_zip(&make(ArchiveMethod::Zip, &source(b"d", vec![old]), true));
    assert_eq!(entries, vec![("d/old".to_string(), b"x".to_vec())]);
}

#[test]
fn round_trip_of_files_through_every_method() {
    let dir = nested();
    let expected = vec![
        ("share/readme".to_string(), b"top".to_vec()),
        ("share/docs/one".to_string(), b"1".to_vec()),
        ("share/docs/deep/two".to_string(), b"22".to_vec()),
    ];
    let files = |bytes: &[u8]| -> Vec<(String, Vec<u8>)> {
        read_tar(bytes).into_iter().filter(|e| e.1 == b'0').map(|e| (e.0, e.2)).collect()
    };
    assert_eq!(files(&make(ArchiveMethod::Tar, &dir, true)), expected);
    assert_eq!(files(&gunzip(&make(ArchiveMethod::TarGz, &dir, true))), expected);
    assert_eq!(read_zip(&make(ArchiveMethod::Zip, &dir, true)), expected);
}

fn noise(len: usize) -> Vec<u8> {
    let mut state: u32 = 12345;
    (0..len)
        .map(|_| {
            state = state.wrapping_mul(1664525).wrapping_add(1013904223);
            (state >> 24) as u8
        })
        .collect()
}

#[test]
fn large_files_survive_every_method() {
    let data = noise(300_000);
    let text = vec![b'a'; 70_000];
    let dir = source(b"big", vec![file("noise", &data), file("text", &text), file("none", b"")]);
    let expected = vec![
        ("big/noise".to_string(), data.clone()),
        ("big/text".to_string(), text.clone()),
        ("big/none".to_string(), Vec::new()),
    ];
    let files = |bytes: &[u8]| -> Vec<(String, Vec<u8>)> {
        read_tar(bytes).into_iter().filter(|e| e.1 == b'0').map(|e| (e.0, e.2)).collect()
    };
    let plain = make(ArchiveMethod::Tar, &dir, true);
    assert_eq!(plain.len() % 512, 0);
    assert_eq!(files(&plain), expected);
    let packed = make(ArchiveMethod::TarGz, &dir, true);
    assert!(packed.len() < plain.len());
    assert_eq!(gunzip(&packed), plain);
    let zipped = make(ArchiveMethod::Zip, &dir, true);
    assert!(zipped.len() < plain.len());
    assert_eq!(read_zip(&zipped), expected);
}

#[test]
fn long_paths_survive_every_method() {
    let long = "n".repeat(90);
    let dir = source(b"root", vec![dir(&long, vec![dir(&long, vec![file(&long, b"deep")])])]);
    let path = format!("root/{}/{}/{}", long, long, long);
    let entries = read_tar(&make(ArchiveMethod::Tar, &dir, true));
    assert_eq!(entries.len(), 4);
    assert_eq!(entries[3], (path.clone(), b'0', b"deep".to_vec()));
    let entries = read_tar(&gunzip(&make(ArchiveMethod::TarGz, &dir, true)));
    assert_eq!(entries[3], (path.clone(), b'0', b"deep".to_vec()));
    let entries = read_zip(&make(ArchiveMethod::Zip, &dir, true));
    assert_eq!(entries, vec![(path, b"deep".to_vec())]);
}

#[test]
fn names_that_are_not_ascii_survive_every_method() {
    let dir = source("données".as_bytes(), vec![file("été", b"x")]);
    let entries = read_tar(&make(ArchiveMethod::Tar, &dir, true));
    assert_eq!(entries[0].0, "données");
    assert_eq!(entries[1], ("données/été".to_string(), b'0', b"x".to_vec()));
    let entries = read_zip(&make(ArchiveMethod::Zip, &dir, true));
    assert_eq!(entries, vec![("données/été".to_string(), b"x".to_vec())]);
}

#[test]
fn a_link_that_tar_refuses_fails_the_tarball() {
    let dir = source(b"top", vec![file("real", b"data"), link("empty", "", None)]);
    for method in [ArchiveMethod::Tar, ArchiveMethod::TarGz] {
        let mut out = vec![3u8];
        match method.create_archive(&dir, true, &mut out) {
            Err(ContextualError::ArchiveCreationError(stage, cause)) => {
                assert_eq!(stage, "tarball");
                match *cause {
                    ContextualError::IoError(context, _) => {
                        assert_eq!(context, "Failed to append the content of top to the TAR archive")
                    }
                    other => panic!("unexpected: {:?}", other),
                }
            }
            other => panic!("unexpected: {:?}", other),
        }
        assert_eq!(out, vec![3u8]);
    }
    assert!(ArchiveMethod::Zip.create_archive(&dir, true, &mut Vec::new()).is_ok());
    assert!(ArchiveMethod::Tar.create_archive(&dir, false, &mut Vec::new()).is_err());
}

#[test]
fn a_path_that_tar_refuses_fails_the_tarball() {
    for name in ["..", "nul\0byte"] {
        let dir = source(b"top", vec![file(name, b"data")]);
        let mut out = Vec::new();
        match tar_dir(&dir, true, &mut out) {
            Err(ContextualError::ArchiveCreationError(stage, _)) => assert_eq!(stage, "tarball"),
            other => panic!("unexpected: {:?}", other),
        }
        assert!(out.is_empty());
    }
}

#[test]
fn the_symlink_policy_changes_nothing_without_symlinks() {
    for method in [ArchiveMethod::Tar, ArchiveMethod::Zip] {
        assert_eq!(make(method, &nested(), true), make(method, &nested(), false));
    }
}

#[test]
fn what_lies_above_the_directory_does_not_enter_the_archive() {
    let here = source(b"p1/name", vec![file("e", CONTENT), dir("d", vec![file("f", b"x")])]);
    let there =
        source(b"/some/where/else/name/", vec![file("e", CONTENT), dir("d", vec![file("f", b"x")])]);
    for method in [ArchiveMethod::Tar, ArchiveMethod::Zip] {
        assert_eq!(make(method, &here, true), make(method, &there, true));
    }
    assert_eq!(
        gunzip(&make(ArchiveMethod::TarGz, &here, true)),
        gunzip(&make(ArchiveMethod::TarGz, &there, true))
    );
}

#[test]
fn gzip_of_bytes_is_always_made() {
    for data in [&b""[..], b"abc", &noise(100_000)[..]] {
        let mut out = vec![8u8, 9];
        assert!(gzip_bytes(b"dir", data, &mut out).is_ok());
        assert_eq!(&out[..2], &[8, 9]);
        assert_eq!(gunzip(&out[2..]), data);
    }
}

#[test]
fn every_method_archives_an_empty_directory() {
    for method in [ArchiveMethod::Tar, ArchiveMethod::TarGz, ArchiveMethod::Zip] {
        let mut out = Vec::new();
        assert!(method.create_archive(&source(b"empty", vec![]), false, &mut out).is_ok());
        assert!(!out.is_empty());
    }
    assert_eq!(read_zip(&make(ArchiveMethod::Zip, &source(b"empty", vec![]), true)), vec![]);
}

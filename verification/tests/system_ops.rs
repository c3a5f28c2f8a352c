use goose_hostops::platform::Platform;
use goose_hostops::system_ops::attachments::{
    inspect_attachment_path, inspect_attachment_paths, normalize_attachment_paths,
    normalized_path_key, read_image_attachment, MAX_IMAGE_ATTACHMENT_BYTES,
};
use goose_hostops::system_ops::directory::{
    build_file_tree_entry, get_home_dir, list_directory_entries, path_exists, write_file,
};
use goose_hostops::system_ops::exchange::{
    CanonicalPath, DirChild, FileStat, FsAction, FsReply, FsStep, Probe, WalkEntry,
};
use goose_hostops::system_ops::mentions::{
    list_files_for_mentions, mention_limit, normalize_roots, sort_mentions, MentionScan,
};
use goose_hostops::system_ops::types::FileTreeEntry;
use std::collections::BTreeMap;

enum Node {
    Dir,
    Blocked,
    File(Vec<u8>),
}

/// A tree of files in memory.
struct Tree {
    nodes: BTreeMap<String, Node>,
}

impl Tree {
    fn new() -> Tree {
        let mut tree = Tree { nodes: BTreeMap::new() };
        tree.dir("/t");
        tree
    }

    fn dir(&mut self, path: &str) {
        self.nodes.insert(path.to_string(), Node::Dir);
    }

    fn file(&mut self, path: &str, bytes: &[u8]) {
        self.nodes.insert(path.to_string(), Node::File(bytes.to_vec()));
    }

    fn stat(&self, path: &str) -> Option<FileStat> {
        self.nodes.get(path).map(|node| match node {
            Node::File(bytes) => FileStat { is_dir: false, is_file: true, len: bytes.len() as u64 },
            _ => FileStat { is_dir: true, is_file: false, len: 0 },
        })
    }

    fn probe(&self, path: &str) -> Probe {
        match self.stat(path) {
            Some(stat) => Probe::Found(stat),
            None => Probe::Missing,
        }
    }

    fn answer(&mut self, action: FsAction) -> FsReply {
        match action {
            FsAction::Exists { path } => FsReply::Exists(self.nodes.contains_key(&path)),
            FsAction::Probe { paths } => {
                FsReply::Probed(paths.iter().map(|p| self.probe(p)).collect())
            }
            FsAction::Stat { path } => FsReply::Stat(self.stat(&path).unwrap()),
            FsAction::ReadDir { path } => match self.nodes[&path] {
                Node::Blocked => FsReply::Failed("permission denied".to_string()),
                _ => {
                    let front = format!("{path}/");
                    let children = self
                        .nodes
                        .keys()
                        .filter_map(|p| p.strip_prefix(&front).map(|name| (name, p)))
                        .filter(|(name, _)| !name.contains('/'))
                        .map(|(name, p)| {
                            let is_dir = self.stat(p).map(|stat| stat.is_dir);
                            Some(DirChild { name: name.to_string(), path: p.to_string(), is_dir })
                        });
                    FsReply::Children(children.collect())
                }
            },
            FsAction::Canonicalize { paths } => {
                let known = |p: &String| self.nodes.contains_key(p);
                FsReply::Canonical(paths.into_iter().map(|p| Some(p).filter(known)).collect())
            }
            FsAction::CreateDirs { path } => {
                let mut at = String::new();
                for piece in path.split('/').skip(1) {
                    at = format!("{at}/{piece}");
                    self.nodes.entry(at.clone()).or_insert(Node::Dir);
                }
                FsReply::Finished
            }
            FsAction::Write { path, contents } => {
                self.file(&path, contents.as_bytes());
                FsReply::Finished
            }
            FsAction::ReadBytes { path } => match &self.nodes[&path] {
                Node::File(bytes) => FsReply::Bytes(bytes.clone()),
                _ => FsReply::Failed("is a directory".to_string()),
            },
            FsAction::Walk { .. } => unreachable!(),
        }
    }

    fn run<T>(&mut self, step: impl Fn(&Vec<FsReply>) -> FsStep<T>) -> Result<T, String> {
        let mut replies = Vec::new();
        loop {
            match step(&replies) {
                FsStep::Do(action) => {
                    let reply = self.answer(action);
                    replies.push(reply);
                }
                FsStep::Done(r) => return r,
            }
        }
    }
}

fn texts(list: &[&str]) -> Vec<String> {
    list.iter().map(|s| s.to_string()).collect()
}

#[test]
fn lists_directory_entries_with_expected_sorting_and_visibility() {
    let mut tree = Tree::new();
    for dir in [".git", ".github", "node_modules", "src"] {
        tree.dir(&format!("/t/{dir}"));
    }
    tree.file("/t/.env", b"");
    tree.file("/t/.gitignore", b"node_modules/\n");
    tree.file("/t/README.md", b"");
    tree.file("/t/alpha.ts", b"");

    let entries = tree.run(|replies| list_directory_entries("/t", replies)).expect("entries");

    let entry = |name: &str, kind: &str| FileTreeEntry {
        name: name.into(),
        path: format!("/t/{name}"),
        kind: kind.into(),
    };
    assert_eq!(
        entries,
        vec![
            entry(".github", "directory"),
            entry("node_modules", "directory"),
            entry("src", "directory"),
            entry(".env", "file"),
            entry(".gitignore", "file"),
            entry("alpha.ts", "file"),
            entry("README.md", "file"),
        ]
    );
}

#[test]
fn list_directory_entries_errors_for_missing_paths() {
    let mut tree = Tree::new();
    let error = tree
        .run(|replies| list_directory_entries("/t/missing", replies))
        .expect_err("missing dir should error");
    assert!(error.contains("Directory does not exist"));
    assert_eq!(error, "Directory does not exist: /t/missing");
}

#[test]
fn build_file_tree_entry_skips_missing_children() {
    let entry = build_file_tree_entry("/t/missing.ts".into(), "missing.ts".into(), None);
    assert_eq!(entry, None);
}

#[test]
fn list_directory_entries_errors_for_unreadable_directories() {
    let mut tree = Tree::new();
    tree.nodes.insert("/t/blocked".to_string(), Node::Blocked);
    let error = tree
        .run(|replies| list_directory_entries("/t/blocked", replies))
        .expect_err("unreadable dir should error");
    assert!(error.contains("Failed to read directory"));
    assert_eq!(error, "Failed to read directory '/t/blocked': permission denied");
}

#[test]
fn listing_a_file_or_an_odd_path_is_an_error() {
    let mut tree = Tree::new();
    tree.file("/t/f", b"");
    let error = tree.run(|replies| list_directory_entries("/t/f", replies)).unwrap_err();
    assert_eq!(error, "Path is not a directory: /t/f");
    let failed = vec![FsReply::Probed(vec![Probe::Failed("eek".to_string())])];
    assert_eq!(
        list_directory_entries("/t/f", &failed),
        FsStep::Done(Err("Failed to inspect '/t/f': eek".to_string()))
    );
}

#[test]
fn listings_leave_out_what_cannot_be_told() {
    let child = |name: &str, is_dir: Option<bool>| {
        Some(DirChild { name: name.to_string(), path: format!("/t/{name}"), is_dir })
    };
    let stat = FileStat { is_dir: true, is_file: false, len: 0 };
    let replies = vec![
        FsReply::Probed(vec![Probe::Found(stat)]),
        FsReply::Children(vec![
            child("b", Some(false)),
            None,
            child(".git", Some(true)),
            child("a", None),
            child("c", Some(true)),
        ]),
    ];
    match list_directory_entries("/t", &replies) {
        FsStep::Done(Ok(entries)) => {
            let names: Vec<&str> = entries.iter().map(|e| e.name.as_str()).collect();
            assert_eq!(names, vec!["c", "b"]);
        }
        other => panic!("{:?}", other),
    }
}

#[test]
fn inspects_file_and_directory_attachments() {
    let mut tree = Tree::new();
    tree.dir("/t/screenshots");
    tree.file("/t/report.txt", b"hello");

    let folder = "/t/screenshots";
    let file = "/t/report.txt";
    let inspected_dir = inspect_attachment_path(folder, &tree.probe(folder), Platform::Unix).expect("directory");
    let inspected_file = inspect_attachment_path(file, &tree.probe(file), Platform::Unix).expect("file");

    assert_eq!(inspected_dir.kind, "directory");
    assert_eq!(inspected_dir.name, "screenshots");
    assert_eq!(inspected_dir.mime_type, None);

    assert_eq!(inspected_file.kind, "file");
    assert_eq!(inspected_file.name, "report.txt");
    assert_eq!(inspected_file.mime_type.as_deref(), Some("text/plain"));
}

#[test]
fn attachment_failures_are_told() {
    assert_eq!(
        inspect_attachment_path("/x", &Probe::Missing, Platform::Unix).unwrap_err(),
        "Attachment path does not exist: /x"
    );
    assert_eq!(
        inspect_attachment_path("/x", &Probe::Failed("eek".to_string()), Platform::Unix).unwrap_err(),
        "Failed to inspect '/x': eek"
    );
    let root = FileStat { is_dir: true, is_file: false, len: 0 };
    assert_eq!(inspect_attachment_path("/", &Probe::Found(root), Platform::Unix).unwrap().name, "/");
}

#[test]
fn reads_image_attachment_payloads() {
    let mut tree = Tree::new();
    let text = "iVBORw0KGgoAAAANSUhEUgAAAAEAAAABCAQAAAC1HAwCAAAAC0lEQVR42mP8/x8AAusB9sU4nS0AAAAASUVORK5CYII=";
    let engine = &base64::engine::general_purpose::STANDARD;
    let png_bytes = base64::Engine::decode(engine, text).expect("decode png");
    tree.file("/t/pixel.png", &png_bytes);

    let payload =
        tree.run(|replies| read_image_attachment("/t/pixel.png", Platform::Unix, replies)).expect("payload");

    assert_eq!(payload.mime_type, "image/png");
    assert!(!payload.base64.is_empty());
    assert_eq!(payload.base64, text);
}

#[test]
fn dedupes_attachment_paths_using_platform_path_rules() {
    let go = |platform: Platform| {
        let list = texts(&["/tmp/Readme.md", "/tmp/README.md", "/tmp/Readme.md"]);
        let mut tree = Tree::new();
        tree.run(|replies| normalize_attachment_paths(&list, platform, replies)).unwrap()
    };
    for platform in [Platform::MacOs, Platform::Windows] {
        assert_eq!(go(platform), vec!["/tmp/Readme.md"]);
    }
    assert_eq!(go(Platform::Unix), vec!["/tmp/Readme.md", "/tmp/README.md"]);
}

#[test]
fn skips_invalid_attachment_paths_without_dropping_valid_ones() {
    let mut tree = Tree::new();
    tree.file("/t/report.txt", b"hello");

    let list = texts(&["/t/report.txt", "/t/missing.txt"]);
    let attachments = tree
        .run(|replies| inspect_attachment_paths(&list, Platform::Unix, replies))
        .unwrap();

    assert_eq!(attachments.len(), 1);
    assert_eq!(attachments[0].name, "report.txt");
    assert_eq!(attachments[0].kind, "file");
}

#[test]
fn dedupes_mention_roots_using_platform_path_rules() {
    let go = |platform: Platform| {
        let list = texts(&["/tmp/Workspace", "/tmp/workspace", "/tmp/Workspace"]);
        let mut tree = Tree::new();
        tree.run(|replies| normalize_roots(&list, platform, replies)).unwrap()
    };
    for platform in [Platform::MacOs, Platform::Windows] {
        assert_eq!(go(platform), vec!["/tmp/Workspace"]);
    }
    assert_eq!(go(Platform::Unix), vec!["/tmp/Workspace", "/tmp/workspace"]);
}

#[test]
fn rejects_oversized_image_attachment_payloads() {
    let mut tree = Tree::new();
    tree.file("/t/huge.png", &vec![0_u8; (MAX_IMAGE_ATTACHMENT_BYTES as usize) + 1]);

    let error =
        tree.run(|replies| read_image_attachment("/t/huge.png", Platform::Unix, replies)).expect_err("size limit");

    assert!(error.contains("exceeds the 20 MB limit"));
    assert_eq!(error, "Image attachment '/t/huge.png' exceeds the 20 MB limit");
}

#[test]
fn write_file_creates_missing_parent_directories() {
    let mut tree = Tree::new();
    let nested = "/t/a/b/c/out.json";

    tree.run(|replies| write_file(nested, "{\"ok\":true}", Platform::Unix, replies)).expect("write");

    match &tree.nodes[nested] {
        Node::File(bytes) => assert_eq!(bytes, b"{\"ok\":true}"),
        _ => panic!("no file"),
    }
    assert!(matches!(tree.nodes["/t/a/b/c"], Node::Dir));
}

#[test]
fn path_exists_reflects_disk_state() {
    let mut tree = Tree::new();
    tree.file("/t/hello.txt", b"hi");
    assert!(tree.run(|replies| path_exists("/t/hello.txt", replies)).unwrap());
    assert!(!tree.run(|replies| path_exists("/t/missing.txt", replies)).unwrap());
}

#[test]
fn writing_asks_for_no_more_than_it_needs() {
    let write = |path: &str| FsAction::Write { path: path.to_string(), contents: "c".to_string() };
    assert_eq!(write_file("plain", "c", Platform::Unix, &vec![]), FsStep::Do(write("plain")));
    assert_eq!(
        write_file("d/f", "c", Platform::Unix, &vec![]),
        FsStep::Do(FsAction::Exists { path: "d".to_string() })
    );
    assert_eq!(
        write_file("d/f", "c", Platform::Unix, &vec![FsReply::Exists(true)]),
        FsStep::Do(write("d/f"))
    );
    let failed = || FsReply::Failed("disk".to_string());
    assert_eq!(
        write_file("d/f", "c", Platform::Unix, &vec![FsReply::Exists(false), failed()]),
        FsStep::Done(Err("Failed to create 'd': disk".to_string()))
    );
    assert_eq!(
        write_file("d/f", "c", Platform::Unix, &vec![FsReply::Exists(true), failed()]),
        FsStep::Done(Err("Failed to write file 'd/f': disk".to_string()))
    );
}

#[test]
fn home_directory_is_told_or_missed() {
    assert_eq!(get_home_dir(Some("/home/u".to_string())), Ok("/home/u".to_string()));
    assert_eq!(get_home_dir(None), Err("Could not determine home directory".to_string()));
}

#[test]
fn keys_of_paths_prefer_the_resolved_path() {
    assert_eq!(normalized_path_key(Some("/Real"), "/Link", Platform::MacOs), "/Real");
    assert_eq!(normalized_path_key(None, "/LinK", Platform::Unix), "/LinK");
    assert_eq!(normalized_path_key(None, "/LinÄ", Platform::MacOs), "/linä");
}

#[test]
fn links_to_one_file_are_one_attachment() {
    let list = texts(&["  /a ", "", "/b", " \t", "/c"]);
    let replies = vec![FsReply::Canonical(vec![
        Some("/real".to_string()),
        Some("/real".to_string()),
        None,
    ])];
    assert_eq!(
        normalize_attachment_paths(&list, Platform::Unix, &replies),
        FsStep::Done(Ok(texts(&["/a", "/c"])))
    );
    assert_eq!(
        normalize_attachment_paths(&list, Platform::Unix, &vec![]),
        FsStep::Do(FsAction::Canonicalize { paths: texts(&["/a", "/b", "/c"]) })
    );
}

#[test]
fn missing_paths_drop_no_valid_ones() {
    for platform in [Platform::Unix, Platform::MacOs, Platform::Windows] {
        let mut tree = Tree::new();
        tree.file("/v/a", b"x");
        let list = texts(&["/V/A", "/v/a", "/V/a"]);
        let infos =
            tree.run(|replies| inspect_attachment_paths(&list, platform, replies)).unwrap();
        let names: Vec<&str> = infos.iter().map(|info| info.path.as_str()).collect();
        assert_eq!(names, vec!["/v/a"]);
        let roots = tree.run(|replies| normalize_roots(&list, platform, replies)).unwrap();
        assert!(roots.contains(&"/v/a".to_string()));
    }
    let replies = vec![FsReply::Canonical(vec![None, Some("/v/a".to_string()), None])];
    assert_eq!(
        normalize_attachment_paths(&texts(&["/V/A", "/link", "/v/A"]), Platform::MacOs, &replies),
        FsStep::Done(Ok(texts(&["/V/A", "/link"])))
    );
}

#[test]
fn missing_paths_go_behind_found_ones_with_their_text() {
    let normalize = |list: &[&str], found: &[Option<&str>], platform: Platform| {
        let found = found.iter().map(|path| path.map(str::to_string)).collect();
        let replies = vec![FsReply::Canonical(found)];
        normalize_attachment_paths(&texts(list), platform, &replies)
    };
    let left = |list: &[&str]| FsStep::Done(Ok(texts(list)));
    let pair = ["/private/tmp/foo", "/private/tmp/FOO"];
    let found = [Some("/private/tmp/foo"), None];
    assert_eq!(normalize(&pair, &found, Platform::MacOs), left(&["/private/tmp/foo"]));
    assert_eq!(normalize(&pair, &found, Platform::Unix), left(&pair));
    let odd = ["/link", "/\u{fffd}"];
    assert_eq!(normalize(&odd, &[Some("/\u{fffd}"), None], Platform::Unix), left(&["/link"]));
    let turned = ["/\u{fffd}", "/link"];
    assert_eq!(normalize(&turned, &[None, Some("/\u{fffd}")], Platform::Unix), left(&turned));
    let both = ["/a", "/link", "/a", "/other"];
    assert_eq!(
        normalize(&both, &[None, Some("/a"), None, Some("/a")], Platform::Unix),
        left(&["/a", "/link"])
    );
}

#[test]
fn normalizing_again_changes_nothing() {
    for platform in [Platform::Unix, Platform::MacOs, Platform::Windows] {
        let mut tree = Tree::new();
        tree.file("/t/a", b"x");
        tree.dir("/t/B");
        let list = texts(&["/T/A", " /t/a ", "/t/A", "", "/t/B", "/t/b", "/t/a", "/t/gone"]);
        let mut go = |list: &Vec<String>| {
            tree.run(|replies| normalize_attachment_paths(list, platform, replies)).unwrap()
        };
        let once = go(&list);
        assert_eq!(go(&once), once);
        assert!(once.contains(&"/t/a".to_string()) && once.contains(&"/t/B".to_string()));
    }
}

#[test]
fn attachments_are_inspected_one_by_one() {
    for platform in [Platform::Unix, Platform::MacOs] {
        let mut tree = Tree::new();
        tree.file("/t/b.png", b"x");
        tree.file("/t/a.txt", b"x");
        tree.dir("/t/dir");
        let mixed = texts(&[
            " /t/dir", "", "/T/B.PNG", "/t/b.png", "/t/none", " ", "/t/dir ", "/t/a.txt",
            "/t/b.png",
        ]);
        let alone = texts(&["/t/dir", "/t/b.png", "/t/a.txt"]);
        let mut inspect = |list: &Vec<String>| {
            tree.run(|replies| inspect_attachment_paths(list, platform, replies)).unwrap()
        };
        let infos = inspect(&mixed);
        assert_eq!(infos, inspect(&alone));
        let expected: Vec<_> = alone
            .iter()
            .map(|path| inspect_attachment_path(path, &tree.probe(path), platform).unwrap())
            .collect();
        assert_eq!(infos, expected);
    }
}

#[test]
fn images_are_read_as_base64() {
    let encode = |bytes: &[u8]| {
        let mut tree = Tree::new();
        tree.file("/t/i.png", bytes);
        let read = |replies: &Vec<FsReply>| {
            read_image_attachment("/t/i.png", Platform::Unix, replies)
        };
        tree.run(read).unwrap().base64
    };
    assert_eq!(encode(b""), "");
    assert_eq!(encode(b"f"), "Zg==");
    assert_eq!(encode(b"fo"), "Zm8=");
    assert_eq!(encode(b"foo"), "Zm9v");
    assert_eq!(encode(b"foob"), "Zm9vYg==");
    assert_eq!(encode(&[0xfb, 0xff, 0xfe]), "+//+");
    assert_eq!(
        encode(&[
            0x00, 0x10, 0x83, 0x10, 0x51, 0x87, 0x20, 0x92, 0x8b, 0x30, 0xd3, 0x8f, 0x41, 0x14,
            0x93, 0x51, 0x55, 0x97, 0x61, 0x96, 0x9b, 0x71, 0xd7, 0x9f, 0x82, 0x18, 0xa3, 0x92,
            0x59, 0xa7, 0xa2, 0x9a, 0xab, 0xb2, 0xdb, 0xaf, 0xc3, 0x1c, 0xb3, 0xd3, 0x5d, 0xb7,
            0xe3, 0x9e, 0xbb, 0xf3, 0xdf, 0xbf,
        ]),
        "ABCDEFGHIJKLMNOPQRSTUVWXYZabcdefghijklmnopqrstuvwxyz0123456789+/"
    );
    let engine = &base64::engine::general_purpose::STANDARD;
    for len in 0..40_usize {
        let bytes: Vec<u8> = (0..len).map(|i| (i * 73 + len * 31) as u8).collect();
        assert_eq!(base64::Engine::decode(engine, encode(&bytes)).unwrap(), bytes);
    }
}

#[test]
fn nothing_attached_asks_for_nothing() {
    let blank = texts(&["", "  "]);
    assert_eq!(
        inspect_attachment_paths(&blank, Platform::Unix, &vec![]),
        FsStep::Done(Ok(vec![]))
    );
    assert_eq!(
        list_files_for_mentions(&blank, None, Platform::Unix, &vec![]),
        FsStep::Done(Ok(vec![]))
    );
}

#[test]
fn images_have_to_be_images() {
    let mut tree = Tree::new();
    tree.file("/t/notes.txt", b"x");
    tree.file("/t/noext", b"x");
    tree.dir("/t/dir.png");
    let mut read = |path: &str| tree.run(|replies| read_image_attachment(path, Platform::Unix, replies));
    assert_eq!(read("/t/notes.txt").unwrap_err(), "Attachment is not an image: /t/notes.txt");
    assert_eq!(
        read("/t/noext").unwrap_err(),
        "Unable to determine image type for '/t/noext'"
    );
    assert_eq!(
        read("/t/dir.png").unwrap_err(),
        "Unable to determine image type for '/t/dir.png'"
    );
    assert_eq!(read("/t/gone.png").unwrap_err(), "Attachment path does not exist: /t/gone.png");
}

#[test]
fn image_failures_are_told() {
    let stat = FileStat { is_dir: false, is_file: true, len: MAX_IMAGE_ATTACHMENT_BYTES };
    let found = || FsReply::Probed(vec![Probe::Found(stat)]);
    let failed = || FsReply::Failed("eek".to_string());
    assert_eq!(
        read_image_attachment("/i.PNG", Platform::Unix, &vec![found(), failed()]),
        FsStep::Done(Err("Failed to inspect image '/i.PNG': eek".to_string()))
    );
    assert_eq!(
        read_image_attachment("/i.PNG", Platform::Unix, &vec![found(), FsReply::Stat(stat), failed()]),
        FsStep::Done(Err("Failed to read image '/i.PNG': eek".to_string()))
    );
}

#[test]
fn media_types_follow_the_extension() {
    let stat = Probe::Found(FileStat { is_dir: false, is_file: true, len: 1 });
    for path in ["/a/b.png", "x.JPG", ".png", "dir/.hidden.gif", "a.b.svg", "none", "odd.", "/"] {
        let info = inspect_attachment_path(path, &stat, Platform::Unix).unwrap();
        let expected = mime_guess::from_path(path).first_raw().map(str::to_string);
        assert_eq!(info.mime_type, expected, "{path}");
    }
}

#[test]
fn mention_limits_are_capped() {
    assert_eq!(mention_limit(None), 1500);
    assert_eq!(mention_limit(Some(0)), 0);
    assert_eq!(mention_limit(Some(1)), 1);
    assert_eq!(mention_limit(Some(77)), 77);
    assert_eq!(mention_limit(Some(5001)), 5000);
    assert_eq!(mention_limit(Some(usize::MAX)), 5000);
}

fn path_parts(path: &str) -> Vec<Vec<u8>> {
    path.split('/').map(|part| part.as_bytes().to_vec()).collect()
}

fn walked(path: &str, real: &str) -> WalkEntry {
    WalkEntry {
        path: path.to_string(),
        is_file: Some(true),
        canonical: Some(CanonicalPath { text: real.to_string(), parts: path_parts(real) }),
    }
}

#[test]
fn walks_leave_out_hidden_and_ignored_files() {
    let roots = texts(&["/w", "/v"]);
    let replies = vec![FsReply::Canonical(vec![None, None])];
    assert_eq!(
        list_files_for_mentions(&roots, Some(50), Platform::Unix, &replies),
        FsStep::Do(FsAction::Walk {
            roots: texts(&["/w", "/v"]),
            limit: 50,
            max_depth: 8,
            follow_links: false,
            hidden: true,
            git_ignore: true,
            git_global: true,
            git_exclude: true,
        })
    );
}

#[test]
fn mentions_stay_inside_and_are_sorted() {
    let odd = |is_file: Option<bool>| WalkEntry { is_file, ..walked("/w/odd", "/w/odd") };
    let entries = vec![
        walked("/w/b.ts", "/w/b.ts"),
        walked("/w/link", "/outside/secret"),
        walked("/w/near", "/workspace/near"),
        odd(Some(false)),
        odd(None),
        WalkEntry { canonical: None, ..walked("/w/gone", "") },
        walked("/w/A.ts", "/w/A.ts"),
        walked("/w/again.ts", "/w/b.ts"),
        walked("/w/a.ts", "/w/a.ts"),
        walked("/v/c", "/v/c"),
    ];
    let replies = vec![
        FsReply::Canonical(vec![None, None]),
        FsReply::Walked { roots: vec![Some(path_parts("/w")), None], entries },
    ];
    let roots = texts(&["/w", "/v"]);
    assert_eq!(
        list_files_for_mentions(&roots, None, Platform::Unix, &replies),
        FsStep::Done(Ok(texts(&["/w/A.ts", "/w/a.ts", "/w/b.ts"])))
    );
}

#[test]
fn no_more_files_are_listed_than_wanted() {
    let list = |wanted: usize| {
        let files = ["/w/c", "/w/a", "/w/b"];
        let replies = vec![
            FsReply::Canonical(vec![None]),
            FsReply::Walked {
                roots: vec![Some(path_parts("/w"))],
                entries: files.iter().map(|file| walked(file, file)).collect(),
            },
        ];
        list_files_for_mentions(&texts(&["/w"]), Some(wanted), Platform::Unix, &replies)
    };
    assert_eq!(list(0), FsStep::Done(Ok(vec![])));
    assert_eq!(list(1), FsStep::Done(Ok(texts(&["/w/c"]))));
    assert_eq!(list(2), FsStep::Done(Ok(texts(&["/w/a", "/w/c"]))));
    assert_eq!(list(9), FsStep::Done(Ok(texts(&["/w/a", "/w/b", "/w/c"]))));
}

#[test]
fn full_scans_take_no_more() {
    let mut scan = MentionScan::new(&vec![Some(path_parts("/w"))], 2);
    for name in ["/w/c", "/w/c", "/w/b"] {
        assert!(!scan.is_full());
        scan.offer(&walked(name, name));
    }
    assert!(scan.is_full());
    scan.offer(&walked("/w/a", "/w/a"));
    assert_eq!(scan.into_files(), texts(&["/w/c", "/w/b"]));
}

#[test]
fn mentions_sort_like_lower_case() {
    let files = texts(&["/Z", "/b", "/B", "/ä", "/a", "/Ä"]);
    let mut expected = files.clone();
    expected.sort_by_key(|path| path.to_lowercase());
    assert_eq!(sort_mentions(&files), expected);
}

use sg::auth::{get_access_token, get_endpoint, CodyCredentials};
use sg::cache::{CommitHashCache, ResolutionError};
use sg::editor::{auth_update, directory_entries, entry_link, file_lines, SecretString};
use sg::entry::{make_bufname, Directory, Entry, File, Position, ProtoEntry, Repo};
use sg::types::{completion_messages, CodySpeaker, PathInfo, Remote, OID, COMPLETION_PREAMBLE};
use sg::uri::{normalize_url, parse_position, parse_virtual_path, ParseError};

const HASH: &str = "deadbeefdeadbeefdeadbeefdeadbeefdeadbeef";

#[test]
fn uri_endpoint_blob_path() {
    let v = parse_virtual_path("https://example.test/acme/widgets/-/blob/src/main.c", "https://example.test").unwrap();
    assert_eq!(v.remote, "acme/widgets");
    assert_eq!(v.revision, "HEAD");
    assert_eq!(v.path.as_deref(), Some("src/main.c"));
    assert_eq!(v.position, None);
}

#[test]
fn uri_line_and_column() {
    let raw = format!("sg://acme/widgets@{HASH}/-/blob/src/main.c?L29:2");
    let v = parse_virtual_path(&raw, "https://sourcegraph.com").unwrap();
    assert_eq!(v.remote, "acme/widgets");
    assert_eq!(v.revision, HASH);
    assert_eq!(v.path.as_deref(), Some("src/main.c"));
    assert_eq!(v.position, Some(Position::LineCol { line: 29, col: 2 }));
}

#[test]
fn uri_range() {
    let v = parse_virtual_path("sg://acme/widgets@main/-/tree/lib?L137:21-137:54", "https://sourcegraph.com").unwrap();
    assert_eq!(v.revision, "main");
    assert_eq!(v.path.as_deref(), Some("lib"));
    assert_eq!(
        v.position,
        Some(Position::Range { start_line: 137, start_col: 21, end_line: 137, end_col: 54 })
    );
}

#[test]
fn uri_repo_form() {
    let v = parse_virtual_path("sg://acme/widgets", "https://sourcegraph.com").unwrap();
    assert_eq!(v.remote, "acme/widgets");
    assert_eq!(v.revision, "HEAD");
    assert!(v.path.is_none());
    let e = v.into_entry(HASH.to_string(), false);
    assert_eq!(e.typename(), "repo");
    assert!(e.position().is_none());
    match e {
        Entry::Repo(r) => {
            assert_eq!(r.remote.0, "acme/widgets");
            assert_eq!(r.oid.0, HASH);
        }
        _ => panic!("not a repo"),
    }
}

#[test]
fn uri_two_question_marks() {
    let r = parse_virtual_path("sg://acme/widgets/-/blob/a.c?L1?L2", "https://sourcegraph.com");
    assert_eq!(r.err(), Some(ParseError::TooManyQuestionMarks));
}

#[test]
fn uri_alias_and_lenient_position() {
    assert_eq!(normalize_url("sg://gh/acme/widgets", "https://sourcegraph.com"), "github.com/acme/widgets");
    assert_eq!(normalize_url("https://sourcegraph.com/acme", "https://sourcegraph.com"), "acme");
    let v = parse_virtual_path("sg://gh/acme/widgets@v1/-/blob/a.c?Lx:2", "https://sourcegraph.com").unwrap();
    assert_eq!(v.remote, "github.com/acme/widgets");
    assert_eq!(v.path.as_deref(), Some("a.c"));
    assert_eq!(v.position, None);
    assert_eq!(parse_position("L5"), Some(Position::Line { line: 5 }));
    assert_eq!(parse_position("5:3"), None);
    assert_eq!(parse_position("L5-6"), None);
}

#[test]
fn uri_into_file_and_directory() {
    let v = parse_virtual_path("sg://acme/widgets/-/blob/src/main.c?L3", "").unwrap();
    match v.clone().into_entry(HASH.to_string(), false) {
        Entry::File(f) => {
            assert_eq!(f.oid.0, HASH);
            assert_eq!(f.path, "src/main.c");
            assert_eq!(f.position, Some(Position::Line { line: 3 }));
        }
        _ => panic!("not a file"),
    }
    match v.into_entry(HASH.to_string(), true) {
        Entry::Directory(d) => assert_eq!(d.path, "src/main.c"),
        _ => panic!("not a directory"),
    }
}

#[test]
fn bufnames_are_shortened() {
    let remote = Remote("github.com".to_string());
    let oid = OID(HASH.to_string());
    assert_eq!(remote.shortened(), "gh");
    assert_eq!(Remote("gitlab.com".to_string()).shortened(), "gitlab.com");
    assert_eq!(oid.shortened(), "deadb");
    assert_eq!(OID("abc".to_string()).shortened(), "abc");
    assert_eq!(OID("a\u{e9}\u{e9}x".to_string()).shortened(), "a\u{e9}\u{e9}");
    assert_eq!(OID("\u{e9}\u{e9}".to_string()).shortened(), "\u{e9}\u{e9}");
    assert_eq!(OID("aaaa\u{e9}".to_string()).shortened(), "aaaa");
    assert_eq!(make_bufname(&remote, &oid, Some("x/y.rs")), "sg://gh@deadb/-/x/y.rs");
    assert_eq!(make_bufname(&remote, &oid, None), "sg://gh@deadb");
    let file = File { remote: remote.clone(), oid: oid.clone(), path: "a.rs".to_string(), position: None };
    assert_eq!(file.bufname(), "sg://gh@deadb/-/a.rs");
    let dir = Directory { remote: remote.clone(), oid: oid.clone(), path: "src".to_string() };
    assert_eq!(Entry::Directory(dir).bufname(), "sg://gh@deadb/-/src");
    assert_eq!(Repo { remote, oid }.bufname(), "sg://gh@deadb");
}

#[test]
fn entries_from_path_info() {
    let info = PathInfo { remote: "r".to_string(), oid: "0123456".to_string(), path: "d".to_string(), is_directory: true };
    let e = Entry::from_info(info.clone());
    assert_eq!(e.typename(), "directory");
    let p = ProtoEntry::from_entry(e);
    assert_eq!(p.kind, "directory");
    assert_eq!(p.bufname, "sg://r@01234/-/d");
    let file = PathInfo { is_directory: false, ..info.clone() };
    let listed = directory_entries(&vec![info, file]);
    assert_eq!(listed.len(), 2);
    assert_eq!(listed[0].kind, "directory");
    assert_eq!(listed[1].kind, "file");
    assert!(listed[1].data.position().is_none());
}

#[test]
fn cache_full_hash_needs_no_lookup() {
    let cache = CommitHashCache::new();
    assert_eq!(cache.known_commit("r", HASH), Some(HASH.to_string()));
    assert_eq!(cache.known_commit("r", "main"), None);
}

#[test]
fn cache_resolves_once() {
    let mut cache = CommitHashCache::new();
    let mut calls = 0;
    for _ in 0..2 {
        let commit = match cache.known_commit("acme/widgets", "main") {
            Some(c) => c,
            None => {
                calls += 1;
                cache.record_commit("acme/widgets", "main", Some(HASH.to_string())).unwrap()
            }
        };
        assert_eq!(commit, HASH);
    }
    assert_eq!(calls, 1);
    assert_eq!(cache.lookup("acme/widgets", "main"), Some(HASH.to_string()));
    assert_eq!(cache.lookup("acme/widgets", "dev"), None);
}

#[test]
fn cache_keeps_first_commit_and_ignores_failures() {
    let mut cache = CommitHashCache::new();
    assert_eq!(cache.record_commit("r", "main", None), Err(ResolutionError::LookupFailed));
    assert_eq!(cache.lookup("r", "main"), None);
    assert_eq!(cache.record_commit("r", "main", Some("a".repeat(40))), Ok("a".repeat(40)));
    assert_eq!(cache.record_commit("r", "main", Some("b".repeat(40))), Ok("a".repeat(40)));
    assert_eq!(cache.lookup("r", "main"), Some("a".repeat(40)));
}

#[test]
fn endpoint_and_token_selection() {
    let stored = CodyCredentials { endpoint: Some("https://sg.example//".to_string()), token: Some("SECRET-REDACTED".to_string()) };
    assert_eq!(get_endpoint(None, None), "https://sourcegraph.com");
    assert_eq!(get_endpoint(Some("https://a.test/".to_string()), Some(stored.clone())), "https://a.test");
    assert_eq!(get_endpoint(Some(String::new()), Some(stored.clone())), "https://sg.example");
    assert_eq!(get_access_token(Some("env".to_string()), Some(stored.clone())), Some("env".to_string()));
    assert_eq!(get_access_token(Some(String::new()), Some(stored)), Some("SECRET-REDACTED".to_string()));
    assert_eq!(get_access_token(None, None), None);
}

#[test]
fn links_for_each_entry_kind() {
    let file = Entry::File(File {
        remote: Remote("github.com/a/b".to_string()),
        oid: OID(HASH.to_string()),
        path: "src/x.rs".to_string(),
        position: None,
    });
    assert_eq!(entry_link(&file, "https://sg.test", 4, 0, 4, 0), "https://sg.test/github.com/a/b/-/blob/src/x.rs?L4");
    assert_eq!(entry_link(&file, "https://sg.test", 4, 2, 4, 2), "https://sg.test/github.com/a/b/-/blob/src/x.rs?L4:2");
    assert_eq!(
        entry_link(&file, "https://sg.test", 4, 2, 10, 7),
        "https://sg.test/github.com/a/b/-/blob/src/x.rs?L4:2-10:7"
    );
    let dir = Entry::Directory(Directory { remote: Remote("r".to_string()), oid: OID("o".to_string()), path: "d".to_string() });
    assert_eq!(entry_link(&dir, "https://sg.test", 0, 0, 0, 0), "https://sg.test/r/-/tree/d");
    let repo = Entry::Repo(Repo { remote: Remote("r".to_string()), oid: OID("o".to_string()) });
    assert_eq!(entry_link(&repo, "https://sg.test", 0, 0, 0, 0), "https://sg.test/r@o");
}

#[test]
fn auth_updates() {
    let cleared = auth_update(Some("e".to_string()), None, true).unwrap();
    assert!(cleared.endpoint.is_none() && cleared.token.is_none());
    assert!(auth_update(None, None, false).is_none());
    let set = auth_update(None, Some(SecretString("t".to_string())), false).unwrap();
    assert_eq!(set.token.as_deref(), Some("t"));
    assert!(set.endpoint.is_none());
}

#[test]
fn completion_conversation() {
    let m = completion_messages("fn main".to_string(), None);
    assert_eq!(m.len(), 3);
    assert_eq!(m[0].speaker, CodySpeaker::Assistant);
    assert_eq!(m[0].text, COMPLETION_PREAMBLE);
    assert!(m[0].text.starts_with("I am Cody"));
    assert_eq!(m[1].speaker, CodySpeaker::Human);
    assert_eq!(m[1].text, "fn main");
    assert_eq!(m[2].text, "");
    let m = completion_messages("x".to_string(), Some("let".to_string()));
    assert_eq!(m[2].speaker, CodySpeaker::Assistant);
    assert_eq!(m[2].text, "let");
}

#[test]
fn file_lines_split_at_newlines() {
    assert_eq!(file_lines("a\nb\n"), vec!["a".to_string(), "b".to_string(), String::new()]);
    assert_eq!(file_lines(""), vec![String::new()]);
    assert_eq!(file_lines("\u{e9}t\u{e9}\n\u{fc}ber"), vec!["\u{e9}t\u{e9}".to_string(), "\u{fc}ber".to_string()]);
    assert_eq!(file_lines("\n\n"), vec![String::new(), String::new(), String::new()]);
}

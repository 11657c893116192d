use shell_remote::agent::fs::{
    candidate, create_dir, decode_b64, delete_path, encodable, encode_b64, format_mode, format_owner,
    is_path_under, is_same_path, list_dir, plan_delete, plan_write, read_chunk, read_file,
    rename_path,
    resolve_path, sort_entries, strip_leading_seps, write_file, write_file_bytes, Candidate,
    DeletePlan, ListOutcome, Lookup, RawEntry, ReadOutcome, RenameOutcome, WriteOutcome, WritePlan,
};
use shell_remote::agent::home_dir_from;
use shell_remote::agent::upload::{plan_upload, UploadAction};
use shell_remote::json::Json;
use shell_remote::relay::upload::{chunk_message, count_chunks, CHUNK_SIZE};

fn entry(name: &str, is_dir: bool) -> RawEntry {
    RawEntry {
        name: name.to_string(),
        path: format!("/r/{}", name),
        is_dir,
        is_symlink: false,
        size: 7,
        mode: Some(0o644),
        uid: 1000,
        gid: 100,
    }
}

fn is_refused(p: &DeletePlan) -> Option<String> {
    match p {
        DeletePlan::Refused(r) => r.error.clone(),
        _ => None,
    }
}

#[test]
fn test_strip_leading_seps_unix() {
    assert_eq!(strip_leading_seps("/sub/dir"), "sub/dir");
    assert_eq!(strip_leading_seps("sub/dir"), "sub/dir");
}

#[test]
fn test_strip_leading_seps_windows() {
    assert_eq!(strip_leading_seps("\\sub\\dir"), "sub\\dir");
    assert_eq!(strip_leading_seps("/\\mixed"), "mixed");
}

#[test]
fn test_home_dir_prefers_home() {
    assert_eq!(home_dir_from(Some("/home/u".to_string()), None), "/home/u");
}

#[test]
fn test_home_dir_falls_back_to_userprofile() {
    assert_eq!(home_dir_from(None, Some("C:\\Users\\u".to_string())), "C:\\Users\\u");
}

#[test]
fn test_home_dir_defaults_to_dot() {
    assert_eq!(home_dir_from(None, None), ".");
}

#[test]
fn test_resolve_path_valid() {
    assert!(matches!(candidate("test.txt", false), Candidate::UnderRoot(p) if p == "test.txt"));
    let resolved = resolve_path(true, &Lookup::Found("/root/test.txt".to_string()));
    assert_eq!(resolved, Some("/root/test.txt".to_string()));

    assert!(matches!(candidate("/subdir", false), Candidate::UnderRoot(p) if p == "subdir"));
    assert!(resolve_path(true, &Lookup::Found("/root/subdir".to_string())).is_some());
}

#[test]
fn test_resolve_path_traversal_resolves() {
    assert!(matches!(candidate("../outside", false), Candidate::UnderRoot(p) if p == "../outside"));
    let missing = Lookup::Missing { path: "/dir/outside".to_string(), parent_found: true };
    assert!(resolve_path(true, &missing).is_some());
}

#[test]
fn test_resolve_path_absolute_resolves() {
    assert!(matches!(candidate("/etc/passwd", true), Candidate::Absolute(p) if p == "/etc/passwd"));
    assert!(resolve_path(true, &Lookup::Found("/etc/passwd".to_string())).is_some());
}

#[test]
fn a_path_without_a_parent_or_a_root_is_not_resolved() {
    let missing = Lookup::Missing { path: "/a/b/c".to_string(), parent_found: false };
    assert_eq!(resolve_path(true, &missing), None);
    assert_eq!(resolve_path(false, &Lookup::Found("/a".to_string())), None);
}

#[test]
fn test_list_dir() {
    let outcome = ListOutcome::Listed {
        path: "/r".to_string(),
        entries: vec![entry("a.txt", false), entry("sub", true)],
    };
    let result = list_dir(".", outcome);
    assert!(result.success);
    let entries = result.entries.unwrap();
    assert_eq!(entries.len(), 2);
    assert_eq!(entries[0].name, "sub");
    assert_eq!(entries[0].entry_type, "directory");
    assert_eq!(entries[1].name, "a.txt");
    assert_eq!(entries[1].entry_type, "file");
}

#[test]
fn test_list_dir_parent_dir() {
    let outcome = ListOutcome::Listed { path: "/dir".to_string(), entries: Vec::new() };
    let result = list_dir("../", outcome);
    assert!(result.success);
    assert_eq!(result.path, Some("/dir".to_string()));
}

#[test]
fn listings_are_ordered_by_kind_and_name() {
    let raw = vec![
        entry("b", false),
        entry("Zed", true),
        entry("a", false),
        entry("B2", false),
        entry("alpha", true),
    ];
    let names: Vec<String> = sort_entries(&raw).into_iter().map(|e| e.name).collect();
    assert_eq!(names, vec!["Zed", "alpha", "B2", "a", "b"]);
}

#[test]
fn what_cannot_be_listed_is_told() {
    let r = list_dir("x", ListOutcome::Unresolved);
    assert!(!r.success);
    assert_eq!(r.error, Some("Invalid path".to_string()));
    let r = list_dir("x", ListOutcome::Failed("no".to_string()));
    assert_eq!(r.error, Some("Failed to list directory: no".to_string()));
    assert_eq!(r.path, Some("x".to_string()));
}

#[test]
fn test_read_file() {
    let content = "Hello, World!\nThis is a test.";
    let outcome = ReadOutcome::Data(content.as_bytes().to_vec());
    let result = read_file("test.txt", &outcome);
    assert!(result.success);
    let decoded = decode_b64(&result.content.unwrap()).unwrap();
    assert_eq!(String::from_utf8(decoded).unwrap(), content);
}

#[test]
fn test_read_file_not_found() {
    let result = read_file("nonexistent.txt", &ReadOutcome::Failed("not found".to_string()));
    assert!(!result.success);
    assert_eq!(result.error, Some("Failed to read file: not found".to_string()));
    assert_eq!(
        read_file("d", &ReadOutcome::NotAFile).error,
        Some("Path is not a file".to_string())
    );
    assert_eq!(read_file("d", &ReadOutcome::Unresolved).error, Some("Invalid path".to_string()));
}

#[test]
fn test_write_file() {
    let content_b64 = encode_b64(b"new file content");
    match plan_write("output.txt", true, &content_b64) {
        WritePlan::Write(data) => assert_eq!(data, b"new file content".to_vec()),
        WritePlan::Refused(_) => panic!("refused"),
    }
    let result = write_file("output.txt", &WriteOutcome::Written);
    assert!(result.success);
    assert_eq!(result.path, Some("output.txt".to_string()));
}

#[test]
fn test_write_file_parent_dir() {
    let content_b64 = encode_b64(b"escape");
    assert!(matches!(plan_write("../outside.txt", true, &content_b64), WritePlan::Write(_)));
}

#[test]
fn test_write_file_invalid_b64() {
    match plan_write("test.txt", true, "!!!invalid!!!") {
        WritePlan::Refused(r) => {
            assert!(!r.success);
            assert_eq!(r.error, Some("Invalid base64 content".to_string()));
        }
        WritePlan::Write(_) => panic!("taken"),
    }
}

#[test]
fn what_cannot_be_written_is_told() {
    match plan_write("t", false, "!!!") {
        WritePlan::Refused(r) => assert_eq!(r.error, Some("Invalid path".to_string())),
        WritePlan::Write(_) => panic!("taken"),
    }
    assert_eq!(
        write_file("t", &WriteOutcome::NoParent("e".to_string())).error,
        Some("Failed to create parent directory: e".to_string())
    );
    assert_eq!(
        write_file("t", &WriteOutcome::Failed("e".to_string())).error,
        Some("Failed to write file: e".to_string())
    );
    assert_eq!(
        write_file("t", &WriteOutcome::Unresolved).error,
        Some("Invalid path".to_string())
    );
}

#[test]
fn bytes_are_written() {
    assert!(write_file_bytes("t", true, None).success);
    assert_eq!(
        write_file_bytes("t", true, Some("full")).error,
        Some("Failed to write file: full".to_string())
    );
    assert_eq!(write_file_bytes("t", false, None).error, Some("Invalid path".to_string()));
}

#[test]
fn test_delete_file() {
    let plan = plan_delete("delete_me.txt", Some("/r/delete_me.txt"), "/r", "/r", false);
    assert!(matches!(plan, DeletePlan::RemoveFile));
    assert!(delete_path("delete_me.txt", None).success);
}

#[test]
fn test_delete_directory() {
    let plan = plan_delete("delete_me", Some("/r/delete_me"), "/r", "/r", true);
    assert!(matches!(plan, DeletePlan::RemoveDir));
}

#[test]
fn test_delete_parent_dir() {
    let plan = plan_delete("../", Some("/dir"), "/dir/root_dir", "/dir/root_dir", true);
    assert!(matches!(plan, DeletePlan::RemoveDir));
    assert!(delete_path("../", None).success);
}

#[test]
fn test_delete_root_rejected() {
    let plan = plan_delete("", Some("/r"), "/r", "/private/r", true);
    assert_eq!(is_refused(&plan), Some("Cannot delete root directory".to_string()));
    let plan = plan_delete("", Some("/private/r/"), "/r", "/private/r", true);
    assert!(is_refused(&plan).is_some());
    let plan = plan_delete("x", None, "/r", "/r", true);
    assert_eq!(is_refused(&plan), Some("Invalid path".to_string()));
    let r = delete_path("x", Some("busy"));
    assert_eq!(r.error, Some("Failed to delete: busy".to_string()));
}

#[test]
fn test_rename() {
    let r = rename_path("old.txt", "new.txt", &RenameOutcome::Renamed);
    assert!(r.success);
    assert_eq!(r.path, Some("old.txt".to_string()));
    assert_eq!(r.new_path, Some("new.txt".to_string()));
}

#[test]
fn test_rename_parent_dir() {
    let r = rename_path("file.txt", "../outside.txt", &RenameOutcome::Renamed);
    assert!(r.success);
}

#[test]
fn what_cannot_be_renamed_is_told() {
    let r = rename_path("a", "b", &RenameOutcome::NoSource);
    assert_eq!(r.error, Some("Source path resolution failed".to_string()));
    let r = rename_path("a", "b", &RenameOutcome::NoDestination);
    assert_eq!(r.error, Some("Destination path resolution failed".to_string()));
    let r = rename_path("a", "b", &RenameOutcome::Failed("e".to_string()));
    assert_eq!(r.error, Some("Failed to rename: e".to_string()));
    assert_eq!(r.new_path, Some("b".to_string()));
}

#[test]
fn directories_are_made() {
    assert!(create_dir("d", true, None).success);
    assert_eq!(create_dir("d", true, Some("full")).error, Some("full".to_string()));
    assert_eq!(create_dir("d", false, None).error, Some("Invalid path".to_string()));
}

#[test]
fn test_b64_roundtrip() {
    let original = b"Hello, base64 world!\0\x01\xff";
    let encoded = encode_b64(original);
    let decoded = decode_b64(&encoded).unwrap();
    assert_eq!(decoded, original);
}

#[test]
fn a_file_is_read_in_chunks() {
    let data: Vec<u8> = (0..600_000u32).map(|i| (i % 239) as u8).collect();
    let mut joined = Vec::new();
    let mut i = 0;
    while let Some(content) = read_chunk(&data, i) {
        let chunk = decode_b64(&content).unwrap();
        assert!(!chunk.is_empty() && chunk.len() <= CHUNK_SIZE);
        joined.extend_from_slice(&chunk);
        i += 1;
    }
    assert_eq!(i, 3);
    assert_eq!(joined, data);
    assert_eq!(read_chunk(b"", 0), None);
    assert_eq!(read_chunk(b"a", 0), Some("YQ==".to_string()));
    assert_eq!(read_chunk(b"a", 1), None);
    assert_eq!(read_chunk(b"a", usize::MAX), None);
}

#[test]
fn what_base64_can_hold() {
    assert!(encodable(0));
    assert!(encodable(1 << 20));
    assert!(!encodable(isize::MAX as usize));
    assert!(!encodable(usize::MAX));
}

#[test]
fn base64_is_padded() {
    assert_eq!(encode_b64(b"hello\n"), "aGVsbG8K");
    assert_eq!(encode_b64(b"a"), "YQ==");
    assert_eq!(encode_b64(b""), "");
    assert!(decode_b64("YQ").is_none());
    assert!(decode_b64("Y Q=").is_none());
}

#[test]
fn test_format_mode() {
    let mode = format_mode(false, false, Some(0o644));
    assert!(mode.starts_with('-'));
    assert_eq!(mode, "-rw-r--r--");
    let dir_mode = format_mode(true, false, Some(0o700));
    assert!(dir_mode.starts_with('d'));
    assert_eq!(dir_mode, "drwx------");
}

#[test]
fn modes_of_links_and_of_systems_without_bits() {
    assert_eq!(format_mode(false, true, Some(0o777)), "lrwxrwxrwx");
    assert_eq!(format_mode(true, false, None), "d---------");
    assert_eq!(format_mode(false, true, None), "----------");
    assert_eq!(format_owner(0, 4294967295), "0:4294967295");
}

#[test]
fn paths_are_compared_by_their_parts() {
    assert!(is_same_path("/a/b", "/a//b/"));
    assert!(is_same_path("/a/./b", "/a/b"));
    assert!(!is_same_path("/a/b", "a/b"));
    assert!(!is_same_path("./a", "a"));
    assert!(is_path_under("/a/b/c", "/a/b"));
    assert!(is_path_under("/a/b", "/a/b/"));
    assert!(!is_path_under("/a/bc", "/a/b"));
}

// ── uploads ──

fn upload(pairs: &[(&str, &str)]) -> Json {
    let mut j = Json::object();
    for (k, v) in pairs {
        j = j.with_str(k, v);
    }
    j
}

#[test]
fn an_upload_arrives_whole() {
    let data: Vec<u8> = (0..600_000u32).map(|i| (i % 241) as u8).collect();
    let total = count_chunks(data.len() as u64);
    assert_eq!(total, 3);
    let mut file: Vec<u8> = b"what was there before".to_vec();
    let mut finished = false;
    for (i, piece) in data.chunks(CHUNK_SIZE).enumerate() {
        let m = chunk_message("s", "u", "/t/f", piece, i as u64, total);
        match plan_upload(&m.at("payload")) {
            UploadAction::Chunk { final_path, data, truncate, last } => {
                assert_eq!(final_path, "/t/f");
                assert!(!finished);
                finished = last;
                if truncate {
                    file.clear();
                }
                file.extend_from_slice(&data);
            }
            _ => panic!("no chunk"),
        }
    }
    assert!(finished);
    assert_eq!(file, data);
}

#[test]
fn an_upload_may_come_from_the_upload_directory_only() {
    let good = upload(&[("temp_path", "/tmp/opencode/uploads/x"), ("final_path", "/t/f")]);
    match plan_upload(&good) {
        UploadAction::FromTemp { temp_path, final_path } => {
            assert_eq!(temp_path, "/tmp/opencode/uploads/x");
            assert_eq!(final_path, "/t/f");
        }
        _ => panic!("refused"),
    }
    let bad = upload(&[("temp_path", "/etc/passwd"), ("final_path", "/t/f")]);
    match plan_upload(&bad) {
        UploadAction::Refused(r) => {
            assert_eq!(r.error, Some("Invalid temporary upload path".to_string()));
        }
        _ => panic!("taken"),
    }
}

#[test]
fn an_upload_that_is_no_base64_is_refused() {
    let bad = upload(&[("content", "***"), ("final_path", "/t/f")]);
    match plan_upload(&bad) {
        UploadAction::Refused(r) => {
            assert_eq!(r.error, Some("Invalid base64 content".to_string()));
        }
        _ => panic!("taken"),
    }
    // Without numbers it is the only chunk.
    match plan_upload(&upload(&[("content", "YQ=="), ("final_path", "/t/f")])) {
        UploadAction::Chunk { truncate, last, data, .. } => {
            assert!(truncate && last);
            assert_eq!(data, b"a".to_vec());
        }
        _ => panic!("refused"),
    }
}

use buildkit_sdk::session::filesend::{load_failure_message, load_outcome, FileSendService, LoadStage};
use buildkit_sdk::session::filesync::{
    file_can_request_data, file_mode, is_root_path, missing_file_message, open_failure_message,
    path_matches_prefix, should_include_path, DirNameHeader, FileRegistry, FileSyncService,
    SyncAction, SyncPacket, KEY_DIR_NAME, MAX_PACKET_SIZE,
};
use buildkit_sdk::util::oci::OciBackend;

fn v(items: &[&str]) -> Vec<String> {
    items.iter().map(|s| s.to_string()).collect()
}

#[test]
fn include_patterns_keep_parent_directories() {
    assert!(should_include_path("src", &v(&[]), &v(&["src/main.rs"]), &v(&[])));
    assert!(should_include_path("src/main.rs", &v(&[]), &v(&["src/main.rs"]), &v(&[])));
}

#[test]
fn include_patterns_filter_unrelated_paths() {
    assert!(!should_include_path("tests", &v(&[]), &v(&["src/main.rs"]), &v(&[])));
}

#[test]
fn exclude_patterns_override_includes() {
    assert!(!should_include_path(
        "src/generated",
        &v(&["src/generated"]),
        &v(&["src"]),
        &v(&[])
    ));
}

#[test]
fn follow_paths_keep_requested_file_and_parents() {
    assert!(should_include_path(".", &v(&[]), &v(&[]), &v(&["Dockerfile"])));
    assert!(should_include_path("Dockerfile", &v(&[]), &v(&[]), &v(&["Dockerfile"])));
    assert!(!should_include_path("src", &v(&[]), &v(&[]), &v(&["Dockerfile"])));
}

#[test]
fn exclude_patterns_override_follow_paths() {
    assert!(!should_include_path(
        "Dockerfile",
        &v(&["Dockerfile"]),
        &v(&[]),
        &v(&["Dockerfile"])
    ));
}

#[test]
fn paths_are_cleaned_before_matching() {
    assert!(!should_include_path("./src//generated/x", &v(&["src/generated/"]), &v(&[]), &v(&[])));
    assert!(should_include_path("anything", &v(&[]), &v(&[]), &v(&[])));
    assert!(should_include_path("", &v(&["docs"]), &v(&["src"]), &v(&[])));
    assert!(!should_include_path("x", &v(&["."]), &v(&[]), &v(&[])));
    assert!(should_include_path("srcx", &v(&["src"]), &v(&[]), &v(&[])));
    assert!(path_matches_prefix("a/b", "a/./"));
    assert!(!path_matches_prefix("ab", "a"));
    assert!(is_root_path("") && is_root_path(".") && !is_root_path("a"));
}

#[test]
fn only_regular_files_can_be_requested() {
    assert!(file_can_request_data(0o644));
    assert!(!file_can_request_data(0x8000_0000 | 0o755));
    assert!(!file_can_request_data(0x0800_0000 | 0o777));
    assert_eq!(MAX_PACKET_SIZE, 4 * 1024 * 1024);
    assert_eq!(KEY_DIR_NAME, "dir-name");
}

#[test]
fn a_requested_file_is_sent_once() {
    let mut reg = FileRegistry::new();
    let st = reg.walk_entry("./src/../Dockerfile", "/ctx/Dockerfile".to_string(), 0o644, 1, 2, 30, 40);
    assert_eq!(st.path, "Dockerfile");
    assert_eq!((st.mode, st.uid, st.gid, st.size, st.mod_time), (0o644, 1, 2, 30, 40));
    let dir = reg.walk_entry("src", "/ctx/src".to_string(), 0x8000_0000 | 0o755, 0, 0, 0, 0);
    assert_eq!(dir.path, "src");
    assert_eq!(reg.next_id, 2);
    assert_eq!(reg.files.len(), 1);

    match reg.answer(&SyncPacket::Request(0)) {
        SyncAction::SendFile(id, p) => {
            assert_eq!(id, 0);
            assert_eq!(p, "/ctx/Dockerfile");
        }
        _ => panic!("expected the file"),
    }
    match reg.answer(&SyncPacket::Request(0)) {
        SyncAction::SendError(id, m) => {
            assert_eq!(id, 0);
            assert_eq!(m, "requested file id 0 is out of range");
        }
        _ => panic!("expected an error"),
    }
    match reg.answer(&SyncPacket::Request(1)) {
        SyncAction::SendError(_, m) => assert_eq!(m, missing_file_message(1)),
        _ => panic!("a directory has no data"),
    }
    assert!(matches!(reg.answer(&SyncPacket::Fin), SyncAction::Finish));
    assert!(matches!(reg.answer(&SyncPacket::Error), SyncAction::Stop));
    assert!(matches!(reg.answer(&SyncPacket::Other), SyncAction::Stop));
}

#[test]
fn entry_ids_stop_at_the_largest_id() {
    let mut reg = FileRegistry::new();
    reg.next_id = u32::MAX;
    reg.register(0o600, "a".to_string());
    assert_eq!(reg.next_id, u32::MAX);
    assert_eq!(reg.take(u32::MAX), Some("a".to_string()));
    assert_eq!(reg.take(u32::MAX), None);
}

#[test]
fn messages_of_the_sync_service() {
    assert_eq!(missing_file_message(4294967295), "requested file id 4294967295 is out of range");
    assert_eq!(
        open_failure_message("/ctx/a", "No such file"),
        "failed to open requested path /ctx/a: No such file"
    );
}

#[test]
fn requested_directory_is_looked_up_by_name() {
    let svc = FileSyncService::new(vec![
        ("context".to_string(), "/a".to_string()),
        ("dockerfile".to_string(), "/b".to_string()),
        ("context".to_string(), "/c".to_string()),
    ]);
    assert_eq!(svc.resolve_dir(&DirNameHeader::Valid("context".to_string())).unwrap(), "/c");
    assert_eq!(svc.resolve_dir(&DirNameHeader::Valid("dockerfile".to_string())).unwrap(), "/b");
    assert_eq!(
        svc.resolve_dir(&DirNameHeader::Valid("other".to_string())).unwrap_err(),
        "dir-name not found in context"
    );
    assert_eq!(
        svc.resolve_dir(&DirNameHeader::Missing).unwrap_err(),
        "missing dir-name in metadata"
    );
    assert_eq!(
        svc.resolve_dir(&DirNameHeader::Invalid("bad byte".to_string())).unwrap_err(),
        "invalid dir-name: bad byte"
    );
}

#[test]
fn load_outcomes() {
    assert_eq!(load_outcome("docker", true, "  Loaded image\n", "", ""), Ok(Some("Loaded image".to_string())));
    assert_eq!(load_outcome("docker", true, " \n", "warn", ""), Ok(None));
    assert_eq!(
        load_outcome("podman", false, "out", " err \n", "exit status: 1"),
        Err("podman load failed: err".to_string())
    );
    assert_eq!(
        load_outcome("podman", false, "out\n", "  ", "exit status: 1"),
        Err("podman load failed: out".to_string())
    );
    assert_eq!(
        load_outcome("docker", false, "", "", "exit status: 2"),
        Err("docker load failed: process exited with status exit status: 2".to_string())
    );
    assert_eq!(FileSendService::new(OciBackend::Podman).backend, OciBackend::Podman);
}

#[test]
fn load_failure_messages() {
    assert_eq!(
        load_failure_message("docker", LoadStage::Spawn, "not found"),
        "failed to spawn docker load process: not found"
    );
    assert_eq!(
        load_failure_message("docker", LoadStage::CaptureStdin, "ignored"),
        "failed to capture stdin of docker load process"
    );
    assert_eq!(
        load_failure_message("podman", LoadStage::Write, "broken pipe"),
        "failed to write to podman load process: broken pipe"
    );
    assert_eq!(
        load_failure_message("docker", LoadStage::ReadStream, "reset"),
        "failed to read exporter stream: reset"
    );
    assert_eq!(
        load_failure_message("docker", LoadStage::CloseStdin, "e"),
        "failed to close stdin for docker load: e"
    );
    assert_eq!(
        load_failure_message("docker", LoadStage::Wait, "e"),
        "failed to wait for docker load: e"
    );
}

#[test]
fn unix_modes_become_protocol_modes() {
    assert_eq!(file_mode(0o100644), 0o644);
    assert_eq!(file_mode(0o040755), 0x8000_0000 | 0o755);
    assert_eq!(file_mode(0o120777), 0x0800_0000 | 0o777);
    assert_eq!(file_mode(0o104755), 0x0080_0000 | 0o755);
    assert_eq!(file_mode(0o043777), 0x8000_0000 | 0x0040_0000 | 0x0010_0000 | 0o777);
    assert_eq!(file_mode(0o020666), 0x0400_0000 | 0x0020_0000 | 0o666);
    assert_eq!(file_mode(0o060660), 0x0400_0000 | 0o660);
    assert_eq!(file_mode(0o010600), 0x0200_0000 | 0o600);
    assert_eq!(file_mode(0o140700), 0x0100_0000 | 0o700);
    assert!(file_can_request_data(file_mode(0o100755)));
    assert!(!file_can_request_data(file_mode(0o040755)));
}

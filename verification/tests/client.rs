use buildkit_sdk::client::{
    session_header_name, session_headers, session_methods, Session, SessionOptions, SolveOptions,
    HEADER_SESSION_ID, HEADER_SESSION_METHOD, HEADER_SESSION_NAME, HEADER_SESSION_SHARED_KEY,
};
use buildkit_sdk::llb::state::image;

fn options(definition: Option<Vec<u8>>, frontend: &str, exporter: &str, attrs: usize) -> SolveOptions {
    SolveOptions {
        id: "ref".to_string(),
        session: "s".to_string(),
        definition,
        frontend: frontend.to_string(),
        frontend_attrs: Vec::new(),
        exporter: exporter.to_string(),
        exporter_attrs: (0..attrs).map(|i| (format!("k{i}"), "v".to_string())).collect(),
    }
}

#[test]
fn solve_needs_a_definition_or_a_frontend() {
    assert_eq!(
        options(None, "", "", 0).validate().unwrap_err(),
        "solve requires either `definition` or `frontend`"
    );
    assert!(options(None, "dockerfile.v0", "", 0).validate().is_ok());
    let def = image("alpine").marshal();
    assert!(options(Some(def), "", "docker", 2).validate().is_ok());
}

#[test]
fn exporter_attributes_need_an_exporter() {
    assert_eq!(
        options(None, "dockerfile.v0", "", 1).validate().unwrap_err(),
        "exporter attributes require `exporter` to be set"
    );
}

#[test]
fn session_names_become_printable_headers() {
    assert_eq!(session_header_name("my-build"), "my-build");
    assert_eq!(session_header_name("é\tx"), "???x");
    assert!(session_header_name("\u{7f}\u{1f600}").chars().all(|c| c == '?'));
    assert_eq!(session_header_name("\u{7f}\u{1f600}").len(), 5);
}

#[test]
fn session_headers_and_methods() {
    assert_eq!(HEADER_SESSION_ID, "x-docker-expose-session-uuid");
    assert_eq!(HEADER_SESSION_NAME, "x-docker-expose-session-name");
    assert_eq!(HEADER_SESSION_SHARED_KEY, "x-docker-expose-session-sharedkey");
    assert_eq!(HEADER_SESSION_METHOD, "x-docker-expose-session-grpc-method");
    assert_eq!(
        session_methods(),
        vec![
            "/moby.filesync.v1.FileSync/DiffCopy",
            "/moby.filesync.v1.FileSync/TarStream",
            "/moby.filesync.v1.FileSend/DiffCopy",
            "/moby.buildkit.secrets.v1.Secrets/GetSecret",
        ]
    );
    let o = SessionOptions::new();
    assert!(o.name.is_empty() && o.local.is_empty());
    let s = Session { id: "abc".to_string() };
    assert_eq!(s.id, "abc");
}

#[test]
fn session_opening_headers() {
    let h = session_headers("abc123", "build é");
    let got: Vec<(&str, &str)> = h.iter().map(|(k, v)| (k.as_str(), v.as_str())).collect();
    assert_eq!(
        got,
        vec![
            ("x-docker-expose-session-uuid", "abc123"),
            ("x-docker-expose-session-name", "build ??"),
            ("x-docker-expose-session-sharedkey", ""),
            ("x-docker-expose-session-grpc-method", "/moby.filesync.v1.FileSync/DiffCopy"),
            ("x-docker-expose-session-grpc-method", "/moby.filesync.v1.FileSync/TarStream"),
            ("x-docker-expose-session-grpc-method", "/moby.filesync.v1.FileSend/DiffCopy"),
            ("x-docker-expose-session-grpc-method", "/moby.buildkit.secrets.v1.Secrets/GetSecret"),
        ]
    );
}

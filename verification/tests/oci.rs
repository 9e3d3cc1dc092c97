use buildkit_sdk::util::oci::{OciBackend, OciBackendFromStrError};
use buildkit_sdk::util::system::{
    default_path_env, OsFamily, DEFAULT_PATH_ENV_UNIX, DEFAULT_PATH_ENV_WINDOWS,
};

#[test]
fn test_default_is_docker() {
    let backend = OciBackend::default();
    assert_eq!(backend, OciBackend::Docker);
}

#[test]
fn test_debug_formatting() {
    assert_eq!(format!("{:?}", OciBackend::Docker), "Docker");
    assert_eq!(format!("{:?}", OciBackend::Podman), "Podman");
}

#[test]
fn test_clone_and_partial_eq() {
    let backend = OciBackend::Docker;
    let cloned = backend;
    assert_eq!(backend, cloned);

    let podman = OciBackend::Podman;
    assert_ne!(backend, podman);
}

#[test]
fn test_display() {
    assert_eq!(OciBackend::Docker.to_string(), "docker");
    assert_eq!(OciBackend::Podman.to_string(), "podman");
}

#[test]
fn test_from_str() {
    assert_eq!("docker".parse::<OciBackend>().unwrap(), OciBackend::Docker);
    assert_eq!("podman".parse::<OciBackend>().unwrap(), OciBackend::Podman);
    assert!("unknown".parse::<OciBackend>().is_err());
}

#[test]
fn test_as_ref() {
    let backend: &str = OciBackend::Docker.as_ref();
    assert_eq!(backend, "docker");
}

#[test]
fn parse_keeps_the_unknown_text_in_the_error() {
    let err: OciBackendFromStrError = OciBackend::parse("Docker").unwrap_err();
    assert_eq!(err.0, "Docker");
    assert_eq!(err.message(), "Unknown OCI backend: Docker");
}

#[test]
fn name_reads_back_to_the_engine() {
    for b in [OciBackend::Docker, OciBackend::Podman] {
        assert_eq!(OciBackend::parse(b.as_str()).unwrap(), b);
    }
}

#[test]
fn test_default_path_env_unix() {
    let path = default_path_env(OsFamily::Unix);
    assert_eq!(path, "/usr/local/sbin:/usr/local/bin:/usr/sbin:/usr/bin:/sbin:/bin");
    assert!(path.contains("/usr/local/bin"));
    assert!(path.contains("/usr/bin"));
}

#[test]
fn test_default_path_env_windows() {
    let path = default_path_env(OsFamily::Windows);
    assert_eq!(path, "c:\\Windows\\System32;c:\\Windows");
    assert!(path.contains("System32"));
}

#[test]
fn test_default_path_env_unix_constant() {
    assert_eq!(
        DEFAULT_PATH_ENV_UNIX,
        "/usr/local/sbin:/usr/local/bin:/usr/sbin:/usr/bin:/sbin:/bin"
    );
    let parts: Vec<&str> = DEFAULT_PATH_ENV_UNIX.split(':').collect();
    assert_eq!(parts.len(), 6);
}

#[test]
fn test_default_path_env_windows_constant() {
    assert_eq!(DEFAULT_PATH_ENV_WINDOWS, "c:\\Windows\\System32;c:\\Windows");
    let parts: Vec<&str> = DEFAULT_PATH_ENV_WINDOWS.split(';').collect();
    assert_eq!(parts.len(), 2);
}

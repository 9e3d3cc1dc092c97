//! The OCI container engine used to reach and feed a BuildKit daemon.
use crate::text::{concat, owned, str_eq};
use vstd::prelude::*;

verus! {

/// A container engine: Docker (the default) or Podman.
#[derive(Debug, Clone, Copy, PartialEq, Eq, Structural)]
pub enum OciBackend {
    Docker,
    Podman,
}

impl OciBackend {
    /// The engine's command name.
    pub open spec fn name(self) -> Seq<char> {
        match self {
            OciBackend::Docker => "docker"@,
            OciBackend::Podman => "podman"@,
        }
    }

    /// The engine's command name: `docker` or `podman`.
    pub fn as_str(&self) -> (r: &'static str)
        ensures
            r@ == self.name(),
    {
        match self {
            OciBackend::Docker => "docker",
            OciBackend::Podman => "podman",
        }
    }

    /// The engine's command name, as a string slice.
    pub fn as_ref(&self) -> (r: &'static str)
        ensures
            r@ == self.name(),
    {
        self.as_str()
    }

    /// The engine's command name, as an owned string.
    pub fn to_string(&self) -> (r: String)
        ensures
            r@ == self.name(),
    {
        owned(self.as_str())
    }

    /// The engine named by `s`: exactly `docker` or `podman`; any other text
    /// is an error that holds it.
    pub fn parse(s: &str) -> (r: Result<OciBackend, OciBackendFromStrError>)
        ensures
            match parse_name(s@) {
                Some(b) => r == Ok::<OciBackend, OciBackendFromStrError>(b),
                None => r matches Err(e) && e.0@ == s@,
            },
    {
        if str_eq(s, "docker") {
            Ok(OciBackend::Docker)
        } else if str_eq(s, "podman") {
            Ok(OciBackend::Podman)
        } else {
            Err(OciBackendFromStrError(owned(s)))
        }
    }
}

/// The engine a text names, if any.
pub open spec fn parse_name(s: Seq<char>) -> Option<OciBackend> {
    if s == "docker"@ {
        Some(OciBackend::Docker)
    } else if s == "podman"@ {
        Some(OciBackend::Podman)
    } else {
        None
    }
}

impl Default for OciBackend {
    fn default() -> (r: Self)
        ensures
            r == OciBackend::Docker,
    {
        OciBackend::Docker
    }
}

/// The text that named no known engine.
#[derive(Debug)]
pub struct OciBackendFromStrError(pub String);

impl OciBackendFromStrError {
    /// `Unknown OCI backend: <text>`.
    pub fn message(&self) -> (r: String)
        ensures
            r@ == "Unknown OCI backend: "@ + self.0@,
    {
        concat("Unknown OCI backend: ", self.0.as_str())
    }
}

/// Reading an engine's name back gives the engine.
pub proof fn lemma_parse_name(b: OciBackend)
    ensures
        parse_name(b.name()) == Some(b),
{
    reveal_strlit("docker");
    reveal_strlit("podman");
    assert("docker"@[0] != "podman"@[0]);
}

impl std::str::FromStr for OciBackend {
    type Err = OciBackendFromStrError;

    fn from_str(s: &str) -> (r: Result<Self, Self::Err>)
        ensures
            match parse_name(s@) {
                Some(b) => r == Ok::<OciBackend, OciBackendFromStrError>(b),
                None => r matches Err(e) && e.0@ == s@,
            },
    {
        OciBackend::parse(s)
    }
}

} // verus!

//! Small shared utilities: OCI backend selection and executable search paths.
pub mod oci;
pub mod system;

//! Exported images received from BuildKit are loaded into the OCI engine.
use crate::text::{concat, owned, push_str, trim, trim_str};
use crate::util::oci::OciBackend;
use vstd::prelude::*;

verus! {

/// The service that receives exported images.
pub struct FileSendService {
    pub backend: OciBackend,
}

impl FileSendService {
    pub fn new(backend: OciBackend) -> (r: Self)
        ensures
            r.backend == backend,
    {
        FileSendService { backend }
    }
}

/// Why a load failed: the error output, else the standard output, else the
/// exit status.
pub open spec fn failure_detail(stdout: Seq<char>, stderr: Seq<char>, status: Seq<char>) -> Seq<char> {
    if stderr.len() > 0 {
        stderr
    } else if stdout.len() > 0 {
        stdout
    } else {
        "process exited with status "@ + status
    }
}

/// How a load ends, from the engine's exit status and outputs, each
/// without surrounding whitespace: an error naming the command and the
/// detail when it failed; otherwise its standard output, if any.
pub fn load_outcome(command: &str, success: bool, stdout: &str, stderr: &str, status: &str) -> (r: Result<
    Option<String>,
    String,
>)
    ensures
        !success ==> (r matches Err(m) && m@ == command@ + " load failed: "@ + failure_detail(
            trim(stdout@),
            trim(stderr@),
            status@,
        )),
        success && trim(stdout@).len() == 0 ==> r matches Ok(None),
        success && trim(stdout@).len() > 0 ==> (r matches Ok(Some(s)) && s@ == trim(stdout@)),
{
    let out = trim_str(stdout);
    let err = trim_str(stderr);
    if !success {
        let detail = if err.as_str().unicode_len() > 0 {
            err
        } else if out.as_str().unicode_len() > 0 {
            out
        } else {
            concat("process exited with status ", status)
        };
        let mut m = owned(command);
        push_str(&mut m, " load failed: ");
        push_str(&mut m, detail.as_str());
        return Err(m);
    }
    if out.as_str().unicode_len() == 0 {
        Ok(None)
    } else {
        Ok(Some(out))
    }
}

/// A step of loading an exported image that can fail.
pub enum LoadStage {
    Spawn,
    CaptureStdin,
    Write,
    ReadStream,
    CloseStdin,
    Wait,
}

/// The message of an internal error at a step of loading an image, with
/// the underlying error's text where there is one.
pub fn load_failure_message(command: &str, stage: LoadStage, err: &str) -> (r: String)
    ensures
        r@ == match stage {
            LoadStage::Spawn => "failed to spawn "@ + command@ + " load process: "@ + err@,
            LoadStage::CaptureStdin => "failed to capture stdin of "@ + command@ + " load process"@,
            LoadStage::Write => "failed to write to "@ + command@ + " load process: "@ + err@,
            LoadStage::ReadStream => "failed to read exporter stream: "@ + err@,
            LoadStage::CloseStdin => "failed to close stdin for "@ + command@ + " load: "@ + err@,
            LoadStage::Wait => "failed to wait for "@ + command@ + " load: "@ + err@,
        },
{
    match stage {
        LoadStage::Spawn => {
            let mut m = concat("failed to spawn ", command);
            push_str(&mut m, " load process: ");
            push_str(&mut m, err);
            m
        },
        LoadStage::CaptureStdin => {
            let mut m = concat("failed to capture stdin of ", command);
            push_str(&mut m, " load process");
            m
        },
        LoadStage::Write => {
            let mut m = concat("failed to write to ", command);
            push_str(&mut m, " load process: ");
            push_str(&mut m, err);
            m
        },
        LoadStage::ReadStream => concat("failed to read exporter stream: ", err),
        LoadStage::CloseStdin => {
            let mut m = concat("failed to close stdin for ", command);
            push_str(&mut m, " load: ");
            push_str(&mut m, err);
            m
        },
        LoadStage::Wait => {
            let mut m = concat("failed to wait for ", command);
            push_str(&mut m, " load: ");
            push_str(&mut m, err);
            m
        },
    }
}

} // verus!

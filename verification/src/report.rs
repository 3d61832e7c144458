//! What a run reports: one line for each host that succeeded or failed.

use crate::error::HostError;
use crate::operation::{Operation, OperationView};
use crate::server::{host_label, HostView, SessionInfo};
use crate::text::{debug_text, decimal, decimal_text, lossy_text, quoted_text, utf8_lossy};
use vstd::prelude::*;

verus! {

/// How much a line matters.
#[derive(Debug, Clone, Copy, PartialEq, Eq, Structural)]
pub enum Level {
    Debug,
    Info,
    Warn,
    Error,
}

/// One line for the log.
#[derive(Debug)]
pub struct LogLine {
    pub level: Level,
    pub message: String,
}

/// The line that records a connection: the host's label and the time taken.
pub open spec fn connect_text(host: HostView, elapsed_ms: nat) -> Seq<char> {
    host_label(host) + ", connect ok, elapsed: "@ + decimal(elapsed_ms) + "ms"@
}

/// The line that records an executed command: the host's label, the command,
/// the time taken, and what the command printed, standard output first.
pub open spec fn exec_text(
    host: HostView,
    command: Seq<char>,
    elapsed_ms: nat,
    stdout: Seq<u8>,
    stderr: Seq<u8>,
) -> Seq<char> {
    host_label(host) + ", command:"@ + command + ", elapsed: "@ + decimal(elapsed_ms)
        + "ms, res:\n"@ + utf8_lossy(stdout + stderr)
}

/// The line that records an upload: the host's label, both paths, the size
/// in bytes and the time taken.
pub open spec fn upload_text(
    host: HostView,
    local_file: Seq<char>,
    remote_path: Seq<char>,
    size: nat,
    elapsed_ms: nat,
) -> Seq<char> {
    host_label(host) + ", local_file: "@ + debug_text(local_file) + ", remote_path: "@
        + debug_text(remote_path) + ", size: "@ + decimal(size) + ", elapsed: "@ + decimal(
        elapsed_ms,
    ) + "ms, upload successfully"@
}

/// The line that records a download: the host's label, both paths, the size
/// in bytes and the time taken.
pub open spec fn download_text(
    host: HostView,
    remote_path: Seq<char>,
    local_path: Seq<char>,
    size: nat,
    elapsed_ms: nat,
) -> Seq<char> {
    host_label(host) + ", remote_file:"@ + debug_text(remote_path) + ", local_file:"@
        + debug_text(local_path) + ", size: "@ + decimal(size) + ", elapsed: "@ + decimal(
        elapsed_ms,
    ) + "ms, download successfully"@
}

/// What is put before the message of a host's failure, by operation.
pub open spec fn failure_prefix(operation: OperationView) -> Seq<char> {
    match operation {
        OperationView::Exec { .. } => Seq::empty(),
        OperationView::Get { .. } => "下载文件失败: "@,
        OperationView::Put { .. } => "上传文件失败: "@,
    }
}

/// How much the failure of an operation on one host matters: a warning for a
/// command, an error for a transfer.
pub open spec fn failure_level(operation: OperationView) -> Level {
    match operation {
        OperationView::Exec { .. } => Level::Warn,
        _ => Level::Error,
    }
}

/// Records that `info` was connected to within `elapsed_ms` milliseconds.
pub fn connect_record(info: &SessionInfo, elapsed_ms: u128) -> (line: LogLine)
    ensures
        line.level == Level::Debug,
        line.message@ == connect_text(info@, elapsed_ms as nat),
{
    let mut message = info.hostname_ip();
    message.append(", connect ok, elapsed: ");
    message.append(decimal_text(elapsed_ms).as_str());
    message.append("ms");
    LogLine { level: Level::Debug, message }
}

/// Records a command executed on `info`, with what it printed.
pub fn exec_record(
    info: &SessionInfo,
    command: &str,
    elapsed_ms: u128,
    stdout: &[u8],
    stderr: &[u8],
) -> (line: LogLine)
    ensures
        line.level == Level::Info,
        line.message@ == exec_text(info@, command@, elapsed_ms as nat, stdout@, stderr@),
{
    let mut output: Vec<u8> = Vec::new();
    let mut i: usize = 0;
    while i < stdout.len()
        invariant
            i <= stdout@.len(),
            output@ == stdout@.take(i as int),
        decreases stdout@.len() - i,
    {
        output.push(stdout[i]);
        assert(stdout@.take(i + 1) == stdout@.take(i as int).push(stdout@[i as int]));
        i += 1;
    }
    assert(stdout@.take(i as int) == stdout@);
    let mut k: usize = 0;
    while k < stderr.len()
        invariant
            k <= stderr@.len(),
            output@ == stdout@ + stderr@.take(k as int),
        decreases stderr@.len() - k,
    {
        output.push(stderr[k]);
        assert(stderr@.take(k + 1) == stderr@.take(k as int).push(stderr@[k as int]));
        k += 1;
    }
    assert(stderr@.take(k as int) == stderr@);
    let mut message = info.hostname_ip();
    message.append(", command:");
    message.append(command);
    message.append(", elapsed: ");
    message.append(decimal_text(elapsed_ms).as_str());
    message.append("ms, res:\n");
    message.append(lossy_text(output.as_slice()).as_str());
    LogLine { level: Level::Info, message }
}

/// Records a file sent to `info`.
pub fn upload_record(
    info: &SessionInfo,
    local_file: &str,
    remote_path: &str,
    size: u64,
    elapsed_ms: u128,
) -> (line: LogLine)
    ensures
        line.level == Level::Info,
        line.message@ == upload_text(
            info@,
            local_file@,
            remote_path@,
            size as nat,
            elapsed_ms as nat,
        ),
{
    let mut message = info.hostname_ip();
    message.append(", local_file: ");
    message.append(quoted_text(local_file).as_str());
    message.append(", remote_path: ");
    message.append(quoted_text(remote_path).as_str());
    message.append(", size: ");
    message.append(decimal_text(size as u128).as_str());
    message.append(", elapsed: ");
    message.append(decimal_text(elapsed_ms).as_str());
    message.append("ms, upload successfully");
    LogLine { level: Level::Info, message }
}

/// Records a file fetched from `info`.
pub fn download_record(
    info: &SessionInfo,
    remote_path: &str,
    local_path: &str,
    size: u64,
    elapsed_ms: u128,
) -> (line: LogLine)
    ensures
        line.level == Level::Info,
        line.message@ == download_text(
            info@,
            remote_path@,
            local_path@,
            size as nat,
            elapsed_ms as nat,
        ),
{
    let mut message = info.hostname_ip();
    message.append(", remote_file:");
    message.append(quoted_text(remote_path).as_str());
    message.append(", local_file:");
    message.append(quoted_text(local_path).as_str());
    message.append(", size: ");
    message.append(decimal_text(size as u128).as_str());
    message.append(", elapsed: ");
    message.append(decimal_text(elapsed_ms).as_str());
    message.append("ms, download successfully");
    LogLine { level: Level::Info, message }
}

/// Records that connecting to a host failed: the failure's message, which
/// names the host, as an error.
pub fn connect_failure_record(error: &HostError) -> (line: LogLine)
    ensures
        line.level == Level::Error,
        line.message@ == error.message(),
{
    LogLine { level: Level::Error, message: error.describe() }
}

/// Records that `operation` failed on a host: the failure's message, which
/// names the host, behind the operation's prefix.
pub fn failure_record(operation: &Operation, error: &HostError) -> (line: LogLine)
    ensures
        line.level == failure_level(operation@),
        line.message@ == failure_prefix(operation@) + error.message(),
{
    match operation {
        Operation::Exec { .. } => {
            let message = error.describe();
            assert(message@ == Seq::<char>::empty() + error.message());
            LogLine { level: Level::Warn, message }
        },
        Operation::Get { .. } => {
            let mut message = String::from_str("下载文件失败: ");
            message.append(error.describe().as_str());
            LogLine { level: Level::Error, message }
        },
        Operation::Put { .. } => {
            let mut message = String::from_str("上传文件失败: ");
            message.append(error.describe().as_str());
            LogLine { level: Level::Error, message }
        },
    }
}

} // verus!

use rssh_async::error::{attach_info, HostError};
use rssh_async::operation::Operation;
use rssh_async::report::{
    connect_failure_record, connect_record, download_record, exec_record, failure_record,
    upload_record, Level,
};
use rssh_async::server::SessionInfo;

fn host() -> SessionInfo {
    SessionInfo {
        hostname: "host1".to_string(),
        ip: "10.0.0.1".to_string(),
        port: 22,
        user: "cx".to_string(),
        password: "pw".to_string(),
        groupname: "web".to_string(),
    }
}

#[test]
fn a_cause_gets_the_hosts_identity_attached() {
    assert_eq!(
        attach_info("connection refused", &host()),
        "connection refused, host1_10.0.0.1, port:22, user:cx, password:pw"
    );
    let connect = HostError::connect("timed out", &host());
    assert!(matches!(connect, HostError::Connect(_)));
    assert_eq!(connect.describe(), "timed out, host1_10.0.0.1, port:22, user:cx, password:pw");
    let transfer = HostError::transfer("no such file", &host());
    assert!(matches!(transfer, HostError::Transfer(_)));
    assert_eq!(
        transfer.describe(),
        "no such file, host1_10.0.0.1, port:22, user:cx, password:pw"
    );
}

#[test]
fn a_connection_is_recorded_with_the_time_taken() {
    let line = connect_record(&host(), 35);
    assert_eq!(line.level, Level::Debug);
    assert_eq!(line.message, "host1_10.0.0.1, connect ok, elapsed: 35ms");
}

#[test]
fn an_executed_command_is_recorded_with_its_output() {
    let line = exec_record(&host(), "echo hi", 12, b"hi\n", b"");
    assert_eq!(line.level, Level::Info);
    assert_eq!(line.message, "host1_10.0.0.1, command:echo hi, elapsed: 12ms, res:\nhi\n");
}

#[test]
fn standard_error_follows_standard_output() {
    let line = exec_record(&host(), "ls x", 0, b"out", b"err");
    assert_eq!(line.message, "host1_10.0.0.1, command:ls x, elapsed: 0ms, res:\nouterr");
}

#[test]
fn output_that_is_not_text_is_decoded_as_well_as_it_allows() {
    let line = exec_record(&host(), "cat f", 1, &[b'a', 0xff, b'b'], &[0xc3]);
    assert_eq!(
        line.message,
        "host1_10.0.0.1, command:cat f, elapsed: 1ms, res:\na\u{fffd}b\u{fffd}"
    );
    let split = exec_record(&host(), "cat f", 1, &[0xe4, 0xb8], &[0x8b]);
    assert_eq!(split.message, "host1_10.0.0.1, command:cat f, elapsed: 1ms, res:\n下");
}

#[test]
fn an_upload_is_recorded_with_paths_size_and_time() {
    let line = upload_record(&host(), "a.txt", "/home/cx/data/a.txt", 1024, 8);
    assert_eq!(line.level, Level::Info);
    assert_eq!(
        line.message,
        "host1_10.0.0.1, local_file: \"a.txt\", remote_path: \"/home/cx/data/a.txt\", size: 1024, elapsed: 8ms, upload successfully"
    );
}

#[test]
fn a_download_is_recorded_with_paths_size_and_time() {
    let line = download_record(&host(), "/home/cx/res.nmon", "out/host1_10.0.0.1_res.nmon", 5, 9);
    assert_eq!(line.level, Level::Info);
    assert_eq!(
        line.message,
        "host1_10.0.0.1, remote_file:\"/home/cx/res.nmon\", local_file:\"out/host1_10.0.0.1_res.nmon\", size: 5, elapsed: 9ms, download successfully"
    );
}

#[test]
fn paths_are_recorded_as_debug_shows_them() {
    let line = upload_record(&host(), "a\"b\n.txt", "/x", 0, 0);
    assert_eq!(
        line.message,
        "host1_10.0.0.1, local_file: \"a\\\"b\\n.txt\", remote_path: \"/x\", size: 0, elapsed: 0ms, upload successfully"
    );
}

#[test]
fn failures_are_recorded_by_operation() {
    let error = HostError::transfer("broken pipe", &host());
    let exec = Operation::Exec { command: "ls".to_string() };
    let line = failure_record(&exec, &error);
    assert_eq!(line.level, Level::Warn);
    assert_eq!(line.message, "broken pipe, host1_10.0.0.1, port:22, user:cx, password:pw");
    let get = Operation::Get { remote_file: "r".to_string(), local_dir: "l".to_string() };
    let line = failure_record(&get, &error);
    assert_eq!(line.level, Level::Error);
    assert_eq!(
        line.message,
        "下载文件失败: broken pipe, host1_10.0.0.1, port:22, user:cx, password:pw"
    );
    let put = Operation::Put { local_file: "l".to_string(), remote_dir: "r".to_string() };
    let line = failure_record(&put, &error);
    assert_eq!(line.level, Level::Error);
    assert_eq!(
        line.message,
        "上传文件失败: broken pipe, host1_10.0.0.1, port:22, user:cx, password:pw"
    );
}

#[test]
fn a_failed_connection_is_recorded_as_an_error() {
    let error = HostError::connect("timed out", &host());
    let line = connect_failure_record(&error);
    assert_eq!(line.level, Level::Error);
    assert_eq!(line.message, "timed out, host1_10.0.0.1, port:22, user:cx, password:pw");
}

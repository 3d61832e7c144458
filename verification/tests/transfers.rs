use rssh_async::error::HostError;
use rssh_async::operation::{
    command_line, local_destination, plan_download, plan_upload, Operation, NO_LOCAL_NAME,
    NO_REMOTE_NAME, UPLOAD_MODE,
};
use rssh_async::server::SessionInfo;

fn host(user: &str) -> SessionInfo {
    SessionInfo {
        hostname: "host1".to_string(),
        ip: "10.0.0.1".to_string(),
        port: 22,
        user: user.to_string(),
        password: "pw".to_string(),
        groupname: "web".to_string(),
    }
}

#[test]
fn put_a_1024_byte_file_to_a_relative_directory() {
    let upload = plan_upload(&host("cx"), "a.txt", "data", 1024).unwrap();
    assert_eq!(upload.remote_path, "/home/cx/data/a.txt");
    assert_eq!(upload.size, 1024);
    assert_eq!(upload.mode, 0o644);
    assert_eq!(UPLOAD_MODE, 420);
}

#[test]
fn put_to_an_absolute_destination_goes_exactly_there() {
    let upload = plan_upload(&host("cx"), "dir/a.txt", "/opt/bin/nmon", 7).unwrap();
    assert_eq!(upload.remote_path, "/opt/bin/nmon");
    assert_eq!(upload.size, 7);
    assert_eq!(upload.mode, 0o644);
    let odd = plan_upload(&host("cx"), "..", "/opt/bin/nmon", 0).unwrap();
    assert_eq!(odd.remote_path, "/opt/bin/nmon");
}

#[test]
fn put_to_a_relative_destination_goes_below_home() {
    let upload = plan_upload(&host("root"), "/tmp/build/app.tar", "oss/bin", 3).unwrap();
    assert_eq!(upload.remote_path, "/root/oss/bin/app.tar");
    let slashed = plan_upload(&host("cx"), "a.txt", "data/", 3).unwrap();
    assert_eq!(slashed.remote_path, "/home/cx/data/a.txt");
    let empty = plan_upload(&host("cx"), "a.txt", "", 3).unwrap();
    assert_eq!(empty.remote_path, "/home/cx/a.txt");
}

#[test]
fn put_without_a_file_name_fails_for_this_host() {
    match plan_upload(&host("cx"), "dir/..", "data", 1) {
        Err(HostError::Transfer(message)) => assert_eq!(
            message,
            format!("{}, host1_10.0.0.1, port:22, user:cx, password:pw", NO_LOCAL_NAME)
        ),
        other => panic!("a transfer error was expected, not {:?}", other),
    }
}

#[test]
fn get_looks_for_the_file_below_home() {
    let download = plan_download(&host("cx"), "perf/res.nmon").unwrap();
    assert_eq!(download.remote_path, "/home/cx/perf/res.nmon");
    assert_eq!(download.file_name, "res.nmon");
    let root = plan_download(&host("root"), "res.nmon").unwrap();
    assert_eq!(root.remote_path, "/root/res.nmon");
    assert_eq!(root.file_name, "res.nmon");
}

#[test]
fn get_stays_below_home_whatever_the_file_is_called() {
    let download = plan_download(&host("cx"), "/etc/hosts").unwrap();
    assert_eq!(download.remote_path, "/home/cx//etc/hosts");
    assert_eq!(download.file_name, "hosts");
}

#[test]
fn get_without_a_file_name_fails_for_this_host() {
    match plan_download(&host("cx"), "perf/..") {
        Err(HostError::Transfer(message)) => assert_eq!(
            message,
            format!("{}, host1_10.0.0.1, port:22, user:cx, password:pw", NO_REMOTE_NAME)
        ),
        other => panic!("a transfer error was expected, not {:?}", other),
    }
}

#[test]
fn get_into_a_directory_keeps_the_file_under_the_hosts_name() {
    assert_eq!(
        local_destination(&host("cx"), "res.nmon", "out", true),
        "out/host1_10.0.0.1_res.nmon"
    );
    assert_eq!(
        local_destination(&host("cx"), "res.nmon", "./", true),
        "./host1_10.0.0.1_res.nmon"
    );
}

#[test]
fn get_into_another_path_writes_exactly_there() {
    assert_eq!(local_destination(&host("cx"), "res.nmon", "out/copy.nmon", false), "out/copy.nmon");
    assert_eq!(local_destination(&host("cx"), "res.nmon", "", false), "");
}

#[test]
fn a_command_is_its_words_with_single_spaces_between() {
    let words = vec!["echo".to_string(), "hi".to_string()];
    assert_eq!(command_line(&words), "echo hi");
    assert_eq!(command_line(&vec![]), "");
    assert_eq!(command_line(&vec!["ls".to_string()]), "ls");
    let three = vec!["ls".to_string(), "-l".to_string(), "perf/".to_string()];
    assert_eq!(command_line(&three), "ls -l perf/");
    match Operation::exec(&words) {
        Operation::Exec { command } => assert_eq!(command, "echo hi"),
        other => panic!("an exec operation was expected, not {:?}", other),
    }
}

#[test]
fn an_operation_is_copied_whole() {
    let put = Operation::Put { local_file: "a".to_string(), remote_dir: "b".to_string() };
    match put.clone() {
        Operation::Put { local_file, remote_dir } => {
            assert_eq!(local_file, "a");
            assert_eq!(remote_dir, "b");
        }
        other => panic!("a put operation was expected, not {:?}", other),
    }
    let get = Operation::Get { remote_file: "r".to_string(), local_dir: "l".to_string() };
    assert!(matches!(get.clone(), Operation::Get { .. }));
}

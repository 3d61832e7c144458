use rssh_async::error::RunError;
use rssh_async::run::{host_directory, targets};
use rssh_async::select::Selector;
use rssh_async::server::{Group, Member, Server, SessionInfo};

fn member(hostname: &str, ip: &str, valid: bool) -> Member {
    Member {
        hostname: hostname.to_string(),
        ip: ip.to_string(),
        port: 22,
        user: "cx".to_string(),
        password: "pw".to_string(),
        valid,
    }
}

fn host(hostname: &str, ip: &str, groupname: &str) -> SessionInfo {
    SessionInfo {
        hostname: hostname.to_string(),
        ip: ip.to_string(),
        port: 22,
        user: "cx".to_string(),
        password: "pw".to_string(),
        groupname: groupname.to_string(),
    }
}

#[test]
fn directory_keeps_valid_members_of_valid_groups() {
    let web = Group::new(
        "web".to_string(),
        vec![member("host1", "10.0.0.1", true), member("host2", "10.0.0.2", false)],
        true,
    );
    let off = Group::new("off".to_string(), vec![member("host3", "10.0.0.3", true)], false);
    let server = Server::new(vec![web, off]);
    let hosts = server.valid_session_info().expect("one host is valid");
    assert_eq!(hosts, vec![host("host1", "10.0.0.1", "web")]);
}

#[test]
fn directory_keeps_the_order_of_groups_and_members() {
    let a = Group::new(
        "a".to_string(),
        vec![member("h1", "1.1.1.1", true), member("h2", "1.1.1.2", true)],
        true,
    );
    let b = Group::new("b".to_string(), vec![member("h3", "1.1.1.3", true)], true);
    let server = Server::new(vec![a, b]);
    let hosts = server.valid_session_info().expect("three hosts are valid");
    assert_eq!(
        hosts,
        vec![host("h1", "1.1.1.1", "a"), host("h2", "1.1.1.2", "a"), host("h3", "1.1.1.3", "b")]
    );
}

#[test]
fn group_lists_its_valid_members_under_its_name() {
    let group = Group::new(
        "db".to_string(),
        vec![member("h1", "1.1.1.1", false), member("h2", "1.1.1.2", true)],
        true,
    );
    assert!(group.valid());
    assert_eq!(group.valid_session_info(), Some(vec![host("h2", "1.1.1.2", "db")]));
}

#[test]
fn valid_group_without_valid_member_lists_nothing() {
    let group = Group::new("db".to_string(), vec![member("h1", "1.1.1.1", false)], true);
    assert_eq!(group.valid_session_info(), Some(vec![]));
}

#[test]
fn invalid_group_lists_no_member_at_all() {
    let group = Group::new("db".to_string(), vec![member("h1", "1.1.1.1", true)], false);
    assert!(!group.valid());
    assert_eq!(group.valid_session_info(), None);
}

#[test]
fn member_reports_its_own_flag() {
    assert!(member("h", "1.1.1.1", true).valid());
    assert!(!member("h", "1.1.1.1", false).valid());
}

#[test]
fn empty_directory_is_none_and_a_fatal_error() {
    let server = Server::new(vec![Group::new(
        "web".to_string(),
        vec![member("h1", "1.1.1.1", false)],
        true,
    )]);
    assert_eq!(server.valid_session_info(), None);
    assert!(matches!(host_directory(&server), Err(RunError::DirectoryEmpty)));
    assert!(matches!(targets(&server, &Selector::Everything), Err(RunError::DirectoryEmpty)));
    let nothing = Server::new(vec![]);
    assert_eq!(nothing.valid_session_info(), None);
}

#[test]
fn targets_are_the_selected_hosts_of_the_directory() {
    let web = Group::new(
        "web".to_string(),
        vec![member("host1", "10.0.0.1", true), member("host2", "10.0.0.2", true)],
        true,
    );
    let server = Server::new(vec![web]);
    let selector = Selector::parse(Some("host2")).expect("a valid pattern");
    let hosts = targets(&server, &selector).expect("the directory is not empty");
    assert_eq!(hosts, vec![host("host2", "10.0.0.2", "web")]);
    let none = Selector::parse(Some("nothing-like-this")).expect("a valid pattern");
    assert_eq!(targets(&server, &none).expect("the directory is not empty"), vec![]);
}

#[test]
fn template_configuration_has_one_group_with_one_member() {
    let template = Member::default();
    assert_eq!(
        template,
        Member {
            hostname: String::new(),
            ip: String::new(),
            port: 22,
            user: "cx".to_string(),
            password: "chaxun".to_string(),
            valid: true,
        }
    );
    let group = Group::default();
    assert!(group.valid());
    assert_eq!(
        group.valid_session_info(),
        Some(vec![SessionInfo {
            hostname: String::new(),
            ip: String::new(),
            port: 22,
            user: "cx".to_string(),
            password: "chaxun".to_string(),
            groupname: String::new(),
        }])
    );
    let server = Server::default();
    assert_eq!(server.valid_session_info().map(|hosts| hosts.len()), Some(1));
}

#[test]
fn copies_hold_the_same_values() {
    let group = Group::new("db".to_string(), vec![member("h2", "1.1.1.2", true)], true);
    let server = Server::new(vec![group.clone()]);
    assert_eq!(group.clone().valid_session_info(), group.valid_session_info());
    assert_eq!(server.clone().valid_session_info(), server.valid_session_info());
    let one = host("h", "1.1.1.1", "g");
    assert_eq!(one.clone(), one);
    let m = member("h", "1.1.1.1", true);
    assert_eq!(m.clone(), m);
}

#[test]
fn host_texts() {
    let mut one = host("host1", "10.0.0.1", "web");
    one.port = 2222;
    assert_eq!(one.hostname_ip(), "host1_10.0.0.1");
    assert_eq!(one.to_socket_addrs(), "10.0.0.1:2222");
    assert_eq!(one.describe(), "host1_10.0.0.1, port:2222, user:cx, password:pw");
    assert_eq!(one.home_buf_path(), "/home/cx");
    one.user = "root".to_string();
    assert_eq!(one.home_buf_path(), "/root");
    one.user = "rooter".to_string();
    assert_eq!(one.home_buf_path(), "/home/rooter");
    one.user = String::new();
    assert_eq!(one.home_buf_path(), "/home/");
}

#[test]
fn member_text() {
    let m = member("host1", "10.0.0.1", false);
    assert_eq!(
        m.describe(),
        "hostname:host1, ip:10.0.0.1, port:22, user:cx, password:pw, valid:false"
    );
    assert_eq!(
        Member::default().describe(),
        "hostname:, ip:, port:22, user:cx, password:chaxun, valid:true"
    );
}

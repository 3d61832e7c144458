use rssh_async::path::{append_path, file_name, path_is_absolute};

#[test]
fn absolute_paths_start_at_the_root() {
    assert!(path_is_absolute("/"));
    assert!(path_is_absolute("/etc/hosts"));
    assert!(!path_is_absolute(""));
    assert!(!path_is_absolute("etc/hosts"));
    assert!(!path_is_absolute("./x"));
}

#[test]
fn appending_puts_one_separator_between() {
    assert_eq!(append_path("/home/cx", "data"), "/home/cx/data");
    assert_eq!(append_path("/home/cx/", "data"), "/home/cx/data");
    assert_eq!(append_path("", "data"), "data");
    assert_eq!(append_path("/home/cx", ""), "/home/cx/");
    assert_eq!(append_path("/", "root"), "/root");
    assert_eq!(append_path("/home/cx", "/etc/hosts"), "/home/cx//etc/hosts");
}

#[test]
fn file_name_is_the_last_component() {
    assert_eq!(file_name("a.txt"), Some("a.txt".to_string()));
    assert_eq!(file_name("dir/a.txt"), Some("a.txt".to_string()));
    assert_eq!(file_name("/usr/bin/"), Some("bin".to_string()));
    assert_eq!(file_name("/usr/bin//"), Some("bin".to_string()));
    assert_eq!(file_name("tmp/foo.txt"), Some("foo.txt".to_string()));
    assert_eq!(file_name("foo.txt/."), Some("foo.txt".to_string()));
    assert_eq!(file_name("foo.txt/.//"), Some("foo.txt".to_string()));
    assert_eq!(file_name("../a"), Some("a".to_string()));
    assert_eq!(file_name("./a"), Some("a".to_string()));
    assert_eq!(file_name("..."), Some("...".to_string()));
    assert_eq!(file_name(".a"), Some(".a".to_string()));
    assert_eq!(file_name("a."), Some("a.".to_string()));
    assert_eq!(file_name("~/perf/res.nmon"), Some("res.nmon".to_string()));
}

#[test]
fn some_paths_have_no_file_name() {
    assert_eq!(file_name(""), None);
    assert_eq!(file_name("/"), None);
    assert_eq!(file_name("//"), None);
    assert_eq!(file_name("."), None);
    assert_eq!(file_name("./"), None);
    assert_eq!(file_name("./."), None);
    assert_eq!(file_name("/."), None);
    assert_eq!(file_name(".."), None);
    assert_eq!(file_name("foo.txt/.."), None);
    assert_eq!(file_name("a/../"), None);
    assert_eq!(file_name("a/.././"), None);
}

#[test]
fn file_name_agrees_with_the_standard_library_on_these_paths() {
    let paths = [
        "a.txt", "dir/a.txt", "/usr/bin/", "foo.txt/.", "foo.txt/.//", "foo.txt/..", "/", "",
        ".", "..", "./", "./a", "a/./b", "a//b", "a/b/../", "/a/.b", "...", "a/.../", "x/./.",
    ];
    for path in paths {
        let expected = std::path::Path::new(path)
            .file_name()
            .map(|name| name.to_string_lossy().into_owned());
        assert_eq!(file_name(path), expected, "for {:?}", path);
    }
}

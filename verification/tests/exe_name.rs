use fluxon_kv::exe_name::{current_exe_looks_like_fluxon_kv, current_exe_looks_like_python};
use std::path::Path;

#[test]
fn current_exe_name_helpers_detect_python_and_fluxon_kv() {
    assert!(current_exe_looks_like_python("/usr/bin/python3.11"));
    assert!(current_exe_looks_like_fluxon_kv(
        "/tmp/target/debug/fluxon_kv"
    ));
    assert!(!current_exe_looks_like_fluxon_kv(
        "/tmp/target/debug/python3"
    ));
}

fn python_by_std(path: &str) -> bool {
    Path::new(path)
        .file_name()
        .and_then(|name| name.to_str())
        .is_some_and(|name| name.to_ascii_lowercase().starts_with("python"))
}

fn fluxon_kv_by_std(path: &str) -> bool {
    Path::new(path)
        .file_stem()
        .and_then(|stem| stem.to_str())
        .is_some_and(|stem| stem == "fluxon_kv" || stem == "kv_test")
}

#[test]
fn names_are_read_as_the_standard_library_reads_paths() {
    let paths = [
        "",
        "/",
        ".",
        "..",
        "./",
        "python",
        "/opt/PyThOn3",
        "/opt/python/",
        "/opt/python/.",
        "/opt/python/..",
        "/opt/python//.//",
        "/opt/python/bin",
        "/opt/.python",
        "/opt/pytho",
        "fluxon_kv",
        "fluxon_kv.exe",
        "/a/fluxon_kv.tar.gz",
        "/a/kv_test.",
        "/a/kv_test-0123",
        "/a/.fluxon_kv",
        "/a/fluxon_kv/",
        "/a/fluxon_kv/../kv_test",
        "kv_test/..",
        "/a/\u{e9}python",
    ];
    for path in paths {
        assert_eq!(
            current_exe_looks_like_python(path),
            python_by_std(path),
            "python: {:?}",
            path
        );
        assert_eq!(
            current_exe_looks_like_fluxon_kv(path),
            fluxon_kv_by_std(path),
            "fluxon_kv: {:?}",
            path
        );
    }
}

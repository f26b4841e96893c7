use warpinator_lib::server::relative_name::is_outward;

/// Whether a relative name leads out of a destination where only slashes separate.
fn leaves(destination: &str, name: &str) -> bool {
    is_outward(destination, name, "unused", false)
}

/// Whether a name that starts at a root leads out of a destination where only slashes separate.
fn rooted_leaves(destination: &str, name: &str) -> bool {
    is_outward(destination, name, name, false)
}

#[test]
fn names_below_a_directory_stay_in_it() {
    for destination in ["/d", "/", "/a/b/", "d", ".", "", "../d", "/a/../d"] {
        for name in [
            "",
            ".",
            "a",
            "a/b.txt",
            "a/../b",
            "a/..",
            "a/b/../..",
            "./a/./b",
            "a//b",
            "a/",
            "v1..2.txt",
            "...",
            "..a",
            "a..",
            ".a/..b/...",
        ] {
            assert!(!leaves(destination, name), "{destination} {name}");
        }
    }
}

#[test]
fn names_that_end_above_lead_out() {
    for destination in ["/d", "/a/b/", "d", ".", "", "../d", ".."] {
        for name in ["..", "../x", "../", "./..", "a/../..", "a/../../x", "a//../..", "../../x"] {
            assert!(leaves(destination, name), "{destination} {name}");
        }
    }
}

#[test]
fn names_that_come_back_stay() {
    assert!(!leaves("/d", "../d/x"));
    assert!(!leaves("/d", "../d"));
    assert!(!leaves("/a/b", "../../a/b/c"));
    assert!(!leaves("/a/b", "x/../../b/c"));
    assert!(!leaves("d", "../d/x"));
    assert!(leaves("/d", "../e/x"));
    assert!(leaves("/a/b", "../../b/c"));
    assert!(leaves("/d", "../dx"));
    assert!(leaves("d", "../../d/x"));
}

#[test]
fn nothing_lies_above_a_root() {
    assert!(!leaves("/", "../x"));
    assert!(!leaves("/", "../.."));
    assert!(!leaves("/d", "../../d/x"));
}

#[test]
fn names_that_start_at_a_root_go_by_where_they_lead() {
    assert!(!rooted_leaves("/d", "/d/x"));
    assert!(!rooted_leaves("/d", "/d"));
    assert!(!rooted_leaves("/d/", "//d/./x"));
    assert!(!rooted_leaves("/", "/x"));
    assert!(!rooted_leaves("/d", "/e/../d/x"));
    assert!(rooted_leaves("/d", "/etc/x"));
    assert!(rooted_leaves("/d", "/"));
    assert!(rooted_leaves("/d", "/dx"));
    assert!(rooted_leaves("/d", "/d/../x"));
    assert!(rooted_leaves("d", "/d/x"));
}

#[test]
fn backslashes_separate_where_they_do() {
    assert!(!is_outward("C:\\a\\d", "../d/x", "", true));
    assert!(is_outward("C:\\a\\d", "../e", "", true));
    assert!(!is_outward("C:\\", "../x", "", true));
    assert!(is_outward("C:", "../x", "", true));
    assert!(!is_outward("C:\\d", "/d/x", "C:/d/x", true));
    assert!(is_outward("C:\\d", "/e/x", "C:/e/x", true));
    assert!(!is_outward("\\\\host\\share", "x", "", true));
    assert!(!is_outward("\\\\host\\share\\d", "/d/x", "\\\\host\\share/d/x", true));
    assert!(is_outward("\\\\host\\share\\d", "../x", "", true));
    assert!(is_outward("a\\d", "../d/x", "", false));
}

use moj_archive::path::{bytes_eq, join_path, path_is_under, path_is_under_any, str_eq};

#[test]
fn bytes_eq_compares_contents() {
    assert!(bytes_eq(b"", b""));
    assert!(bytes_eq(b"src", b"src"));
    assert!(!bytes_eq(b"src", b"srd"));
    assert!(!bytes_eq(b"src", b"sr"));
    assert!(!bytes_eq(b"", b"a"));
}

#[test]
fn str_eq_compares_texts() {
    assert!(str_eq("snapshot", "snapshot"));
    assert!(!str_eq("snapshot", "release"));
    assert!(str_eq("caf\u{e9}", "caf\u{e9}"));
    assert!(!str_eq("caf\u{e9}", "cafe"));
}

#[test]
fn a_path_is_under_itself_and_under_its_parents() {
    assert!(path_is_under(b"src", b"src"));
    assert!(path_is_under(b"src/a", b"src"));
    assert!(path_is_under(b"src/net/minecraft/A.java", b"src"));
    assert!(path_is_under(b"src/net/minecraft/A.java", b"src/net"));
}

#[test]
fn a_prefix_of_a_name_is_not_a_parent() {
    assert!(!path_is_under(b"srcs", b"src"));
    assert!(!path_is_under(b"srcs/a", b"src"));
    assert!(!path_is_under(b"sr", b"src"));
    assert!(!path_is_under(b"libraries.txt.bak", b"libraries.txt"));
    assert!(!path_is_under(b"", b"src"));
}

#[test]
fn everything_absolute_is_under_the_empty_root() {
    assert!(path_is_under(b"", b""));
    assert!(path_is_under(b"/a", b""));
    assert!(!path_is_under(b"a", b""));
}

#[test]
fn under_any_looks_at_every_root() {
    let roots = vec!["src".to_string(), "libraries.txt".to_string()];
    assert!(path_is_under_any(b"src/A.java", &roots));
    assert!(path_is_under_any(b"libraries.txt", &roots));
    assert!(!path_is_under_any(b"README", &roots));
    assert!(!path_is_under_any(b"src", &Vec::new()));
}

#[test]
fn join_puts_one_separator_between() {
    assert_eq!(join_path(b"src", b"a/B.java"), b"src/a/B.java".to_vec());
    assert_eq!(join_path(b"src/", b"a/B.java"), b"src/a/B.java".to_vec());
    assert_eq!(join_path(b"", b"a/B.java"), b"a/B.java".to_vec());
    assert_eq!(join_path(b"src", b""), b"src/".to_vec());
}

#[test]
fn what_is_joined_below_a_root_is_under_it() {
    let roots: [&[u8]; 3] = [b"src", b"libraries.txt", b"a/b"];
    let relatives: [&[u8]; 4] = [b"x", b"x/y", b"", b"src"];
    for root in roots {
        for relative in relatives {
            assert!(path_is_under(&join_path(root, relative), root));
        }
    }
}

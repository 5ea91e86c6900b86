use nest_editor::paths::{file_name, join_path};
use nest_editor::user_project::UserProject;

#[test]
fn file_name_takes_the_last_component() {
    assert_eq!(file_name("examples/example_bevy_project"), Some("example_bevy_project"));
    assert_eq!(file_name("foo.txt/."), Some("foo.txt"));
    assert_eq!(file_name("a//"), Some("a"));
    assert_eq!(file_name("./a/./"), Some("a"));
    assert_eq!(file_name("..a"), Some("..a"));
    assert_eq!(file_name("dir/ünï"), Some("ünï"));
}

#[test]
fn file_name_has_none_for_root_dot_and_parent() {
    assert_eq!(file_name(""), None);
    assert_eq!(file_name("/"), None);
    assert_eq!(file_name("."), None);
    assert_eq!(file_name("foo/.."), None);
    assert_eq!(file_name(".."), None);
}

#[test]
fn file_name_agrees_with_std_path() {
    for p in ["a/b", "a/b/", "/x/./", "x/..", "", ".", "/", "q/.hidden", "a/.b/."] {
        let std_name = std::path::Path::new(p).file_name().map(|s| s.to_str().unwrap());
        assert_eq!(file_name(p), std_name, "{}", p);
    }
}

#[test]
fn join_puts_one_separator() {
    assert_eq!(join_path("/abs", "target/debug/"), "/abs/target/debug/");
    assert_eq!(join_path("/abs/", "x"), "/abs/x");
    assert_eq!(join_path("", "x"), "x");
    assert_eq!(join_path("a", "/b"), "/b");
}

#[test]
fn join_agrees_with_std_pathbuf() {
    for (a, b) in [("/abs", "target/debug/"), ("/abs/", "x"), ("", "x"), ("a", "/b"), ("a/b", "c")] {
        let std_joined = std::path::Path::new(a).join(b).to_str().unwrap().to_string();
        assert_eq!(join_path(a, b), std_joined);
    }
}

#[test]
fn project_name_and_library_path() {
    let p = UserProject::new("examples/example_bevy_project".to_string());
    assert_eq!(p.project_path(), "examples/example_bevy_project");
    assert_eq!(p.project_name(), "example_bevy_project");
    assert_eq!(
        p.generated_dylib_path("/home/u/nest/examples/example_bevy_project"),
        "/home/u/nest/examples/example_bevy_project/target/debug/libexample_bevy_project.dylib"
    );
    let q = p.clone();
    assert_eq!(q.project_name(), "example_bevy_project");
}

#[test]
fn temp_path_with_a_given_id() {
    let p = UserProject::new("game".to_string());
    assert_eq!(p.temp_lib_path_with_id("/tmp", "id"), "/tmp/libgame_id.dylib");
}

fn is_uuid_v4(s: &str) -> bool {
    let c: Vec<char> = s.chars().collect();
    c.len() == 36
        && c.iter().enumerate().all(|(i, ch)| {
            if [8, 13, 18, 23].contains(&i) {
                *ch == '-'
            } else {
                ch.is_ascii_digit() || ('a'..='f').contains(ch)
            }
        })
        && c[14] == '4'
        && "89ab".contains(c[19])
}

#[test]
fn temp_path_carries_a_fresh_uuid() {
    let p = UserProject::new("game".to_string());
    let a = p.temp_lib_path("/tmp");
    let b = p.temp_lib_path("/tmp");
    assert!(a.starts_with("/tmp/libgame_"));
    assert!(a.ends_with(".dylib"));
    let id = &a["/tmp/libgame_".len()..a.len() - ".dylib".len()];
    assert!(is_uuid_v4(id), "{}", id);
    assert_ne!(a, b);
}

#[test]
fn library_paths_end_in_the_library_file_name() {
    let p = UserProject::new("games/space".to_string());
    let built = p.generated_dylib_path("/w/games/space");
    assert_eq!(file_name(&built), Some("libspace.dylib"));
    let moved = p.temp_lib_path("/tmp/x");
    let name = file_name(&moved).unwrap();
    assert!(name.starts_with("libspace_") && name.ends_with(".dylib"));
    assert_eq!(moved, format!("/tmp/x/{}", name));
}

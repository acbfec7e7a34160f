use egreet::path::file_stem_of;
use egreet::search::{session_pattern, split_dirs, SESSION_FILES};
use egreet::text::chars_of;
use std::path::Path;

fn stem(path: &str) -> Option<String> {
    file_stem_of(path)
}

#[test]
fn stem_drops_directories_and_extension() {
    assert_eq!(stem("/usr/share/xsessions/gnome.desktop"), Some("gnome".to_string()));
    assert_eq!(stem("gnome.desktop"), Some("gnome".to_string()));
    assert_eq!(stem("./plasma.desktop"), Some("plasma".to_string()));
    assert_eq!(stem("a/b/c"), Some("c".to_string()));
}

#[test]
fn stem_drops_the_last_extension_only() {
    assert_eq!(stem("/s/gnome.wayland.desktop"), Some("gnome.wayland".to_string()));
    assert_eq!(stem("archive.tar.gz"), Some("archive.tar".to_string()));
    assert_eq!(stem("name."), Some("name".to_string()));
    assert_eq!(stem("a..b"), Some("a.".to_string()));
}

#[test]
fn hidden_file_keeps_its_dot() {
    assert_eq!(stem("/home/u/.desktop"), Some(".desktop".to_string()));
    assert_eq!(stem(".hidden.desktop"), Some(".hidden".to_string()));
    assert_eq!(stem("..."), Some("..".to_string()));
}

#[test]
fn idle_endings_do_not_count() {
    assert_eq!(stem("/s/gnome.desktop/"), Some("gnome".to_string()));
    assert_eq!(stem("/s/gnome.desktop//"), Some("gnome".to_string()));
    assert_eq!(stem("/s/gnome.desktop/."), Some("gnome".to_string()));
    assert_eq!(stem("/s/gnome.desktop/./."), Some("gnome".to_string()));
    assert_eq!(stem("/s//gnome.desktop"), Some("gnome".to_string()));
}

#[test]
fn some_paths_name_no_file() {
    assert_eq!(stem(""), None);
    assert_eq!(stem("/"), None);
    assert_eq!(stem("//"), None);
    assert_eq!(stem("."), None);
    assert_eq!(stem("./"), None);
    assert_eq!(stem("/."), None);
    assert_eq!(stem(".."), None);
    assert_eq!(stem("a/.."), None);
    assert_eq!(stem("a/../"), None);
}

#[test]
fn stem_counts_characters_not_bytes() {
    assert_eq!(stem("/s/f\u{00fc}r.desktop"), Some("f\u{00fc}r".to_string()));
    assert_eq!(stem("/\u{65e5}\u{672c}/\u{8a9e}.\u{00e9}"), Some("\u{8a9e}".to_string()));
}

#[test]
fn stem_agrees_with_std_paths() {
    let samples = [
        "", "/", "//", ".", "..", "./", "/.", "a", "a/", "a/.", "a/..", "a/../", "a/b", "a//b",
        "a/./b", "a/b/./", ".a", ".a.b", "a.", "a.b", "a.b.c", "a..b", "...", "..a", "/x/.y/",
        "./.", "x/./.", "/usr/share/xsessions/gnome.desktop", "b/.desktop", "c/d.e/f",
    ];
    for path in samples {
        let expected = Path::new(path).file_stem().map(|s| s.to_str().unwrap().to_string());
        assert_eq!(stem(path), expected, "{:?}", path);
    }
}

#[test]
fn splits_the_default_directories() {
    assert_eq!(
        split_dirs("/usr/share/xsessions:/usr/share/wayland-sessions"),
        vec!["/usr/share/xsessions".to_string(), "/usr/share/wayland-sessions".to_string()]
    );
}

#[test]
fn one_directory_is_a_list_of_one() {
    assert_eq!(split_dirs("/usr/share/xsessions"), vec!["/usr/share/xsessions".to_string()]);
    assert_eq!(split_dirs(""), vec![String::new()]);
}

#[test]
fn empty_pieces_are_kept() {
    assert_eq!(split_dirs(":"), vec![String::new(), String::new()]);
    assert_eq!(split_dirs("a:"), vec!["a".to_string(), String::new()]);
    assert_eq!(split_dirs(":a"), vec![String::new(), "a".to_string()]);
    assert_eq!(
        split_dirs("a::b"),
        vec!["a".to_string(), String::new(), "b".to_string()]
    );
}

#[test]
fn split_agrees_with_std_split() {
    for list in ["", ":", "a", "a:b", "a:b:c", "::", ":a:", "/x y/z:\u{00e9}:/w"] {
        let expected: Vec<String> = list.split(':').map(|d| d.to_string()).collect();
        assert_eq!(split_dirs(list), expected, "{:?}", list);
    }
}

#[test]
fn pattern_matches_desktop_files_of_a_directory() {
    assert_eq!(SESSION_FILES, "/*.desktop");
    assert_eq!(session_pattern("/usr/share/xsessions"), "/usr/share/xsessions/*.desktop");
    assert_eq!(session_pattern(""), "/*.desktop");
}

#[test]
fn chars_are_listed_in_order() {
    assert_eq!(chars_of(""), Vec::<char>::new());
    assert_eq!(chars_of("a\u{00e9}z"), vec!['a', '\u{00e9}', 'z']);
}

use runner::scripts::paths::{
    file_extension, join, path_components, path_extension, path_file_name, path_parent_name,
};
use runner::text::{
    append_text, bytes_eq, bytes_le, copy_texts, insert_text, sort_texts, str_eq, str_le,
};

fn texts(items: &[&str]) -> Vec<String> {
    items.iter().map(|s| s.to_string()).collect()
}

#[test]
fn components_skip_empty_and_dot_parts() {
    assert_eq!(path_components("scripts/debian/git.sh"), texts(&["scripts", "debian", "git.sh"]));
    assert_eq!(path_components("a//b/./c.sh"), texts(&["a", "b", "c.sh"]));
    assert_eq!(path_components("/abs/x"), texts(&["abs", "x"]));
    assert_eq!(path_components("a/b/"), texts(&["a", "b"]));
    assert_eq!(path_components("./a"), texts(&["a"]));
    assert_eq!(path_components("../scripts"), texts(&["..", "scripts"]));
    assert!(path_components("").is_empty());
    assert!(path_components("/").is_empty());
    assert!(path_components(".").is_empty());
}

#[test]
fn components_keep_characters_outside_ascii() {
    assert_eq!(path_components("büro/für/ü.sh"), texts(&["büro", "für", "ü.sh"]));
}

#[test]
fn file_name_is_the_last_component() {
    assert_eq!(path_file_name("scripts/debian/git.sh"), Some("git.sh".to_string()));
    assert_eq!(path_file_name("git.sh"), Some("git.sh".to_string()));
    assert_eq!(path_file_name("a/b/"), Some("b".to_string()));
    assert_eq!(path_file_name("a/b/."), Some("b".to_string()));
    assert_eq!(path_file_name("a/.."), None);
    assert_eq!(path_file_name(".."), None);
    assert_eq!(path_file_name("/"), None);
    assert_eq!(path_file_name(""), None);
}

#[test]
fn parent_name_is_the_component_before_the_last() {
    assert_eq!(path_parent_name("scripts/debian/git.sh"), Some("debian".to_string()));
    assert_eq!(path_parent_name("scripts/git.sh"), Some("scripts".to_string()));
    assert_eq!(path_parent_name("git.sh"), None);
    assert_eq!(path_parent_name("./git.sh"), None);
    assert_eq!(path_parent_name("/git.sh"), None);
    assert_eq!(path_parent_name("../git.sh"), None);
    assert_eq!(path_parent_name("a/../git.sh"), None);
    assert_eq!(path_parent_name("a/b/.."), Some("b".to_string()));
}

#[test]
fn extension_follows_the_last_dot() {
    assert_eq!(file_extension("git.sh"), Some("sh".to_string()));
    assert_eq!(file_extension("setup.ps1"), Some("ps1".to_string()));
    assert_eq!(file_extension("archive.tar.sh"), Some("sh".to_string()));
    assert_eq!(file_extension("name."), Some(String::new()));
    assert_eq!(file_extension("..."), Some(String::new()));
    assert_eq!(file_extension(".sh"), None);
    assert_eq!(file_extension("README"), None);
    assert_eq!(file_extension(""), None);
}

#[test]
fn extension_of_a_path_is_that_of_its_file_name() {
    assert_eq!(path_extension("scripts/unix/tools/vim.sh"), Some("sh".to_string()));
    assert_eq!(path_extension("scripts.d/readme"), None);
    assert_eq!(path_extension("scripts/x.sh/"), Some("sh".to_string()));
    assert_eq!(path_extension("scripts/.."), None);
}

#[test]
fn join_puts_one_separator_between() {
    assert_eq!(join("../scripts", "unix"), "../scripts/unix");
    assert_eq!(join("", "x"), "/x");
    assert_eq!(append_text("ab", "cd"), "abcd");
}

#[test]
fn texts_compare_as_their_bytes() {
    assert!(str_eq("git.sh", "git.sh"));
    assert!(!str_eq("git.sh", "git.sH"));
    assert!(!str_eq("git", "git.sh"));
    assert!(str_le("a", "b"));
    assert!(!str_le("b", "a"));
    assert!(str_le("a", "a"));
    assert!(str_le("a", "ab"));
    assert!(!str_le("ab", "a"));
    assert!(str_le("", "a"));
    assert!(str_le("Z", "a"));
    assert!(str_le("z", "ü"));
    assert!(bytes_le(&[1, 2], &[1, 3]));
    assert!(!bytes_le(&[2], &[1, 9]));
    assert!(bytes_eq(&[], &[]));
    assert!(!bytes_eq(&[1], &[1, 1]));
}

#[test]
fn text_order_agrees_with_the_order_of_str() {
    let samples = ["", "a", "ab", "b", "B", "git.sh", "git.sh.bak", "é", "zz", "ü.sh"];
    for a in samples {
        for b in samples {
            assert_eq!(str_le(a, b), a <= b);
            assert_eq!(str_eq(a, b), a == b);
        }
    }
}

#[test]
fn texts_are_sorted_and_keep_their_number() {
    assert_eq!(
        sort_texts(&texts(&["zsh.sh", "git.sh", "apt.sh", "git.sh", "Git.sh", ""])),
        texts(&["", "Git.sh", "apt.sh", "git.sh", "git.sh", "zsh.sh"])
    );
    assert!(sort_texts(&Vec::new()).is_empty());
    let mut sorted = texts(&["a", "c"]);
    insert_text(&mut sorted, "b".to_string());
    insert_text(&mut sorted, "a".to_string());
    insert_text(&mut sorted, "d".to_string());
    assert_eq!(sorted, texts(&["a", "a", "b", "c", "d"]));
    let mut expected = texts(&["ü", "b", "a", "ab", "B"]);
    expected.sort();
    assert_eq!(sort_texts(&texts(&["ü", "b", "a", "ab", "B"])), expected);
    assert_eq!(copy_texts(&texts(&["x", "y"])), texts(&["x", "y"]));
}

use runner::scripts::collector::{
    collect_os_specific_scripts, collect_root_scripts, collect_scripts, collect_scripts_below,
    collect_unix_scripts, has_directory, is_entry_at_or_below, is_entry_below,
    is_root_level_entry, locate, os_specific_directory, path_has_extension, resolve_scripts_dir,
    unix_directory, DirectoryListing,
};
use runner::host::{resolve_os_script_directory, HostOs, OsFamily, UnsupportedOs};
use runner::scripts::order::{insert_script, script_before, sort_name_of, sort_scripts};
use runner::scripts::paths::path_components;

fn texts(items: &[&str]) -> Vec<String> {
    items.iter().map(|s| s.to_string()).collect()
}

fn listing(items: &[&str]) -> DirectoryListing {
    DirectoryListing { readable: true, entries: texts(items) }
}

fn collected(root: &str, items: &[&str], os: HostOs) -> Vec<String> {
    match collect_scripts(Some(root), &listing(items), os) {
        Ok(c) => c.scripts,
        Err(_) => panic!("the listing is readable"),
    }
}

const TREE: [&str; 8] = [
    "scripts/root.sh",
    "scripts/unix",
    "scripts/debian",
    "scripts/darwin",
    "scripts/unix/u.sh",
    "scripts/debian/d.sh",
    "scripts/darwin/m.sh",
    "scripts/notes.txt",
];

#[test]
fn debian_host_takes_root_unix_and_debian_scripts() {
    assert_eq!(
        collected("scripts", &TREE, HostOs::Debian),
        texts(&["scripts/debian/d.sh", "scripts/root.sh", "scripts/unix/u.sh"])
    );
}

#[test]
fn every_debian_derivative_takes_the_debian_scripts() {
    for os in [HostOs::Ubuntu, HostOs::Pop, HostOs::Raspbian, HostOs::Kali, HostOs::Debian] {
        assert_eq!(
            collected("scripts", &TREE, os),
            texts(&["scripts/debian/d.sh", "scripts/root.sh", "scripts/unix/u.sh"])
        );
    }
}

#[test]
fn macos_host_takes_the_darwin_scripts() {
    assert_eq!(
        collected("scripts", &TREE, HostOs::Macos),
        texts(&["scripts/darwin/m.sh", "scripts/root.sh", "scripts/unix/u.sh"])
    );
}

#[test]
fn windows_host_leaves_root_shell_scripts_and_takes_powershell() {
    let items = [
        "scripts/root.sh",
        "scripts/setup.ps1",
        "scripts/unix/u.sh",
        "scripts/windows/w.sh",
        "scripts/windows/w.ps1",
    ];
    assert_eq!(
        collected("scripts", &items, HostOs::Windows),
        texts(&["scripts/setup.ps1", "scripts/windows/w.sh"])
    );
    assert_eq!(
        collected("scripts", &items, HostOs::Alpine),
        texts(&["scripts/root.sh", "scripts/setup.ps1", "scripts/unix/u.sh"])
    );
}

#[test]
fn unsupported_host_takes_root_scripts_only() {
    let items = [
        "scripts/z.sh",
        "scripts/setup.ps1",
        "scripts/a.sh",
        "scripts/unix/u.sh",
        "scripts/debian/d.sh",
    ];
    let result = collect_scripts(Some("scripts"), &listing(&items), HostOs::Other);
    match result {
        Ok(c) => {
            assert_eq!(c.scripts, texts(&["scripts/a.sh", "scripts/setup.ps1", "scripts/z.sh"]));
            assert!(c.unsupported_os);
            assert!(!c.missing_os_directory);
        }
        Err(_) => panic!("an unsupported host is no failure"),
    }
    assert_eq!(unix_directory("scripts", HostOs::Other), None);
    assert_eq!(os_specific_directory("scripts", HostOs::Other), None);
}

#[test]
fn unreadable_directory_is_the_only_failure() {
    let unreadable = DirectoryListing { readable: false, entries: Vec::new() };
    match collect_scripts(Some("nowhere"), &unreadable, HostOs::Debian) {
        Ok(_) => panic!("the directory could not be read"),
        Err(e) => assert_eq!(e.dir, "nowhere"),
    }
    match collect_scripts(None, &unreadable, HostOs::Other) {
        Ok(_) => panic!("the directory could not be read"),
        Err(e) => assert_eq!(e.dir, "../scripts"),
    }
    let empty = DirectoryListing { readable: true, entries: Vec::new() };
    match collect_scripts(None, &empty, HostOs::Debian) {
        Ok(c) => {
            assert!(c.scripts.is_empty());
            assert!(!c.unsupported_os);
            assert!(c.missing_os_directory);
        }
        Err(_) => panic!("an empty directory is no failure"),
    }
}

#[test]
fn missing_family_directory_is_noted() {
    let without = ["scripts/root.sh", "scripts/unix", "scripts/unix/u.sh"];
    match collect_scripts(Some("scripts"), &listing(&without), HostOs::Macos) {
        Ok(c) => {
            assert_eq!(c.scripts, texts(&["scripts/root.sh", "scripts/unix/u.sh"]));
            assert!(c.missing_os_directory);
            assert!(!c.unsupported_os);
        }
        Err(_) => panic!("a missing family directory is no failure"),
    }
    let with_empty = ["scripts/root.sh", "scripts/darwin"];
    match collect_scripts(Some("scripts"), &listing(&with_empty), HostOs::Macos) {
        Ok(c) => assert!(!c.missing_os_directory),
        Err(_) => panic!("the listing is readable"),
    }
}

#[test]
fn default_directory_is_used_where_none_is_given() {
    assert_eq!(resolve_scripts_dir(None), "../scripts");
    assert_eq!(resolve_scripts_dir(Some("/opt/s")), "/opt/s");
    let items = ["../scripts/a.sh", "../scripts/debian/b.sh", "scripts/c.sh"];
    match collect_scripts(None, &listing(&items), HostOs::Debian) {
        Ok(c) => assert_eq!(c.scripts, texts(&["../scripts/a.sh", "../scripts/debian/b.sh"])),
        Err(_) => panic!("the listing is readable"),
    }
}

#[test]
fn scripts_are_sorted_by_file_name_then_by_path() {
    let items = [
        "scripts/unix/zsh.sh",
        "scripts/git.sh",
        "scripts/debian/git.sh",
        "scripts/unix/git.sh",
        "scripts/debian/apt.sh",
        "scripts/unix/deep/er/curl.sh",
    ];
    assert_eq!(
        collected("scripts", &items, HostOs::Ubuntu),
        texts(&[
            "scripts/debian/apt.sh",
            "scripts/unix/deep/er/curl.sh",
            "scripts/debian/git.sh",
            "scripts/git.sh",
            "scripts/unix/git.sh",
            "scripts/unix/zsh.sh",
        ])
    );
}

#[test]
fn the_order_of_the_entries_does_not_matter() {
    let forwards = [
        "scripts/b.sh",
        "scripts/unix/a.sh",
        "scripts/debian/a.sh",
        "scripts/debian/c.sh",
        "scripts/a.sh",
    ];
    let mut backwards = forwards;
    backwards.reverse();
    let first = collected("scripts", &forwards, HostOs::Debian);
    assert_eq!(first, collected("scripts", &backwards, HostOs::Debian));
    assert_eq!(first, collected("scripts", &forwards, HostOs::Debian));
    assert_eq!(
        first,
        texts(&[
            "scripts/a.sh",
            "scripts/debian/a.sh",
            "scripts/unix/a.sh",
            "scripts/b.sh",
            "scripts/debian/c.sh",
        ])
    );
}

#[test]
fn an_entry_that_was_found_twice_is_taken_once() {
    let items = ["scripts/a.sh", "scripts/unix/u.sh", "scripts/a.sh", "scripts/unix/u.sh"];
    assert_eq!(
        collected("scripts", &items, HostOs::Alpine),
        texts(&["scripts/a.sh", "scripts/unix/u.sh"])
    );
}

#[test]
fn the_root_may_be_written_in_more_than_one_way() {
    let items = ["./scripts/a.sh", "scripts//debian/b.sh", "other/c.sh", "scripts"];
    assert_eq!(
        collected("scripts/", &items, HostOs::Debian),
        texts(&["./scripts/a.sh", "scripts//debian/b.sh"])
    );
}

#[test]
fn only_the_extension_makes_a_script() {
    let items = [
        "scripts/a.SH",
        "scripts/b.sh.bak",
        "scripts/.sh",
        "scripts/c.ps1",
        "scripts/unix/d.ps1",
        "scripts/unix/e.sh",
        "scripts/sh",
    ];
    assert_eq!(
        collected("scripts", &items, HostOs::Debian),
        texts(&["scripts/c.ps1", "scripts/unix/e.sh"])
    );
}

#[test]
fn directories_to_walk_follow_the_host() {
    assert_eq!(unix_directory("s", HostOs::Debian), Some("s/unix".to_string()));
    assert_eq!(unix_directory("s", HostOs::Macos), Some("s/unix".to_string()));
    assert_eq!(unix_directory("s", HostOs::Windows), None);
    assert_eq!(os_specific_directory("s", HostOs::Kali), Some("s/debian".to_string()));
    assert_eq!(os_specific_directory("s", HostOs::Macos), Some("s/darwin".to_string()));
    assert_eq!(os_specific_directory("s", HostOs::Alpine), Some("s/alpine".to_string()));
    assert_eq!(os_specific_directory("s", HostOs::Windows), Some("s/windows".to_string()));
}

#[test]
fn host_families() {
    assert_eq!(HostOs::Ubuntu.os_family(), Some(OsFamily::Debian));
    assert_eq!(HostOs::Pop.os_family(), Some(OsFamily::Debian));
    assert_eq!(HostOs::Raspbian.os_family(), Some(OsFamily::Debian));
    assert_eq!(HostOs::Kali.os_family(), Some(OsFamily::Debian));
    assert_eq!(HostOs::Debian.os_family(), Some(OsFamily::Debian));
    assert_eq!(HostOs::Macos.os_family(), Some(OsFamily::Darwin));
    assert_eq!(HostOs::Alpine.os_family(), Some(OsFamily::Alpine));
    assert_eq!(HostOs::Windows.os_family(), Some(OsFamily::Windows));
    assert_eq!(HostOs::Other.os_family(), None);
    assert!(HostOs::Windows.windows());
    assert!(!HostOs::Debian.windows());
    assert_eq!(OsFamily::Darwin.dir_name(), "darwin");
    assert_eq!(resolve_os_script_directory(HostOs::Pop), Ok("debian".to_string()));
    assert_eq!(resolve_os_script_directory(HostOs::Windows), Ok("windows".to_string()));
    assert_eq!(
        resolve_os_script_directory(HostOs::Other),
        Err(UnsupportedOs { os: HostOs::Other })
    );
}

#[test]
fn entries_are_placed_by_their_components() {
    let root = path_components("../scripts");
    assert_eq!(locate(&root, "../scripts/unix/a.sh"), Some(texts(&["unix", "a.sh"])));
    assert_eq!(locate(&root, "../scripts"), Some(Vec::new()));
    assert_eq!(locate(&root, "scripts/unix/a.sh"), None);
    assert_eq!(locate(&root, ".."), None);
    assert!(is_root_level_entry(&root, "../scripts/a.sh"));
    assert!(!is_root_level_entry(&root, "../scripts/unix/a.sh"));
    assert!(!is_root_level_entry(&root, "../scripts"));
    assert!(is_entry_below(&root, "unix", "../scripts/unix/a.sh"));
    assert!(is_entry_below(&root, "unix", "../scripts/unix/x/y/a.sh"));
    assert!(!is_entry_below(&root, "unix", "../scripts/unix"));
    assert!(!is_entry_below(&root, "unix", "../scripts/unixes/a.sh"));
    assert!(is_entry_at_or_below(&root, "unix", "../scripts/unix"));
    assert!(!is_entry_at_or_below(&root, "unix", "../scripts/a.sh"));
    assert!(path_has_extension("a/b.sh", "sh"));
    assert!(!path_has_extension("a/b.sh", "ps1"));
    assert!(!path_has_extension("a/b", "sh"));
    assert!(has_directory(&root, &texts(&["../scripts/debian"]), "debian"));
    assert!(!has_directory(&root, &texts(&["../scripts/debian.sh"]), "debian"));
}

#[test]
fn each_area_is_collected_in_the_order_of_the_entries() {
    let root = path_components("scripts");
    let entries = texts(&[
        "scripts/z.sh",
        "scripts/unix/b.sh",
        "scripts/a.ps1",
        "scripts/unix/a.sh",
        "scripts/debian/x.sh",
        "scripts/a.sh",
    ]);
    assert_eq!(
        collect_root_scripts(&root, &entries, false),
        texts(&["scripts/z.sh", "scripts/a.ps1", "scripts/a.sh"])
    );
    assert_eq!(collect_root_scripts(&root, &entries, true), texts(&["scripts/a.ps1"]));
    assert_eq!(
        collect_scripts_below(&root, &entries, "unix"),
        texts(&["scripts/unix/b.sh", "scripts/unix/a.sh"])
    );
    assert_eq!(
        collect_unix_scripts("scripts", &entries),
        texts(&["scripts/unix/b.sh", "scripts/unix/a.sh"])
    );
    assert_eq!(
        collect_os_specific_scripts("scripts", &entries, "debian"),
        texts(&["scripts/debian/x.sh"])
    );
    assert!(collect_os_specific_scripts("scripts", &entries, "darwin").is_empty());
}

#[test]
fn sorting_keeps_each_script_once() {
    let scripts = texts(&["s/b.sh", "s/x/a.sh", "s/a.sh", "s/b.sh", "t/a.sh"]);
    assert_eq!(sort_scripts(&scripts), texts(&["s/a.sh", "s/x/a.sh", "t/a.sh", "s/b.sh"]));
    let mut sorted = texts(&["s/a.sh", "s/c.sh"]);
    insert_script(&mut sorted, "s/b.sh".to_string());
    insert_script(&mut sorted, "s/c.sh".to_string());
    insert_script(&mut sorted, "a/d.sh".to_string());
    assert_eq!(sorted, texts(&["s/a.sh", "s/b.sh", "s/c.sh", "a/d.sh"]));
    assert!(script_before("z/a.sh", "a/b.sh"));
    assert!(!script_before("a/b.sh", "z/a.sh"));
    assert!(script_before("a/x.sh", "b/x.sh"));
    assert!(script_before("a/x.sh", "a/x.sh"));
    assert_eq!(sort_name_of("a/b/c.sh"), "c.sh");
    assert_eq!(sort_name_of(".."), "");
}

use std::cell::RefCell;

use prjfs::conv::{WStr, WStrExt};
use prjfs::dirinfo::{BasicInfo, DirEntry};
use prjfs::regop::{
    components, is_separator, is_virtualization_root, join_from, value_range, Component, Hive,
    KeyContent, KeyLocation, RegEntires, RegEntry, RegOps,
};

fn text(w: &WStr) -> String {
    String::from_utf16(&w.as_slice()[..w.len()]).unwrap()
}

fn parts(path: &str) -> Vec<String> {
    components(&path.to_wstr())
        .iter()
        .map(|part| match part {
            Component::RootDir => "<root>".to_string(),
            Component::CurDir => "<cur>".to_string(),
            Component::ParentDir => "<parent>".to_string(),
            Component::Normal(name) => text(name),
        })
        .collect()
}

fn located(ops: &RegOps, path: &str) -> Option<(Hive, String)> {
    ops.locate(&path.to_wstr()).map(|location| (location.hive, text(&location.subkey)))
}

#[test]
fn both_slashes_separate() {
    assert!(is_separator(0x5C));
    assert!(is_separator(0x2F));
    assert!(!is_separator(0x2E));
    assert!(!is_separator(0));
    assert!(!is_separator(0x61));
}

#[test]
fn a_path_is_taken_apart_at_its_separators() {
    assert_eq!(parts("a\\b\\c"), vec!["a", "b", "c"]);
    assert_eq!(parts("a/b\\c"), vec!["a", "b", "c"]);
    assert_eq!(parts("HKEY_USERS"), vec!["HKEY_USERS"]);
    assert_eq!(parts(""), Vec::<String>::new());
}

#[test]
fn separators_in_a_row_or_at_the_end_count_once_or_not_at_all() {
    assert_eq!(parts("a\\\\b"), vec!["a", "b"]);
    assert_eq!(parts("a\\b\\"), vec!["a", "b"]);
    assert_eq!(parts("a\\/\\b//"), vec!["a", "b"]);
}

#[test]
fn a_leading_separator_is_the_root() {
    assert_eq!(parts("\\"), vec!["<root>"]);
    assert_eq!(parts("\\a\\b"), vec!["<root>", "a", "b"]);
    assert_eq!(parts("/a"), vec!["<root>", "a"]);
    assert_eq!(parts("\\\\a"), vec!["<root>", "a"]);
}

#[test]
fn a_dot_counts_only_at_the_beginning() {
    assert_eq!(parts("."), vec!["<cur>"]);
    assert_eq!(parts(".\\a"), vec!["<cur>", "a"]);
    assert_eq!(parts("a\\.\\b"), vec!["a", "b"]);
    assert_eq!(parts("a\\b\\."), vec!["a", "b"]);
    assert_eq!(parts("\\.\\a"), vec!["<root>", "a"]);
    assert_eq!(parts(".a\\b."), vec![".a", "b."]);
}

#[test]
fn two_dots_are_the_parent_wherever_they_stand() {
    assert_eq!(parts(".."), vec!["<parent>"]);
    assert_eq!(parts("a\\..\\b"), vec!["a", "<parent>", "b"]);
    assert_eq!(parts("\\.."), vec!["<root>", "<parent>"]);
    assert_eq!(parts("..."), vec!["..."]);
}

#[test]
fn the_root_is_the_empty_path_or_one_that_begins_with_a_separator() {
    assert!(is_virtualization_root(&"".to_wstr()));
    assert!(is_virtualization_root(&"\\".to_wstr()));
    assert!(is_virtualization_root(&"/".to_wstr()));
    assert!(is_virtualization_root(&"\\HKEY_USERS".to_wstr()));
    assert!(!is_virtualization_root(&"HKEY_USERS".to_wstr()));
    assert!(!is_virtualization_root(&"HKEY_USERS\\".to_wstr()));
    assert!(!is_virtualization_root(&".".to_wstr()));
    assert!(!is_virtualization_root(&"..".to_wstr()));
    assert!(!is_virtualization_root(&"a\\b".to_wstr()));
}

#[test]
fn parts_are_joined_with_one_backslash() {
    let all = components(&"a/b\\\\..\\c\\".to_wstr());
    assert_eq!(text(&join_from(&all, 0)), "a\\b\\..\\c");
    assert_eq!(text(&join_from(&all, 1)), "b\\..\\c");
    assert_eq!(text(&join_from(&all, 3)), "c");
    assert_eq!(text(&join_from(&all, 4)), "");
    assert_eq!(text(&Component::RootDir.text()), "\\");
    assert_eq!(text(&Component::CurDir.text()), ".");
    assert_eq!(text(&Component::ParentDir.text()), "..");
    assert_eq!(text(&Component::Normal("x".to_wstr()).text()), "x");
}

#[test]
fn the_trees_have_their_names() {
    assert_eq!(Hive::ClassesRoot.name(), "HKEY_CLASSES_ROOT");
    assert_eq!(Hive::CurrentUser.name(), "HKEY_CURRENT_USER");
    assert_eq!(Hive::LocalMachine.name(), "HKEY_LOCAL_MACHINE");
    assert_eq!(Hive::Users.name(), "HKEY_USERS");
    assert_eq!(Hive::CurrentConfig.name(), "HKEY_CURRENT_CONFIG");
}

#[test]
fn trees_are_found_by_their_exact_names() {
    let ops = RegOps::new();
    assert_eq!(ops.find_root(&"HKEY_CLASSES_ROOT".to_wstr()), Some(Hive::ClassesRoot));
    assert_eq!(ops.find_root(&"HKEY_CURRENT_USER".to_wstr()), Some(Hive::CurrentUser));
    assert_eq!(ops.find_root(&"HKEY_LOCAL_MACHINE".to_wstr()), Some(Hive::LocalMachine));
    assert_eq!(ops.find_root(&"HKEY_USERS".to_wstr()), Some(Hive::Users));
    assert_eq!(ops.find_root(&"HKEY_CURRENT_CONFIG".to_wstr()), Some(Hive::CurrentConfig));
    assert_eq!(ops.find_root(&"hkey_users".to_wstr()), None);
    assert_eq!(ops.find_root(&"HKEY_USERS ".to_wstr()), None);
    assert_eq!(ops.find_root(&"".to_wstr()), None);
}

#[test]
fn a_path_of_one_part_names_a_tree() {
    let ops = RegOps::new();
    assert_eq!(located(&ops, "HKEY_USERS"), Some((Hive::Users, "".to_string())));
    assert_eq!(located(&ops, "HKEY_CLASSES_ROOT"), Some((Hive::ClassesRoot, "".to_string())));
    assert_eq!(located(&ops, "SOFTWARE"), None);
}

#[test]
fn a_path_of_one_part_must_be_written_as_the_name_of_the_tree() {
    let ops = RegOps::new();
    assert_eq!(located(&ops, "HKEY_USERS\\"), None);
    assert_eq!(located(&ops, "\\"), None);
    assert_eq!(located(&ops, "."), None);
}

#[test]
fn a_longer_path_names_a_key_below_its_tree() {
    let ops = RegOps::new();
    assert_eq!(
        located(&ops, "HKEY_LOCAL_MACHINE\\SOFTWARE\\Microsoft\\Windows\\CurrentVersion"),
        Some((Hive::LocalMachine, "SOFTWARE\\Microsoft\\Windows\\CurrentVersion".to_string()))
    );
    assert_eq!(
        located(&ops, "HKEY_CURRENT_USER/Software//Classes/"),
        Some((Hive::CurrentUser, "Software\\Classes".to_string()))
    );
    assert_eq!(
        located(&ops, "HKEY_USERS\\a\\..\\b"),
        Some((Hive::Users, "a\\..\\b".to_string()))
    );
    assert_eq!(located(&ops, "SOFTWARE\\HKEY_USERS"), None);
}

#[test]
fn a_separator_in_front_of_the_tree_is_passed_over() {
    let ops = RegOps::new();
    assert_eq!(located(&ops, "\\HKEY_USERS"), Some((Hive::Users, "".to_string())));
    assert_eq!(located(&ops, "\\HKEY_USERS\\S-1-5-18"), Some((Hive::Users, "S-1-5-18".to_string())));
    assert_eq!(located(&ops, "\\nothing\\x"), None);
}

#[test]
fn paths_without_parts_or_with_leading_dots_name_nothing() {
    let ops = RegOps::new();
    assert_eq!(located(&ops, ""), None);
    assert_eq!(located(&ops, ".\\HKEY_USERS"), None);
    assert_eq!(located(&ops, "..\\HKEY_USERS"), None);
    assert_eq!(located(&ops, "\\..\\HKEY_USERS"), None);
}

/// A registry with one key.
fn open_current_version(location: &KeyLocation) -> Option<u32> {
    if location.hive == Hive::LocalMachine
        && text(&location.subkey) == "SOFTWARE\\Microsoft\\Windows\\CurrentVersion"
    {
        Some(1)
    } else {
        None
    }
}

#[test]
fn test_does_key_exist() {
    let ops = RegOps::new();

    assert!(ops.does_key_exist(
        &"HKEY_LOCAL_MACHINE\\SOFTWARE\\Microsoft\\Windows\\CurrentVersion".to_wstr(),
        open_current_version
    ));
}

#[test]
fn a_key_that_cannot_be_opened_does_not_exist() {
    let ops = RegOps::new();
    assert!(!ops.does_key_exist(
        &"HKEY_LOCAL_MACHINE\\SOFTWARE\\Microsoft\\Windows".to_wstr(),
        open_current_version
    ));
    assert!(!ops.does_key_exist(
        &"HKEY_USERS\\SOFTWARE\\Microsoft\\Windows\\CurrentVersion".to_wstr(),
        open_current_version
    ));
}

#[test]
fn a_path_that_names_no_key_is_not_asked_of_the_registry() {
    let ops = RegOps::new();
    let asked = RefCell::new(0);
    let open = |_location: &KeyLocation| {
        *asked.borrow_mut() += 1;
        Some(())
    };
    assert!(!ops.does_key_exist(&"NO_SUCH_TREE\\x".to_wstr(), open));
    assert_eq!(*asked.borrow(), 0);
    assert_eq!(ops.open_key_by_path(&"".to_wstr(), |_location: &KeyLocation| Some(())), None);
}

#[test]
fn opening_hands_the_place_of_the_key_to_the_registry() {
    let ops = RegOps::new();
    let key = ops.open_key_by_path(&"HKEY_USERS\\a\\b".to_wstr(), |location: &KeyLocation| {
        Some((location.hive, text(&location.subkey)))
    });
    assert_eq!(key, Some((Hive::Users, "a\\b".to_string())));
    let key = ops.open_key_by_path(&"HKEY_USERS".to_wstr(), |location: &KeyLocation| {
        Some((location.hive, text(&location.subkey)))
    });
    assert_eq!(key, Some((Hive::Users, "".to_string())));
}

fn entry_list(entries: &[RegEntry]) -> Vec<(String, u64)> {
    entries.iter().map(|entry| (text(&entry.name), entry.size)).collect()
}

#[test]
fn the_root_lists_the_five_trees() {
    let ops = RegOps::new();
    for path in ["", "\\", "\\anything"] {
        let entries = ops
            .enumerate_key(&path.to_wstr(), |_location: &KeyLocation| -> Option<KeyContent> {
                panic!("the registry is not read for the root")
            })
            .unwrap();
        assert_eq!(
            entry_list(&entries.subkeys),
            vec![
                ("HKEY_CLASSES_ROOT".to_string(), 0),
                ("HKEY_CURRENT_USER".to_string(), 0),
                ("HKEY_LOCAL_MACHINE".to_string(), 0),
                ("HKEY_USERS".to_string(), 0),
                ("HKEY_CURRENT_CONFIG".to_string(), 0),
            ]
        );
        assert!(entries.values.is_empty());
    }
}

#[test]
fn a_key_lists_what_could_be_read_of_it() {
    let ops = RegOps::new();
    let entries = ops
        .enumerate_key(&"HKEY_USERS\\x".to_wstr(), |location: &KeyLocation| {
            assert_eq!(location.hive, Hive::Users);
            assert_eq!(text(&location.subkey), "x");
            Some(KeyContent {
                subkeys: vec![Some("b".to_wstr()), None, Some("a".to_wstr())],
                values: vec![None, Some(("v".to_wstr(), 12)), Some(("".to_wstr(), 0)), None],
            })
        })
        .unwrap();
    assert_eq!(entry_list(&entries.subkeys), vec![("b".to_string(), 0), ("a".to_string(), 0)]);
    assert_eq!(entry_list(&entries.values), vec![("v".to_string(), 12), ("".to_string(), 0)]);
}

#[test]
fn a_key_that_cannot_be_read_lists_nothing() {
    let ops = RegOps::new();
    assert!(ops.enumerate_key(&"HKEY_USERS\\x".to_wstr(), |_location: &KeyLocation| None).is_none());
    assert!(ops
        .enumerate_key(&"NO_SUCH_TREE\\x".to_wstr(), |_location: &KeyLocation| {
            Some(KeyContent { subkeys: Vec::new(), values: Vec::new() })
        })
        .is_none());
}

fn listed(listing: &[DirEntry]) -> Vec<(String, bool, i64)> {
    listing.iter().map(|e| (text(&e.filename), e.is_directory, e.size)).collect()
}

#[test]
fn subkeys_are_listed_as_directories_and_values_as_files() {
    let entries = RegEntires {
        subkeys: vec![RegEntry::new("k1".to_wstr(), 0), RegEntry::new("k2".to_wstr(), 0)],
        values: vec![RegEntry::new("v".to_wstr(), 7)],
    };
    assert_eq!(
        listed(&entries.into_listing()),
        vec![
            ("k1".to_string(), true, 0),
            ("k2".to_string(), true, 0),
            ("v".to_string(), false, 7),
        ]
    );
    let nothing = RegEntires { subkeys: Vec::new(), values: Vec::new() };
    assert!(nothing.into_listing().is_empty());
}

#[test]
fn a_size_beyond_what_the_host_can_take_is_listed_as_the_largest() {
    let entries = RegEntires {
        subkeys: Vec::new(),
        values: vec![
            RegEntry::new("max".to_wstr(), i64::MAX as u64),
            RegEntry::new("over".to_wstr(), i64::MAX as u64 + 1),
            RegEntry::new("huge".to_wstr(), u64::MAX),
        ],
    };
    assert_eq!(
        listed(&entries.into_listing()),
        vec![
            ("max".to_string(), false, i64::MAX),
            ("over".to_string(), false, i64::MAX),
            ("huge".to_string(), false, i64::MAX),
        ]
    );
}

fn located_value(ops: &RegOps, path: &str) -> Option<(Hive, String, String)> {
    ops.locate_value(&path.to_wstr())
        .map(|(location, name)| (location.hive, text(&location.subkey), text(&name)))
}

#[test]
fn the_last_part_of_a_path_names_a_value_of_the_key_before_it() {
    let ops = RegOps::new();
    assert_eq!(
        located_value(&ops, "HKEY_USERS\\a\\b\\value"),
        Some((Hive::Users, "a\\b".to_string(), "value".to_string()))
    );
    assert_eq!(
        located_value(&ops, "HKEY_USERS\\value"),
        Some((Hive::Users, "".to_string(), "value".to_string()))
    );
    assert_eq!(
        located_value(&ops, "\\HKEY_LOCAL_MACHINE//SOFTWARE\\v\\"),
        Some((Hive::LocalMachine, "SOFTWARE".to_string(), "v".to_string()))
    );
}

#[test]
fn a_path_names_no_value_without_a_key_before_its_last_part() {
    let ops = RegOps::new();
    assert_eq!(located_value(&ops, ""), None);
    assert_eq!(located_value(&ops, "\\"), None);
    assert_eq!(located_value(&ops, "HKEY_USERS"), None);
    assert_eq!(located_value(&ops, "value"), None);
    assert_eq!(located_value(&ops, "NO_SUCH_TREE\\value"), None);
    assert_eq!(located_value(&ops, "HKEY_USERS\\a\\.."), None);
    assert_eq!(located_value(&ops, "."), None);
}

/// A registry with one value.
fn read_version(location: &KeyLocation, name: &WStr) -> Option<Vec<u8>> {
    if location.hive == Hive::LocalMachine
        && text(&location.subkey) == "SOFTWARE\\Vendor"
        && text(name) == "Version"
    {
        Some(vec![1, 2, 3, 4, 5])
    } else {
        None
    }
}

#[test]
fn a_value_is_read_through_the_registry() {
    let ops = RegOps::new();
    let path = "HKEY_LOCAL_MACHINE\\SOFTWARE\\Vendor\\Version".to_wstr();
    assert_eq!(ops.read_value(&path, read_version), Some(vec![1, 2, 3, 4, 5]));
    assert!(ops.does_value_exist(&path, read_version));
    let other = "HKEY_LOCAL_MACHINE\\SOFTWARE\\Vendor\\Other".to_wstr();
    assert_eq!(ops.read_value(&other, read_version), None);
    assert!(!ops.does_value_exist(&other, read_version));
}

#[test]
fn a_path_that_names_no_value_is_not_asked_of_the_registry() {
    let ops = RegOps::new();
    let asked = RefCell::new(0);
    let read = |_location: &KeyLocation, _name: &WStr| {
        *asked.borrow_mut() += 1;
        Some(Vec::new())
    };
    assert_eq!(ops.read_value(&"HKEY_USERS".to_wstr(), read), None);
    assert_eq!(*asked.borrow(), 0);
}

#[test]
fn a_read_gets_the_bytes_in_its_range() {
    let data: Vec<u8> = (0..10).collect();
    assert_eq!(value_range(&data, 0, 10), data);
    assert_eq!(value_range(&data, 2, 3), vec![2, 3, 4]);
    assert_eq!(value_range(&data, 0, 0), Vec::<u8>::new());
    assert_eq!(value_range(&data, 9, 1), vec![9]);
}

#[test]
fn a_read_past_the_end_gets_what_is_there() {
    let data: Vec<u8> = (0..10).collect();
    assert_eq!(value_range(&data, 8, 5), vec![8, 9]);
    assert_eq!(value_range(&data, 10, 5), Vec::<u8>::new());
    assert_eq!(value_range(&data, 11, 5), Vec::<u8>::new());
    assert_eq!(value_range(&data, u64::MAX, u32::MAX), Vec::<u8>::new());
    assert_eq!(value_range(&data, 0, u32::MAX), data);
    assert_eq!(value_range(&Vec::new(), 0, 4), Vec::<u8>::new());
}

#[test]
fn the_root_and_keys_are_directories() {
    let ops = RegOps::new();
    let directory = Some(BasicInfo { is_directory: true, file_size: 0 });
    let no_key = |_location: &KeyLocation| -> Option<u32> { panic!("the root is not looked up") };
    let no_value = |_location: &KeyLocation, _name: &WStr| -> Option<Vec<u8>> {
        panic!("the root is not looked up")
    };
    assert_eq!(ops.basic_info(&"".to_wstr(), no_key, no_value), directory);
    let path = "HKEY_LOCAL_MACHINE\\SOFTWARE\\Microsoft\\Windows\\CurrentVersion".to_wstr();
    let no_value = |_location: &KeyLocation, _name: &WStr| -> Option<Vec<u8>> {
        panic!("a key is not read as a value")
    };
    assert_eq!(ops.basic_info(&path, open_current_version, no_value), directory);
}

#[test]
fn a_value_is_a_file_as_large_as_its_data() {
    let ops = RegOps::new();
    let path = "HKEY_LOCAL_MACHINE\\SOFTWARE\\Vendor\\Version".to_wstr();
    assert_eq!(
        ops.basic_info(&path, open_current_version, read_version),
        Some(BasicInfo { is_directory: false, file_size: 5 })
    );
}

#[test]
fn what_is_neither_key_nor_value_has_no_metadata() {
    let ops = RegOps::new();
    let path = "HKEY_LOCAL_MACHINE\\SOFTWARE\\Vendor\\Other".to_wstr();
    assert_eq!(ops.basic_info(&path, open_current_version, read_version), None);
    assert_eq!(ops.basic_info(&"nothing".to_wstr(), open_current_version, read_version), None);
}

#[test]
fn the_listing_of_a_key_holds_its_subkeys_then_its_values() {
    let ops = RegOps::new();
    let listing = ops.listing(&"HKEY_USERS\\x".to_wstr(), |_location: &KeyLocation| {
        Some(KeyContent {
            subkeys: vec![Some("k".to_wstr()), None],
            values: vec![Some(("v".to_wstr(), 3))],
        })
    });
    assert_eq!(
        listed(&listing),
        vec![("k".to_string(), true, 0), ("v".to_string(), false, 3)]
    );
    let roots = ops.listing(&"".to_wstr(), |_location: &KeyLocation| None);
    assert_eq!(roots.len(), 5);
    assert!(roots.iter().all(|entry| entry.is_directory && entry.size == 0));
    assert_eq!(text(&roots[2].filename), "HKEY_LOCAL_MACHINE");
    assert!(ops.listing(&"HKEY_USERS\\x".to_wstr(), |_location: &KeyLocation| None).is_empty());
    assert!(ops.listing(&"nothing\\x".to_wstr(), |_location: &KeyLocation| None).is_empty());
}

#[test]
fn no_name_stands_for_two_trees() {
    let hives =
        [Hive::ClassesRoot, Hive::CurrentUser, Hive::LocalMachine, Hive::Users, Hive::CurrentConfig];
    let ops = RegOps::new();
    for (i, a) in hives.iter().enumerate() {
        assert_eq!(ops.find_root(&a.name().to_wstr()), Some(*a));
        for b in &hives[i + 1..] {
            assert_ne!(a.name(), b.name());
        }
    }
}

use xdbm::devices::Device;
use xdbm::error::Error;
use xdbm::paths::{is_inside, join_components, join_components_from};
use xdbm::storages::online_storage::OnlineStorage;
use xdbm::storages::{Storage, StorageExt, Storages};
use xdbm::display::column_width;
use xdbm::text::str_less;
use xdbm::util::{
    expand_tilde, expand_tilde_with, format_summarized_duration, home_of, min_parent_storage, select_closest,
    summarize_duration,
};

fn strings(v: &[&str]) -> Vec<String> {
    v.iter().map(|s| s.to_string()).collect()
}

#[test]
fn test_min_parent_storage() {
    let device = Device::new("name".to_string());
    let storage1 = Storage::Online(OnlineStorage::new(
        "storage_name".to_string(),
        "provider".to_string(),
        1_000_000,
        "alias".to_string(),
        "/mnt".to_string(),
        &device,
    ));
    let storage2 = Storage::Online(OnlineStorage::new(
        "root".to_string(),
        "provider".to_string(),
        1_000_000,
        "root".to_string(),
        "/".to_string(),
        &device,
    ));
    let mut storages = Storages::new();
    storages.add(storage1).unwrap();
    storages.add(storage2).unwrap();

    let sample_target = "/mnt/docs".to_string();
    let parent = min_parent_storage(&sample_target, &storages, &device);
    assert_eq!(parent.clone().unwrap().0.name(), "storage_name");
    assert_eq!(parent.unwrap().1, "docs".to_string());

    let sample_target_2 = "/home/user/.config".to_string();
    let parent_2 = min_parent_storage(&sample_target_2, &storages, &device).unwrap();
    assert_eq!(parent_2.clone().0.name(), "root");
    assert_eq!(parent_2.1, "home/user/.config".to_string());
}

#[test]
fn test_expand_tilde() {
    assert!(expand_tilde("/aaa/bbb/ccc".to_string()).unwrap().eq(&"/aaa/bbb/ccc".to_string()));
    let expanded = expand_tilde("~/aaa/bbb/ccc".to_string());
    match expanded {
        Ok(path) => assert!(std::path::PathBuf::from(path).eq(&dirs::home_dir().unwrap().join("aaa/bbb/ccc"))),
        Err(_) => (),
    }
    let expanded = expand_tilde("aaa/~/bbb".to_string());
    match expanded {
        Ok(path) => assert_eq!(path, "aaa/~/bbb".to_string()),
        Err(_) => (),
    }
}

#[test]
fn expand_tilde_with_given_home() {
    let home = || home_of(Some(Some("/home/user".to_string())));
    assert_eq!(home(), Ok("/home/user".to_string()));
    assert_eq!(home_of(None), Err(Error::NoHomeDirectory));
    assert_eq!(home_of(Some(None)), Err(Error::InvalidText));
    assert_eq!(expand_tilde_with("~/aaa/bbb".to_string(), home()), Ok("/home/user/aaa/bbb".to_string()));
    assert_eq!(expand_tilde_with("~".to_string(), home()), Ok("/home/user".to_string()));
    assert_eq!(expand_tilde_with("~/aaa".to_string(), home_of(None)), Err(Error::NoHomeDirectory));
    assert_eq!(expand_tilde_with("~/aaa".to_string(), home_of(Some(None))), Err(Error::InvalidText));
    assert_eq!(expand_tilde_with("/x/~/aaa".to_string(), home_of(None)), Ok("/x/~/aaa".to_string()));
    assert_eq!(expand_tilde_with("/x/~/aaa".to_string(), home_of(Some(None))), Ok("/x/~/aaa".to_string()));
    assert_eq!(expand_tilde_with("~user/aaa".to_string(), home()), Ok("~user/aaa".to_string()));
    assert_eq!(expand_tilde_with("".to_string(), home()), Ok("".to_string()));
}

#[test]
fn sibling_with_shared_prefix_is_not_a_parent() {
    let device = Device::from_parts("D".to_string(), None, None, None);
    let mut storages = Storages::new();
    storages
        .add(Storage::Online(OnlineStorage::new(
            "dev".to_string(),
            "p".to_string(),
            1,
            "a".to_string(),
            "/mnt/dev".to_string(),
            &device,
        )))
        .unwrap();
    assert!(min_parent_storage(&"/mnt/other".to_string(), &storages, &device).is_none());
    assert!(min_parent_storage(&"/mnt/device".to_string(), &storages, &device).is_none());
    assert!(min_parent_storage(&"/mnt".to_string(), &storages, &device).is_none());
    let inside = min_parent_storage(&"/mnt/dev/x".to_string(), &storages, &device).unwrap();
    assert_eq!(inside.0.name(), "dev");
    assert_eq!(inside.1, "x");
    let itself = min_parent_storage(&"/mnt/dev".to_string(), &storages, &device).unwrap();
    assert_eq!(itself.0.name(), "dev");
    assert_eq!(itself.1, "");
    let other = Device::from_parts("E".to_string(), None, None, None);
    assert!(min_parent_storage(&"/mnt/dev/x".to_string(), &storages, &other).is_none());
    assert!(min_parent_storage(&"/mnt/dev/x".to_string(), &Storages::new(), &device).is_none());
}

#[test]
fn equally_close_storages_go_by_name() {
    let device = Device::from_parts("D".to_string(), None, None, None);
    let mut storages = Storages::new();
    for n in ["zeta", "beta", "gamma"] {
        storages
            .add(Storage::Online(OnlineStorage::new(
                n.to_string(),
                "p".to_string(),
                1,
                "a".to_string(),
                "/mnt".to_string(),
                &device,
            )))
            .unwrap();
    }
    let found = min_parent_storage(&"/mnt/x/y".to_string(), &storages, &device).unwrap();
    assert_eq!(found.0.name(), "beta");
    assert_eq!(found.1, "x/y");
}

#[test]
fn select_closest_takes_first_shortest() {
    assert_eq!(select_closest(&vec![Some(3), None, Some(2), Some(2)]), Some(2));
    assert_eq!(select_closest(&vec![None, None]), None);
    assert_eq!(select_closest(&vec![]), None);
    assert_eq!(select_closest(&vec![Some(0)]), Some(0));
    assert_eq!(select_closest(&vec![None, Some(5), Some(7), Some(5), Some(6)]), Some(1));
}

#[test]
fn parent_component_leaves_the_directory() {
    assert!(is_inside(&strings(&["a", "b"])));
    assert!(is_inside(&strings(&[])));
    assert!(is_inside(&strings(&["...", ".", "a.."])));
    assert!(!is_inside(&strings(&["..", "a"])));
    assert!(!is_inside(&strings(&["a", ".."])));
}

#[test]
fn joining_components() {
    assert_eq!(join_components("/mnt".to_string(), &strings(&["a", "b"])), "/mnt/a/b");
    assert_eq!(join_components("/mnt".to_string(), &strings(&[])), "/mnt");
    assert_eq!(join_components_from("/mnt".to_string(), &strings(&["a", "b", "c"]), 1), "/mnt/b/c");
    assert_eq!(join_components_from("/mnt".to_string(), &strings(&["a"]), 1), "/mnt");
}

#[test]
fn summarized_durations() {
    assert_eq!(format_summarized_duration(3 * 86400 + 5), "3d");
    assert_eq!(format_summarized_duration(86400), "1d");
    assert_eq!(format_summarized_duration(86399), "23h");
    assert_eq!(format_summarized_duration(5 * 3600), "5h");
    assert_eq!(format_summarized_duration(3599), "59min");
    assert_eq!(format_summarized_duration(12 * 60 + 59), "12min");
    assert_eq!(format_summarized_duration(0), "0min");
    assert_eq!(format_summarized_duration(-130), "-2min");
    assert_eq!(format_summarized_duration(-100_000), "-1666min");
    assert_eq!(summarize_duration(i64::MIN), i64::MIN / 60);
    assert_eq!(summarize_duration(i64::MAX), i64::MAX / 86400);
}

#[test]
fn text_order_is_the_order_of_strings() {
    let samples = ["", "a", "ab", "abc", "b", "B", "é", "z", "zz", "日本", "aé"];
    for a in samples {
        for b in samples {
            assert_eq!(str_less(a, b), a < b);
        }
    }
}

#[test]
fn column_is_as_wide_as_its_widest_item() {
    assert_eq!(column_width(&strings(&[])), 0);
    assert_eq!(column_width(&strings(&["", ""])), 0);
    assert_eq!(column_width(&strings(&["abc", "a", "abcde", "ab"])), 5);
    assert_eq!(column_width(&strings(&["日本語", "abcd"])), 6);
    assert_eq!(column_width(&strings(&["é"])), 1);
}

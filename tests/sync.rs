use tsumugu::{download_after_get, download_after_head, download_first_action, DownloadAction, HeadInfo};
use tsumugu::{
    choose_mtime, enter_listing, exit_code, expand_listing, extension_push_task,
    join_relative, plan_sweep, pool_is_quiescent, should_download_by_head, should_download_by_list,
    symlink_target, take_wake_ticket, Comparison, ExclusionManager, ExtensionPackage, FileSize,
    FileType, ListItem, LocalFile, Pattern, ShadowSet, SizeUnit, TaskType,
};

fn file_item(url: &str, name: &str, size: Option<FileSize>, mtime: i64) -> ListItem {
    ListItem {
        url: url.to_string(),
        name: name.to_string(),
        type_: FileType::File,
        size,
        mtime,
        skip_check: false,
    }
}

fn dir_item(url: &str, name: &str) -> ListItem {
    ListItem {
        url: url.to_string(),
        name: name.to_string(),
        type_: FileType::Directory,
        size: None,
        mtime: 0,
        skip_check: false,
    }
}

const JAN_2024: i64 = 1704067200;

#[test]
fn test_relative() {
    let mut relative: Vec<String> = vec![];
    assert_eq!(join_relative(&relative), "");
    relative.push("debian".to_string());
    assert_eq!(join_relative(&relative), "debian");
    relative.push("dists".to_string());
    assert_eq!(join_relative(&relative), "debian/dists");
}

#[test]
fn first_sync_fetches_both_files() {
    let mut shadow = ShadowSet::new();
    assert!(enter_listing(&mut shadow, "root".to_string(), Comparison::Include));
    let root_items = vec![
        dir_item("http://up/a/", "a"),
        file_item("http://up/b.txt", "b.txt", Some(FileSize::Precise(10)), JAN_2024),
    ];
    let exp = expand_listing(&vec![], Comparison::Include, &root_items);
    assert_eq!(exp.tasks.len(), 2);
    assert!(matches!(exp.tasks[0].task, TaskType::Listing));
    assert_eq!(exp.tasks[0].relative, vec!["a".to_string()]);
    assert_eq!(exp.tasks[0].url, "http://up/a/");
    assert!(matches!(exp.tasks[1].task, TaskType::Download(_)));
    assert_eq!(exp.tasks[1].relative.len(), 0);
    assert_eq!(exp.objects, 2);
    assert_eq!(exp.bytes, 10);

    assert!(enter_listing(&mut shadow, "root/a".to_string(), Comparison::Include));
    let a_items = vec![file_item("http://up/a/c.txt", "c.txt", Some(FileSize::Precise(3)), JAN_2024)];
    let exp_a = expand_listing(&vec!["a".to_string()], Comparison::Include, &a_items);
    assert_eq!(exp_a.tasks.len(), 1);
    assert_eq!(exp_a.tasks[0].relative, vec!["a".to_string()]);

    let mut fetched = 0;
    for (path, item) in [("root/b.txt", &root_items[1]), ("root/a/c.txt", &a_items[0])] {
        let claimed = shadow.insert(path.to_string());
        if download_first_action(claimed, Comparison::Include, None, item, None, false, false, false) == DownloadAction::Get {
            fetched += 1;
        }
    }
    assert_eq!(fetched, 2);
    for p in ["root", "root/a", "root/a/c.txt", "root/b.txt"] {
        assert!(shadow.contains(p));
    }
    assert!(!shadow.contains("root/a/b.txt"));
    let walk = vec![
        "root/a/c.txt".to_string(),
        "root/a".to_string(),
        "root/b.txt".to_string(),
        "root".to_string(),
    ];
    let plan = plan_sweep(&walk, &shadow, false, false, 100);
    assert!(plan.deletions.is_empty());
    assert_eq!(exit_code(false, false, false, plan.cap_hit, false, false), 0);
}

#[test]
fn second_sync_fetches_nothing() {
    let item = file_item("http://up/b.txt", "b.txt", Some(FileSize::Precise(10)), JAN_2024);
    let local = Some(LocalFile { size: 10, mtime: JAN_2024 });
    assert!(!should_download_by_list(local, &item, None, false));
    assert!(download_first_action(true, Comparison::Include, local, &item, None, false, false, false) != DownloadAction::Get);
    assert!(!should_download_by_head(local, Some(10), Some(JAN_2024), false));
    assert!(should_download_by_list(Some(LocalFile { size: 10, mtime: JAN_2024 - 1 }), &item, None, false));
}

#[test]
fn upstream_removal_deletes_stray() {
    let mut shadow = ShadowSet::new();
    for p in ["root", "root/a", "root/a/c.txt", "root/b.txt"] {
        shadow.insert(p.to_string());
    }
    let walk = vec![
        "root/a/c.txt".to_string(),
        "root/a".to_string(),
        "root/b.txt".to_string(),
        "root/stale.bin".to_string(),
        "root".to_string(),
    ];
    let plan = plan_sweep(&walk, &shadow, false, false, 100);
    assert_eq!(plan.deletions, vec![3]);
    assert!(!plan.cap_hit);
    assert_eq!(exit_code(false, false, false, plan.cap_hit, false, false), 0);
    let kept = plan_sweep(&walk, &shadow, false, true, 100);
    assert!(kept.deletions.is_empty());
}

#[test]
fn listing_failure_deletes_nothing() {
    let shadow = ShadowSet::new();
    let walk = vec!["root/x".to_string(), "root".to_string()];
    let plan = plan_sweep(&walk, &shadow, true, false, 100);
    assert!(plan.deletions.is_empty());
    assert!(!plan.cap_hit);
    assert_eq!(exit_code(true, false, false, plan.cap_hit, false, false), 1);
}

#[test]
fn delete_cap_stops_at_limit() {
    let mut shadow = ShadowSet::new();
    shadow.insert("root".to_string());
    let mut walk: Vec<String> = (0..150).map(|i| format!("root/f{}", i)).collect();
    walk.push("root".to_string());
    let plan = plan_sweep(&walk, &shadow, false, false, 100);
    assert_eq!(plan.deletions.len(), 100);
    assert_eq!(plan.deletions, (0..100).collect::<Vec<usize>>());
    assert!(plan.cap_hit);
    assert_eq!(exit_code(false, false, false, plan.cap_hit, false, false), 25);
}

#[test]
fn exit_code_order() {
    assert_eq!(exit_code(false, false, false, false, true, false), 4);
    assert_eq!(exit_code(false, true, false, false, true, false), 1);
    assert_eq!(exit_code(false, true, true, false, false, false), 0);
    assert_eq!(exit_code(false, false, false, true, true, false), 25);
    assert_eq!(exit_code(false, false, false, true, false, true), 2);
    assert_eq!(exit_code(true, false, false, false, false, true), 2);
}

#[test]
fn exclude_and_keep_patterns() {
    let m = ExclusionManager::new(
        vec![Pattern::new("^heavy/").ok().unwrap()],
        vec![Pattern::new("^heavy/keep/").ok().unwrap()],
    );
    assert_eq!(m.match_str("heavy/skip.bin"), Comparison::Stop);
    assert_eq!(m.match_str("heavy/keep/wanted.bin"), Comparison::ListOnly);
    assert_eq!(m.match_str("light/x.bin"), Comparison::Include);
    assert_eq!(m.match_str("heavy"), Comparison::Include);
    let skip = file_item("http://up/heavy/skip.bin", "skip.bin", None, JAN_2024);
    let wanted = file_item("http://up/heavy/keep/wanted.bin", "wanted.bin", None, JAN_2024);
    assert!(download_first_action(true, m.match_str("heavy/skip.bin"), None, &skip, None, false, false, false) != DownloadAction::Get);
    assert!(download_first_action(true, m.match_str("heavy/keep/wanted.bin"), None, &wanted, None, false, false, false) == DownloadAction::Get);
    assert!(Pattern::new("(").is_err());
}

#[test]
fn list_only_directory_pushes_no_files() {
    let items = vec![
        dir_item("http://up/x/sub/", "sub"),
        file_item("http://up/x/f", "f", Some(FileSize::HumanizedBinary { digits: 15, decimals: 1, unit: SizeUnit::K }), 0),
    ];
    let exp = expand_listing(&vec!["x".to_string()], Comparison::ListOnly, &items);
    assert_eq!(exp.tasks.len(), 1);
    assert_eq!(exp.tasks[0].relative, vec!["x".to_string(), "sub".to_string()]);
    assert_eq!(exp.objects, 2);
    assert_eq!(exp.bytes, 1536);
}

#[test]
fn redirect_becomes_symlink() {
    assert_eq!(symlink_target(false, "http://up/target/"), Some("target".to_string()));
    assert_eq!(symlink_target(false, "http://up/target"), Some("target".to_string()));
    assert_eq!(symlink_target(true, "http://up/target/"), None);
    assert_eq!(symlink_target(false, "///"), None);
}

#[test]
fn duplicate_claim_is_refused() {
    let mut shadow = ShadowSet::new();
    assert!(shadow.insert("root/p.rpm".to_string()));
    assert!(!shadow.insert("root/p.rpm".to_string()));
    let mut s2 = ShadowSet::new();
    assert!(!enter_listing(&mut s2, "root/x".to_string(), Comparison::Stop));
    assert!(!s2.contains("root/x"));
}

#[test]
fn mtime_source() {
    assert_eq!(choose_mtime(Some(5), true, 100, Some(3600)), Some(5));
    assert_eq!(choose_mtime(None, true, 7200, Some(3600)), Some(3600));
    assert_eq!(choose_mtime(None, false, 7200, Some(3600)), None);
}

#[test]
fn quiescence_decisions() {
    assert!(pool_is_quiescent(1));
    assert!(!pool_is_quiescent(2));
    assert_eq!(take_wake_ticket(3), Some(2));
    assert_eq!(take_wake_ticket(0), None);
}

#[test]
fn extension_task_skips_checks() {
    let pkg = ExtensionPackage {
        url: "http://up/a/Packages/x.rpm".to_string(),
        relative: vec!["a".to_string(), "Packages".to_string()],
        filename: "x.rpm".to_string(),
    };
    let t = extension_push_task(&pkg);
    assert_eq!(t.url, "http://up/a/Packages/x.rpm");
    assert_eq!(t.relative, pkg.relative);
    match t.task {
        TaskType::Download(item) => {
            assert!(item.skip_check);
            assert_eq!(item.name, "x.rpm");
            assert!(!should_download_by_list(Some(LocalFile { size: 1, mtime: 0 }), &item, None, false));
            assert!(should_download_by_list(None, &item, None, false));
        }
        TaskType::Listing => panic!("expected a download"),
    }
}

#[test]
fn temp_name_is_hidden_sibling() {
    assert_eq!(tsumugu::temp_file_name("b.txt"), ".tmp.b.txt");
    assert_eq!(tsumugu::temp_file_name(""), ".tmp.");
}

#[test]
fn download_steps() {
    let item = file_item("http://up/b.txt", "b.txt", Some(FileSize::Precise(10)), JAN_2024);
    let fresh = Some(LocalFile { size: 10, mtime: JAN_2024 });
    let a = |claimed, v, local, head, dry| download_first_action(claimed, v, local, &item, None, false, head, dry);
    assert_eq!(a(false, Comparison::Include, None, false, false), DownloadAction::Skip);
    assert_eq!(a(true, Comparison::Stop, None, false, false), DownloadAction::Skip);
    assert_eq!(a(true, Comparison::ListOnly, None, false, false), DownloadAction::Get);
    assert_eq!(a(true, Comparison::Include, None, true, false), DownloadAction::Head);
    assert_eq!(a(true, Comparison::Include, None, false, true), DownloadAction::Skip);
    assert_eq!(a(true, Comparison::Include, fresh, false, false), DownloadAction::Expand);
    assert_eq!(a(true, Comparison::Include, fresh, false, true), DownloadAction::Skip);
    let same = HeadInfo { content_length: Some(10), last_modified: Some(JAN_2024) };
    let newer = HeadInfo { content_length: Some(10), last_modified: Some(JAN_2024 + 1) };
    assert_eq!(download_after_head(None, fresh, false, false), DownloadAction::Fail);
    assert_eq!(download_after_head(Some(same), fresh, false, false), DownloadAction::Expand);
    assert_eq!(download_after_head(Some(newer), fresh, false, false), DownloadAction::Get);
    assert_eq!(download_after_head(Some(newer), fresh, true, false), DownloadAction::Expand);
    assert_eq!(download_after_head(Some(newer), fresh, false, true), DownloadAction::Skip);
    assert_eq!(download_after_get(true), DownloadAction::Expand);
    assert_eq!(download_after_get(false), DownloadAction::Fail);
}

#[test]
fn relative_file_paths() {
    assert_eq!(tsumugu::relative_file_path(&vec![], "f"), "f");
    assert_eq!(tsumugu::relative_file_path(&vec!["a".to_string(), "b".to_string()], "f"), "a/b/f");
}

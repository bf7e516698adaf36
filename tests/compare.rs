use tsumugu::{
    guess_offset, naive_to_utc, should_download_by_head, should_download_by_list,
    timezone_from_hours, FileSize, FileType, ListItem, LocalFile, SizeUnit,
};

fn item(size: Option<FileSize>, mtime: i64) -> ListItem {
    ListItem {
        url: "http://up/f".to_string(),
        name: "f".to_string(),
        type_: FileType::File,
        size,
        mtime,
        skip_check: false,
    }
}

#[test]
fn humanized_size_tolerance() {
    let s = FileSize::HumanizedBinary { digits: 12, decimals: 1, unit: SizeUnit::M };
    assert!(s.matches_local(1258292));
    assert!(s.matches_local(1363148));
    assert!(!s.matches_local(1363149));
    assert!(!s.matches_local(1258291));
    assert_eq!(s.get_estimated(), 1258291);
    assert_eq!(FileSize::Precise(7).get_estimated(), 7);
    let huge = FileSize::HumanizedBinary { digits: u64::MAX, decimals: 0, unit: SizeUnit::P };
    assert_eq!(huge.get_estimated(), u64::MAX);
}

#[test]
fn by_list_rules() {
    let it = item(Some(FileSize::Precise(10)), 1000);
    assert!(should_download_by_list(None, &it, None, false));
    assert!(should_download_by_list(Some(LocalFile { size: 9, mtime: 5000 }), &it, None, false));
    assert!(!should_download_by_list(Some(LocalFile { size: 9, mtime: 5000 }), &it, None, true));
    assert!(!should_download_by_list(Some(LocalFile { size: 10, mtime: 1000 }), &it, None, false));
    assert!(should_download_by_list(Some(LocalFile { size: 10, mtime: 999 }), &it, None, false));
    // listed at 1000 on a clock one hour east of UTC: the instant is -2600
    assert!(!should_download_by_list(Some(LocalFile { size: 10, mtime: -2600 }), &it, Some(3600), false));
    assert!(should_download_by_list(Some(LocalFile { size: 10, mtime: -2601 }), &it, Some(3600), false));
    assert_eq!(naive_to_utc(1000, Some(3600)), -2600);
    assert_eq!(naive_to_utc(1000, None), 1000);
}

#[test]
fn by_head_rules() {
    let local = Some(LocalFile { size: 10, mtime: 100 });
    assert!(should_download_by_head(None, Some(10), Some(100), false));
    assert!(should_download_by_head(local, Some(11), Some(100), true));
    assert!(!should_download_by_head(local, Some(10), Some(500), true));
    assert!(should_download_by_head(local, Some(10), Some(500), false));
    assert!(should_download_by_head(local, None, None, false));
    assert!(!should_download_by_head(local, None, None, true));
    assert!(!should_download_by_head(local, None, Some(100), false));
}

#[test]
fn timezone_values() {
    assert_eq!(timezone_from_hours(8), Some(28800));
    assert_eq!(timezone_from_hours(-5), Some(-18000));
    assert_eq!(timezone_from_hours(24), None);
    assert_eq!(guess_offset(28800 + 1000, 1000), Some(28800));
    assert_eq!(guess_offset(1000 + 5399, 1000), Some(3600));
    assert_eq!(guess_offset(1000 + 5400, 1000), Some(7200));
    assert_eq!(guess_offset(1000 - 5400, 1000), Some(-7200));
    assert_eq!(guess_offset(15 * 3600, 0), None);
    assert_eq!(guess_offset(-13 * 3600, 0), None);
}

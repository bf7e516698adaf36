use std::io::Write;
use tsumugu::{
    extension_handler, first_file_url, get_humanized, get_locations_from_xml, is_yum_primary_xml,
    is_yum_repomd_xml, packages_from_locations, parse_package, read_primary_xml,
    read_yum_repomd_xml, yum_xml_type, FancyIndexListingParser, FileSize, FileType, ListItem,
    RowError, SizeUnit, YumError, YumXmlType,
};

const REPOMD: &str = "<repomd>\n  <data type=\"primary\">\n    <location href=\"repodata/abc-primary.xml.gz\"/>\r\n  </data>\n<location href=\"x\"></location>\n</repomd>";

fn gzip(text: &str) -> Vec<u8> {
    let mut enc = flate2::write::GzEncoder::new(Vec::new(), flate2::Compression::default());
    enc.write_all(text.as_bytes()).unwrap();
    enc.finish().unwrap()
}

#[test]
fn yum_file_kinds() {
    assert!(is_yum_primary_xml("/m/repo/repodata/abc-primary.xml.gz"));
    assert!(!is_yum_primary_xml("/m/repo/repodata/primary.xml"));
    assert!(is_yum_repomd_xml("/m/repo/repodata/repomd.xml"));
    assert!(!is_yum_repomd_xml("/m/repo/repodata/xrepomd.xml"));
    assert_eq!(yum_xml_type("a/primary.xml.gz"), Some(YumXmlType::Primary));
    assert_eq!(yum_xml_type("a/repomd.xml"), Some(YumXmlType::Repomd));
    assert_eq!(yum_xml_type("a/other.xml"), None);
    assert!(is_yum_primary_xml("primary.xml.gz/."));
    assert!(is_yum_repomd_xml("repomd.xml/."));
    assert!(is_yum_repomd_xml("/m/./repomd.xml//"));
    assert!(!is_yum_repomd_xml("repomd.xml/.."));
    assert!(!is_yum_primary_xml("/"));
    assert_eq!(tsumugu::path_file_name("a/b/./"), Some("b".to_string()));
    assert_eq!(tsumugu::path_file_name("."), None);
}

#[test]
fn location_lines() {
    let locs = get_locations_from_xml(REPOMD).ok().unwrap();
    assert_eq!(locs, vec!["repodata/abc-primary.xml.gz".to_string()]);
    let two = get_locations_from_xml("<location href=\"a/b.rpm\" x=\"1\"/>\n<location href=\"\"c.rpm\"/>").ok().unwrap();
    assert_eq!(two, vec!["a/b.rpm".to_string(), "\"c.rpm".to_string()]);
    assert!(get_locations_from_xml("").ok().unwrap().is_empty());
}

#[test]
fn repomd_and_primary_reading() {
    assert_eq!(read_yum_repomd_xml(REPOMD.as_bytes()), Ok(vec!["repodata/abc-primary.xml.gz".to_string()]));
    let gz = gzip("<location href=\"Packages/p-1.rpm\"/>\n");
    assert_eq!(read_primary_xml(&gz), Ok(vec!["Packages/p-1.rpm".to_string()]));
    assert!(matches!(read_primary_xml(b"not gzip"), Err(YumError::Decompress)));
}

#[test]
fn packages_resolve_against_repo_root() {
    let rel = vec!["el9".to_string(), "repodata".to_string()];
    let locs = vec!["Packages/a/x.rpm".to_string()];
    let pkgs = packages_from_locations(&locs, &rel, "http://up/el9/repodata/primary.xml.gz").ok().unwrap();
    assert_eq!(pkgs.len(), 1);
    assert_eq!(pkgs[0].url, "http://up/el9/Packages/a/x.rpm");
    assert_eq!(pkgs[0].relative, vec!["el9".to_string(), "Packages".to_string(), "a".to_string()]);
    assert_eq!(pkgs[0].filename, "x.rpm");
    assert!(matches!(packages_from_locations(&locs, &rel, "not a url"), Err(YumError::BaseUrl)));
}

#[test]
fn parse_package_from_primary() {
    let gz = gzip("<package>\n<location href=\"Packages/p-1.rpm\"/>\n</package>\n");
    let rel = vec!["repo".to_string(), "repodata".to_string()];
    let pkgs = parse_package(&gz, &rel, "http://up/repo/repodata/primary.xml.gz", YumXmlType::Primary).ok().unwrap();
    assert_eq!(pkgs.len(), 1);
    assert_eq!(pkgs[0].url, "http://up/repo/Packages/p-1.rpm");
    assert_eq!(pkgs[0].relative, vec!["repo".to_string(), "Packages".to_string()]);
}

#[test]
fn extension_handler_gating() {
    let rel = vec!["repo".to_string(), "repodata".to_string()];
    let url = "http://up/repo/repodata/repomd.xml";
    let on = extension_handler(true, "/m/repo/repodata/repomd.xml", &rel, url, REPOMD.as_bytes()).ok().unwrap();
    assert_eq!(on.len(), 1);
    assert_eq!(on[0].url, "http://up/repo/repodata/abc-primary.xml.gz");
    assert_eq!(on[0].relative, vec!["repo".to_string(), "repodata".to_string()]);
    assert_eq!(on[0].filename, "abc-primary.xml.gz");
    let off = extension_handler(false, "/m/repo/repodata/repomd.xml", &rel, url, REPOMD.as_bytes()).ok().unwrap();
    assert!(off.is_empty());
    let other = extension_handler(true, "/m/repo/readme.txt", &rel, url, b"").ok().unwrap();
    assert!(other.is_empty());
}

#[test]
fn humanized_sizes() {
    assert_eq!(get_humanized("1767"), Some(FileSize::HumanizedBinary { digits: 1767, decimals: 0, unit: SizeUnit::B }));
    assert_eq!(get_humanized("1.2M"), Some(FileSize::HumanizedBinary { digits: 12, decimals: 1, unit: SizeUnit::M }));
    assert_eq!(get_humanized("3.25 KiB"), Some(FileSize::HumanizedBinary { digits: 325, decimals: 2, unit: SizeUnit::K }));
    assert_eq!(get_humanized("12k"), Some(FileSize::HumanizedBinary { digits: 12, decimals: 0, unit: SizeUnit::K }));
    assert_eq!(get_humanized("1."), None);
    assert_eq!(get_humanized("1.2345K"), Some(FileSize::HumanizedBinary { digits: 12345, decimals: 4, unit: SizeUnit::K }));
    assert_eq!(get_humanized("0.00000000000000000001"), None);
    assert_eq!(get_humanized("K"), None);
    assert_eq!(get_humanized("12X"), None);
    assert_eq!(get_humanized("99999999999999999999"), None);
}

#[test]
fn fancyindex_rows() {
    let p = FancyIndexListingParser;
    let base = "http://localhost:1921/loongnix/";
    assert_eq!(p.parse_row(base, "../", "Parent Directory/", "-", "-").ok().unwrap().is_none(), true);
    let dir = p.parse_row(base, "contrib/", "contrib/", " - ", " 2023-08-15 05:48 ").ok().unwrap().unwrap();
    assert_eq!(dir.name, "contrib");
    assert_eq!(dir.url, "http://localhost:1921/loongnix/contrib/");
    assert_eq!(dir.type_, FileType::Directory);
    assert_eq!(dir.size, None);
    assert_eq!(dir.mtime, 1692078480);
    let file = p.parse_row("http://localhost:1921/bmclapi/", "lwjgURL", "lwjgURL", "1767", "2021-04-30 20:55:32").ok().unwrap().unwrap();
    assert_eq!(file.name, "lwjgURL");
    assert_eq!(file.type_, FileType::File);
    assert_eq!(file.size, Some(FileSize::HumanizedBinary { digits: 1767, decimals: 0, unit: SizeUnit::B }));
    assert_eq!(file.mtime, 1619816132);
    assert!(p.parse_row(base, "./", "./", "-", "2021-04-30 20:55").ok().unwrap().is_none());
    assert!(p.parse_row(base, "..", "..", "-", "2021-04-30 20:55").ok().unwrap().is_none());
    assert!(matches!(p.parse_row(base, "f", "f", "1767", "2021-04-30"), Err(RowError::Date)));
    assert!(matches!(p.parse_row(base, "f", "f", "huge", "2021-04-30 20:55"), Err(RowError::Size)));
    assert!(matches!(p.parse_row("nowhere", "f", "f", "1", "2021-04-30 20:55"), Err(RowError::Url)));
}

#[test]
fn probe_is_first_file() {
    let mk = |name: &str, t: FileType| ListItem {
        url: format!("http://up/{}", name),
        name: name.to_string(),
        type_: t,
        size: None,
        mtime: 0,
        skip_check: false,
    };
    let items = vec![mk("d/", FileType::Directory), mk("a", FileType::File), mk("b", FileType::File)];
    assert_eq!(first_file_url(&items), Some("http://up/a".to_string()));
    assert_eq!(first_file_url(&vec![mk("d/", FileType::Directory)]), None);
}

#[test]
fn repository_base_url() {
    assert_eq!(tsumugu::repo_base("http://up/el9/repodata/repomd.xml"), Some("http://up/el9/".to_string()));
    assert_eq!(tsumugu::repo_base("not a url"), None);
}

#[test]
fn probe_listed_time() {
    let mk = |name: &str, m: i64| ListItem {
        url: format!("http://up/{}", name),
        name: name.to_string(),
        type_: FileType::File,
        size: None,
        mtime: m,
        skip_check: false,
    };
    let items = vec![mk("a", 1), mk("b", 2), mk("b", 3)];
    assert_eq!(tsumugu::listed_mtime(&items, "http://up/b"), Some(2));
    assert_eq!(tsumugu::listed_mtime(&items, "http://up/c"), None);
}

#[test]
fn first_capture_group() {
    let p = tsumugu::Pattern::new("a(b+)c").ok().unwrap();
    assert_eq!(p.first_group("xxabbbc"), Some("bbb".to_string()));
    assert_eq!(p.first_group("ac"), None);
}

#[test]
fn timezone_chain() {
    let fixed = tsumugu::timezone_first_step(Some(8), None);
    assert!(matches!(fixed, tsumugu::TimezoneStep::Fixed(28800)));
    assert!(matches!(tsumugu::timezone_first_step(Some(30), None), tsumugu::TimezoneStep::OutOfRange));
    assert!(matches!(tsumugu::timezone_first_step(None, Some(None)), tsumugu::TimezoneStep::Disabled));
    assert!(matches!(tsumugu::timezone_first_step(None, None), tsumugu::TimezoneStep::ListRoot));
    match tsumugu::timezone_first_step(None, Some(Some("http://up/f".to_string()))) {
        tsumugu::TimezoneStep::Probe(u) => assert_eq!(u, "http://up/f"),
        _ => panic!("expected a probe"),
    }
    let items = vec![ListItem {
        url: "http://up/a".to_string(),
        name: "a".to_string(),
        type_: FileType::File,
        size: None,
        mtime: 0,
        skip_check: false,
    }];
    match tsumugu::timezone_from_root(Some(&items)) {
        tsumugu::TimezoneStep::Probe(u) => assert_eq!(u, "http://up/a"),
        _ => panic!("expected a probe"),
    }
    assert!(matches!(tsumugu::timezone_from_root(None), tsumugu::TimezoneStep::Disabled));
    assert!(matches!(tsumugu::timezone_from_root(Some(&vec![])), tsumugu::TimezoneStep::Disabled));
}

#[test]
fn trims_unicode_white_space() {
    assert_eq!(tsumugu::trim("\u{3000} a b\t\n"), "a b");
    assert_eq!(tsumugu::trim("  "), "");
    assert_eq!(tsumugu::trim("x"), "x");
    assert_eq!(tsumugu::trim("\u{85}x\u{a0}y\u{2029}"), "x\u{a0}y");
}

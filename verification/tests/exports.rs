use compitutto::exports::{is_export_component, is_export_file, is_export_name, select_exports};

fn names(list: &[&str]) -> Vec<String> {
    list.iter().map(|s| s.to_string()).collect()
}

// ========== is_export_file ==========

#[test]
fn test_is_export_file_valid() {
    assert!(is_export_file("export_2025.xls"));
    assert!(is_export_file("export_homework.xls"));
    assert!(is_export_file("export_.xls"));
    assert!(is_export_file("/path/to/export_data.xls"));
    assert!(is_export_file("data/export_test.xls"));
}

#[test]
fn test_is_export_file_xlsx() {
    // .xlsx files should also match (contains ".xls")
    assert!(is_export_file("export_2025.xlsx"));
}

#[test]
fn test_is_export_file_invalid_prefix() {
    assert!(!is_export_file("homework.xls"));
    assert!(!is_export_file("data.xls"));
    assert!(!is_export_file("xport_file.xls"));
    assert!(!is_export_file("Export_file.xls")); // Case sensitive
}

#[test]
fn test_is_export_file_invalid_extension() {
    assert!(!is_export_file("export_data.txt"));
    assert!(!is_export_file("export_data.csv"));
    assert!(!is_export_file("export_data.json"));
    assert!(!is_export_file("export_data"));
}

#[test]
fn test_is_export_file_edge_cases() {
    assert!(!is_export_file(""));
    assert!(!is_export_file("/"));
    assert!(!is_export_file("/path/to/"));
    assert!(!is_export_file("."));
    assert!(!is_export_file(".."));
}

#[test]
fn only_the_final_component_counts() {
    assert!(!is_export_file("export_dir.xls/notes.txt"));
    assert!(!is_export_file("/export_/a.xls"));
    assert!(is_export_file("export_dir.xls/export_a.xls"));
    assert!(is_export_file("data/export_a.xls/"));
}

#[test]
fn a_plain_name_is_its_own_final_component() {
    for name in ["export_a.xls", "export_.xlsx", "export_a b.xls", "export_...xls", "export_é.xls"] {
        assert!(is_export_file(name));
        assert_eq!(is_export_file(name), is_export_name(name));
    }
    for name in ["homework.xls", "export_a", "...", ".xls", "export", "a"] {
        assert!(!is_export_file(name));
        assert_eq!(is_export_file(name), is_export_name(name));
    }
}

// ========== is_export_component ==========

#[test]
fn a_path_without_a_final_component_names_no_export() {
    assert!(!is_export_component(&None));
}

#[test]
fn a_final_component_is_held_to_the_rule_for_names() {
    assert!(is_export_component(&Some("export_2025.xls".to_string())));
    assert!(is_export_component(&Some("export_2025.xlsx".to_string())));
    assert!(!is_export_component(&Some("homework.xls".to_string())));
    assert!(!is_export_component(&Some("export_data".to_string())));
    assert!(!is_export_component(&Some(String::new())));
}

// ========== is_export_name ==========

#[test]
fn export_names_start_with_the_prefix_and_hold_the_mark() {
    assert!(is_export_name("export_2025.xls"));
    assert!(is_export_name("export_.xls"));
    assert!(is_export_name("export_.xls.bak"));
    assert!(is_export_name("export_a.xlsx"));
    assert!(is_export_name("export_a.xlsm.tmp"));
    assert!(!is_export_name("export_"));
    assert!(!is_export_name("export.xls"));
    assert!(!is_export_name(" export_a.xls"));
    assert!(!is_export_name("my_export_a.xls"));
    assert!(!is_export_name("export_a.XLS"));
    assert!(!is_export_name("export_a.xl"));
    assert!(!is_export_name(""));
    assert!(!is_export_name(".xls"));
}

// ========== select_exports ==========

#[test]
fn test_find_all_exports_no_data_dir() {
    assert!(select_exports(vec![]).is_empty());
}

#[test]
fn test_find_all_exports_with_export_files() {
    let files = select_exports(names(&[
        "export_20250116.xlsx",
        "other_file.xls",
        "export_20250115.xls",
    ]));

    assert_eq!(files.len(), 2);
    assert!(files[0].contains("export_20250115"));
    assert!(files[1].contains("export_20250116"));
}

#[test]
fn test_find_all_exports_empty_data_dir() {
    let files = select_exports(names(&["notes.txt", "homework.json"]));
    assert!(files.is_empty());
}

#[test]
fn exports_come_in_lexicographic_order() {
    let files = select_exports(names(&[
        "export_b.xls",
        "export_10.xls",
        "export_a.xls",
        "export_9.xls",
        "export_B.xls",
        "export_a.xls.old",
        "export_.xls",
    ]));
    let mut expected = names(&[
        "export_b.xls",
        "export_10.xls",
        "export_a.xls",
        "export_9.xls",
        "export_B.xls",
        "export_a.xls.old",
        "export_.xls",
    ]);
    expected.sort();
    assert_eq!(files, expected);
    assert_eq!(files[0], "export_.xls");
    assert_eq!(files[1], "export_10.xls");
    assert_eq!(files[2], "export_9.xls");
}

#[test]
fn order_goes_by_code_point() {
    let files = select_exports(names(&["export_é.xls", "export_z.xls", "export_Z.xls"]));
    assert_eq!(files, names(&["export_Z.xls", "export_z.xls", "export_é.xls"]));
}

#[test]
fn a_name_listed_twice_is_read_twice() {
    let files = select_exports(names(&["export_a.xls", "export_a.xls"]));
    assert_eq!(files.len(), 2);
}

use dataset_store::files::{
    get_max_body_size, get_max_upload_size, header_row, is_current_file, is_expired, is_preview,
    rows_shown,
    setting_or, tmp_file_delete_after_seconds, FileInfo, RowLimits,
};

#[test]
fn file_info_holds_what_it_is_given() {
    let info = FileInfo::new("sales.xlsx", 2048, 17);
    assert_eq!(info, FileInfo { filename: "sales.xlsx".to_string(), size: 2048, age: 17 });
}

#[test]
fn upload_and_body_sizes() {
    assert_eq!(get_max_upload_size(None), 50 * 1024 * 1024);
    assert_eq!(get_max_upload_size(Some("1000")), 1000);
    assert_eq!(get_max_upload_size(Some("ten")), 50 * 1024 * 1024);
    assert_eq!(get_max_body_size(50 * 1024 * 1024), 100 * 1024 * 1024 + 32 * 1024);
    assert_eq!(get_max_body_size(0), 32 * 1024);
}

#[test]
fn settings_fall_back_to_their_defaults() {
    assert_eq!(setting_or(Some("12"), 5), 12);
    assert_eq!(setting_or(Some("+12"), 5), 12);
    assert_eq!(setting_or(Some("-12"), 5), 5);
    assert_eq!(setting_or(Some(" 12"), 5), 5);
    assert_eq!(setting_or(None, 5), 5);
    assert_eq!(tmp_file_delete_after_seconds(None), 600);
    assert_eq!(tmp_file_delete_after_seconds(Some("60")), 60);
    assert_eq!(tmp_file_delete_after_seconds(Some("soon")), 600);
}

#[test]
fn stale_files_are_told_from_the_current_one() {
    assert!(is_current_file("a.csv", Some("a.csv")));
    assert!(!is_current_file("a.csv", Some("b.csv")));
    assert!(!is_current_file("a.csv", None));
    assert!(is_expired(601, 600));
    assert!(!is_expired(600, 600));
}

#[test]
fn row_limits_by_kind_of_request() {
    let limits = RowLimits::from_settings(None, None, None, None);
    assert_eq!(
        limits,
        RowLimits { default_limit: 1000, default_preview_limit: 25, max_limit: 10000, max_preview_limit: 200 }
    );
    assert_eq!(limits.row_limit(None, false), 1000);
    assert_eq!(limits.row_limit(None, true), 25);
    assert_eq!(limits.row_limit(Some(50), false), 50);
    assert_eq!(limits.row_limit(Some(50_000), false), 10_000);
    assert_eq!(limits.row_limit(Some(500), true), 200);
    assert_eq!(limits.row_limit(Some(200), true), 200);
    let set = RowLimits::from_settings(Some("10"), Some("x"), Some("20"), Some("5"));
    assert_eq!(
        set,
        RowLimits { default_limit: 10, default_preview_limit: 25, max_limit: 20, max_preview_limit: 5 }
    );
}

#[test]
fn header_rows_and_shown_rows() {
    assert_eq!(header_row(0), 0);
    assert_eq!(header_row(255), 255);
    assert_eq!(header_row(256), 0);
    assert_eq!(rows_shown(10, 100), 10);
    assert_eq!(rows_shown(100, 100), 100);
    assert_eq!(rows_shown(101, 100), 100);
}

#[test]
fn preview_modes_by_key() {
    for key in ["preview", "Preview", "p", "pre", "multi-mode", "multiple", "preview_multiple", "m"] {
        assert!(is_preview(key), "{}", key);
    }
    for key in ["sync", "async", "", "previews"] {
        assert!(!is_preview(key), "{}", key);
    }
}

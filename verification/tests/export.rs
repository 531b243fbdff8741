use parkplatz::export::{export_file_path, exports_dir, new_export_file_path};

#[test]
fn export_file_is_named_after_the_timestamp() {
    assert_eq!(
        export_file_path("/data/parkplatz/exports", "20240101_123000"),
        "/data/parkplatz/exports/parkplatz_notizen_20240101_123000.json"
    );
    assert_eq!(exports_dir("/data/parkplatz"), "/data/parkplatz/exports");
}

#[test]
fn new_export_file_has_a_local_timestamp() {
    let path = new_export_file_path("/d");
    assert!(path.starts_with("/d/parkplatz_notizen_"));
    assert!(path.ends_with(".json"));
    let stamp = &path["/d/parkplatz_notizen_".len()..path.len() - ".json".len()];
    assert_eq!(stamp.len(), 15);
    assert_eq!(&stamp[8..9], "_");
}

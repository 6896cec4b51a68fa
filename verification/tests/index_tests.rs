use desktop_files::index::{build_index, split_categories, CategoryIndex, ScannedFile};

fn file(path: &str, content: &str) -> ScannedFile {
    ScannedFile { path: path.to_string(), content: Some(content.to_string()) }
}

fn bucket_names(idx: &CategoryIndex) -> Vec<String> {
    idx.buckets.iter().map(|b| b.category.clone()).collect()
}

fn bucket_len(idx: &CategoryIndex, category: &str) -> usize {
    idx.buckets
        .iter()
        .find(|b| b.category == category)
        .map(|b| b.entries.len())
        .unwrap_or(0)
}

#[test]
fn split_categories_trims_and_drops_empty_segments() {
    assert_eq!(split_categories("Utility;Development"), vec!["Utility", "Development"]);
    assert_eq!(split_categories(" Utility ; ; Development ;"), vec!["Utility", "Development"]);
    assert_eq!(split_categories(""), Vec::<String>::new());
    assert_eq!(split_categories(";;;"), Vec::<String>::new());
}

#[test]
fn record_fans_out_once_per_category() {
    let files = vec![file(
        "/apps/tool.desktop",
        "[Desktop Entry]\nName=Tool\nCategories=Utility;Development\n",
    )];
    let idx = build_index(&files);
    assert_eq!(bucket_len(&idx, "Utility"), 1);
    assert_eq!(bucket_len(&idx, "Development"), 1);
    assert_eq!(idx.buckets.len(), 2);
}

#[test]
fn fan_out_grows_each_listed_bucket_by_one() {
    let base = vec![file("/apps/a.desktop", "[Desktop Entry]\nName=A\nCategories=Utility\n")];
    let idx_before = build_index(&base);
    let grown = vec![
        file("/apps/a.desktop", "[Desktop Entry]\nName=A\nCategories=Utility\n"),
        file("/apps/b.desktop", "[Desktop Entry]\nName=B\nCategories=Utility;Development\n"),
    ];
    let idx_after = build_index(&grown);
    assert_eq!(bucket_len(&idx_after, "Utility"), bucket_len(&idx_before, "Utility") + 1);
    assert_eq!(bucket_len(&idx_after, "Development"), bucket_len(&idx_before, "Development") + 1);
}

#[test]
fn missing_categories_key_lands_in_uncategorized() {
    let files = vec![file("/apps/bare.desktop", "[Desktop Entry]\nName=Bare\n")];
    let idx = build_index(&files);
    assert_eq!(bucket_names(&idx), vec!["Uncategorized"]);
    assert_eq!(bucket_len(&idx, "Uncategorized"), 1);
}

#[test]
fn unparsable_file_lands_in_uncategorized() {
    let files = vec![file("/apps/broken.desktop", "[Desktop Entry]\nType=Application\n")];
    let idx = build_index(&files);
    assert_eq!(bucket_names(&idx), vec!["Uncategorized"]);
}

#[test]
fn unreadable_file_lands_in_uncategorized() {
    let files = vec![ScannedFile { path: "/apps/locked.desktop".to_string(), content: None }];
    let idx = build_index(&files);
    assert_eq!(bucket_names(&idx), vec!["Uncategorized"]);
}

#[test]
fn empty_category_list_falls_back_to_uncategorized() {
    let files = vec![file("/apps/x.desktop", "[Desktop Entry]\nName=X\nCategories= ; ;\n")];
    let idx = build_index(&files);
    assert_eq!(bucket_names(&idx), vec!["Uncategorized"]);
}

#[test]
fn buckets_are_sorted_by_category_name() {
    let files = vec![
        file("/apps/z.desktop", "[Desktop Entry]\nName=Z\nCategories=Utility\n"),
        file("/apps/a.desktop", "[Desktop Entry]\nName=A\nCategories=Development\n"),
        file("/apps/m.desktop", "[Desktop Entry]\nName=M\nCategories=Game\n"),
    ];
    let idx = build_index(&files);
    assert_eq!(bucket_names(&idx), vec!["Development", "Game", "Utility"]);
}

#[test]
fn entries_keep_scan_order_within_a_bucket() {
    let files = vec![
        file("/apps/second.desktop", "[Desktop Entry]\nName=S\nCategories=Utility\n"),
        file("/apps/first.desktop", "[Desktop Entry]\nName=F\nCategories=Utility\n"),
    ];
    let idx = build_index(&files);
    let bucket = idx.buckets.iter().find(|b| b.category == "Utility").unwrap();
    assert_eq!(bucket.entries[0].path, "/apps/second.desktop");
    assert_eq!(bucket.entries[1].path, "/apps/first.desktop");
}

#[test]
fn entries_carry_base_name_and_full_path() {
    let files = vec![file(
        "/usr/share/applications/editor.desktop",
        "[Desktop Entry]\nName=Editor\nCategories=Utility\n",
    )];
    let idx = build_index(&files);
    let bucket = &idx.buckets[0];
    assert_eq!(bucket.entries[0].display_name, "editor.desktop");
    assert_eq!(bucket.entries[0].path, "/usr/share/applications/editor.desktop");
}

#[test]
fn category_count_is_bucket_length() {
    let files = vec![
        file("/apps/a.desktop", "[Desktop Entry]\nName=A\nCategories=Utility\n"),
        file("/apps/b.desktop", "[Desktop Entry]\nName=B\nCategories=Utility\n"),
        file("/apps/c.desktop", "[Desktop Entry]\nName=C\nCategories=Game\n"),
    ];
    let idx = build_index(&files);
    assert_eq!(bucket_len(&idx, "Utility"), 2);
    assert_eq!(bucket_len(&idx, "Game"), 1);
}

use nclbk::bookmark::{bookmarks_from_records, normalize_url, Bookmark};

fn bookmark(id: u64, url: &str, tags: &[&str]) -> Bookmark {
    let mut b = Bookmark::blank();
    b.id = id;
    b.url = url.to_string();
    b.tags = tags.iter().map(|t| t.to_string()).collect();
    b
}

fn is_blank(b: &Bookmark) -> bool {
    b.added == 0
        && b.clickcount == 0
        && b.description.is_empty()
        && b.folders.is_empty()
        && b.id == 0
        && b.lastmodified == 0
        && b.public.is_none()
        && b.tags.is_empty()
        && b.title.is_empty()
        && b.url.is_empty()
        && b.user_id.is_none()
}

#[test]
fn reads_single_bookmark_record() {
    let mut b = bookmark(836, "https://great.example/", &["go"]);
    b.title = "Example title".to_string();
    b.description = "Website Description".to_string();
    b.lastmodified = 1662500203;
    b.added = 1662500203;
    b.folders = vec![-1];
    let bookmarks = bookmarks_from_records(vec![Some(b)]);
    assert!(bookmarks.len() == 1);
    assert!(bookmarks[0].id == 836);
    assert!(bookmarks[0].url == "https://great.example/");
    assert!(bookmarks[0].description == "Website Description");
    assert!(bookmarks[0].tags.len() == 1);
    assert!(bookmarks[0].tags[0] == "go");
    assert_eq!(bookmarks[0].folders, vec![-1]);
}

#[test]
fn null_records_become_blank_bookmarks_in_place() {
    let records = vec![
        None,
        Some(bookmark(1, "https://a.example/", &[])),
        None,
        Some(bookmark(2, "https://b.example/", &["x"])),
        None,
    ];
    let bookmarks = bookmarks_from_records(records);
    assert_eq!(bookmarks.len(), 5);
    assert!(is_blank(&bookmarks[0]));
    assert_eq!(bookmarks[1].id, 1);
    assert!(is_blank(&bookmarks[2]));
    assert_eq!(bookmarks[3].id, 2);
    assert_eq!(bookmarks[3].tags, vec!["x".to_string()]);
    assert!(is_blank(&bookmarks[4]));
}

#[test]
fn empty_record_list_reads_as_no_bookmarks() {
    assert!(bookmarks_from_records(vec![]).is_empty());
}

#[test]
fn default_bookmark_is_blank() {
    assert!(is_blank(&Bookmark::default()));
}

#[test]
fn url_loses_one_layer_of_quotes() {
    assert_eq!(normalize_url("\"https://example.com/\""), "https://example.com/");
    assert_eq!(normalize_url("\"\"https://example.com/\"\""), "\"https://example.com/\"");
    assert_eq!(normalize_url("https://example.com/"), "https://example.com/");
    assert_eq!(normalize_url("\"https://example.com/"), "https://example.com/");
    assert_eq!(normalize_url("https://example.com/\""), "https://example.com/");
    assert_eq!(normalize_url("\""), "");
    assert_eq!(normalize_url("\"\""), "");
    assert_eq!(normalize_url(""), "");
}

use nclbk::gateway::{query_parameters, sorted_tags, status_is_success, BookmarkAPIClient, ClientError};
use nclbk::text::{bool_word, decimal};
use url::Url;

const BASE: &str = "http://127.0.0.1:8080/index.php/apps/bookmarks/public/rest/v2";

fn client() -> BookmarkAPIClient {
    BookmarkAPIClient::new(
        String::from("auth_id"),
        String::from("auth_Secret"),
        String::from(BASE),
    )
    .unwrap()
}

fn strings(items: &[&str]) -> Vec<String> {
    items.iter().map(|s| s.to_string()).collect()
}

#[test]
fn bookmark_api_client_should_have_expected_urls() -> Result<(), url::ParseError> {
    let base_url = BASE;
    let client = client();
    let expected_bookmarks_url = Url::parse(base_url)?.join("/bookmark")?;
    let expected_tags_url = Url::parse(base_url)?.join("/tag")?;
    assert!(client.bookmarks_url() == expected_bookmarks_url.as_str());
    assert!(client.tags_url() == expected_tags_url.as_str());
    Ok(())
}

#[test]
fn client_keeps_root_and_joins_absolute_paths() {
    let client = client();
    assert_eq!(client.root_url(), BASE);
    assert_eq!(client.bookmarks_url(), "http://127.0.0.1:8080/bookmark");
    assert_eq!(client.tags_url(), "http://127.0.0.1:8080/tag");
    assert_eq!(client.tags_request_url(), "http://127.0.0.1:8080/tag");
}

#[test]
fn client_rejects_unparsable_root() {
    let r = BookmarkAPIClient::new(String::from("a"), String::from("b"), String::from("no url here"));
    assert!(matches!(r, Err(ClientError::InvalidUrl)));
}

#[test]
fn auth_header_is_basic_with_base64_credentials() {
    assert_eq!(client().auth_header(), "Basic YXV0aF9pZDphdXRoX1NlY3JldA==");
}

#[test]
fn query_without_tags_or_filters_is_the_fixed_part() {
    assert_eq!(query_parameters(&vec![], &vec![], false), "page=-1&conjunction=or&unavailable=false");
    assert_eq!(query_parameters(&vec![], &vec![], true), "page=-1&conjunction=or&unavailable=true");
}

#[test]
fn query_lists_tags_then_filters() {
    let q = query_parameters(&strings(&["go", "rust"]), &strings(&["news"]), true);
    assert_eq!(q, "tags[]=go&tags[]=rust&search[]=news&page=-1&conjunction=or&unavailable=true");
    let only_filters = query_parameters(&vec![], &strings(&["a", "b"]), false);
    assert_eq!(only_filters, "search[]=a&search[]=b&page=-1&conjunction=or&unavailable=false");
}

#[test]
fn bookmarks_request_url_for_query_without_criteria() {
    let url = client().bookmarks_request_url(&vec![], &vec![], false);
    assert_eq!(url, "http://127.0.0.1:8080/bookmark?page=-1&conjunction=or&unavailable=false");
}

#[test]
fn delete_request_url_names_the_id() {
    let c = client();
    assert_eq!(c.delete_request_url(836), "http://127.0.0.1:8080/bookmark/836");
    assert_eq!(c.delete_request_url(0), "http://127.0.0.1:8080/bookmark/0");
    assert_eq!(c.delete_request_url(u64::MAX), "http://127.0.0.1:8080/bookmark/18446744073709551615");
}

#[test]
fn decimal_and_bool_words() {
    assert_eq!(decimal(0), "0");
    assert_eq!(decimal(9), "9");
    assert_eq!(decimal(10), "10");
    assert_eq!(decimal(1662500203), "1662500203");
    assert_eq!(bool_word(true), "true");
    assert_eq!(bool_word(false), "false");
}

#[test]
fn tags_come_out_sorted_for_any_order() {
    let expected = strings(&["Zeta", "alpha", "beta", "beta", "gamma", "\u{e9}t\u{e9}"]);
    let orders = [
        strings(&["gamma", "beta", "\u{e9}t\u{e9}", "alpha", "Zeta", "beta"]),
        strings(&["\u{e9}t\u{e9}", "gamma", "beta", "beta", "alpha", "Zeta"]),
        strings(&["Zeta", "alpha", "beta", "beta", "gamma", "\u{e9}t\u{e9}"]),
    ];
    for order in orders {
        assert_eq!(sorted_tags(order), expected);
    }
    assert_eq!(sorted_tags(vec![]), Vec::<String>::new());
    assert_eq!(sorted_tags(strings(&["ab", "a"])), strings(&["a", "ab"]));
}

#[test]
fn success_status_is_the_2xx_class() {
    assert!(!status_is_success(199));
    assert!(status_is_success(200));
    assert!(status_is_success(204));
    assert!(status_is_success(299));
    assert!(!status_is_success(300));
    assert!(!status_is_success(404));
    assert!(!status_is_success(500));
}

use wnacg::decimal::push_decimal;
use wnacg::net::{GetRequest, Header, Url};
use wnacg::{BASE_URL, USER_AGENT};

#[test]
fn manga_address() {
    let url = Url::manga("12345".to_string());
    assert_eq!(url.to_string(), format!("{}/photos-index-aid-12345.html", BASE_URL));
    assert_eq!(url.to_string(), "https://www.wnacg.com/photos-index-aid-12345.html");
}

#[test]
fn chapter_address() {
    let url = Url::chapter("999".to_string());
    assert_eq!(url.to_string(), format!("{}/photos-gallery-aid-999.html", BASE_URL));
    assert_eq!(url.to_string(), "https://www.wnacg.com/photos-gallery-aid-999.html");
}

#[test]
fn id_is_not_encoded() {
    let url = Url::manga("a b/c".to_string());
    assert_eq!(url.to_string(), "https://www.wnacg.com/photos-index-aid-a b/c.html");
}

#[test]
fn search_address() {
    let url = Url::Search { query: "one%20piece".to_string(), page: 2 };
    assert_eq!(
        url.to_string(),
        "https://www.wnacg.com/search/index.php?q=one%20piece&s=create_time_DESC&syn=yes&p=2"
    );
}

#[test]
fn category_address() {
    let url = Url::Filter { category: "5".to_string(), tag: String::new(), page: 12 };
    assert_eq!(url.to_string(), "https://www.wnacg.com/albums-index-page-12-cate-5.html");
}

#[test]
fn tag_address_drops_the_category() {
    let url = Url::Filter { category: "5".to_string(), tag: "school".to_string(), page: 12 };
    assert_eq!(url.to_string(), "https://www.wnacg.com/albums-index-page-12-tag-school.html");
}

#[test]
fn address_of_no_category() {
    let url = Url::Filter { category: String::new(), tag: String::new(), page: 1 };
    assert_eq!(url.to_string(), "https://www.wnacg.com/albums-index-page-1-cate-.html");
}

#[test]
fn page_numbers_are_written_in_decimal() {
    for page in [0, 1, 9, 10, 11, 99, 100, 101, 1000, 65536, i32::MAX, -1, -10, -999, i32::MIN] {
        let url = Url::Filter { category: "c".to_string(), tag: String::new(), page };
        assert_eq!(
            url.to_string(),
            format!("https://www.wnacg.com/albums-index-page-{}-cate-c.html", page)
        );
    }
}

#[test]
fn largest_and_smallest_page() {
    let url = Url::Search { query: "q".to_string(), page: i32::MAX };
    assert!(url.to_string().ends_with("&p=2147483647"));
    let url = Url::Search { query: "q".to_string(), page: i32::MIN };
    assert!(url.to_string().ends_with("&p=-2147483648"));
}

#[test]
fn decimal_is_appended() {
    let mut text = "n=".to_string();
    push_decimal(&mut text, 120);
    assert_eq!(text, "n=120");
    push_decimal(&mut text, -7);
    assert_eq!(text, "n=120-7");
    push_decimal(&mut text, 0);
    assert_eq!(text, "n=120-70");
}

#[test]
fn addresses_start_with_the_origin() {
    let urls = [
        Url::manga("1".to_string()),
        Url::chapter("1".to_string()),
        Url::Search { query: "q".to_string(), page: 1 },
        Url::Filter { category: "c".to_string(), tag: "t".to_string(), page: 1 },
    ];
    for url in urls {
        assert!(url.to_string().starts_with("https://www.wnacg.com/"));
    }
}

#[test]
fn request_is_a_get_of_the_address_with_the_user_agent() {
    let url = Url::from_query_or_filters(Some("a b"), 2, &[]);
    let request = url.request();
    let expected = GetRequest {
        url: "https://www.wnacg.com/search/index.php?q=a%20b&s=create_time_DESC&syn=yes&p=2"
            .to_string(),
        headers: vec![Header { name: "User-Agent".to_string(), value: USER_AGENT.to_string() }],
    };
    assert_eq!(request, expected);
}

#[test]
fn request_of_each_kind_of_page() {
    let urls = [
        Url::manga("12345".to_string()),
        Url::chapter("999".to_string()),
        Url::Search { query: "q".to_string(), page: 1 },
        Url::Filter { category: "c".to_string(), tag: String::new(), page: 1 },
    ];
    for url in urls {
        let request = url.request();
        assert_eq!(request.url, url.to_string());
        assert_eq!(request.headers.len(), 1);
        assert_eq!(request.headers[0].name, "User-Agent");
        assert_eq!(request.headers[0].value, USER_AGENT);
    }
}

#[test]
fn clone_is_equal() {
    let url = Url::Filter { category: "5".to_string(), tag: "t".to_string(), page: 3 };
    assert_eq!(url.clone(), url);
}

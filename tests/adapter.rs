use nettruyen::filters::{normalize, Filter, FilterKind, FilterValue, QueryIntent};
use nettruyen::image::{image_request_headers, page_image_url, IMAGE_PROXY, USER_AGENT};
use nettruyen::search_url::{get_search_url, manga_list_url, BASE_URL};
use nettruyen::selectors::Selectors;
use nettruyen::tables::{
    chapter_threshold, get_tag_id, listing_map, sort_code, status_map, MangaStatus,
};
use nettruyen::text::{int_to_text, str_eq, urlencode};

fn genre(name: &str, value: i64) -> Filter {
    Filter { kind: FilterKind::Genre, name: name.to_string(), value: FilterValue::Int(value) }
}

fn choice(name: &str, value: i64) -> Filter {
    Filter { kind: FilterKind::Select, name: name.to_string(), value: FilterValue::Int(value) }
}

fn title(text: &str) -> Filter {
    Filter { kind: FilterKind::Title, name: String::from("Title"), value: FilterValue::Text(text.to_string()) }
}

fn query_value(url: &str, key: &str) -> Option<String> {
    let query = url.split_once('?').map(|(_, q)| q)?;
    let mut found = None;
    for part in query.split('&') {
        if let Some((k, v)) = part.split_once('=') {
            if k == key {
                found = Some(v.to_string());
            }
        }
    }
    found
}

#[test]
fn chapter_threshold_table() {
    assert_eq!(chapter_threshold(0), 1);
    assert_eq!(chapter_threshold(1), 50);
    assert_eq!(chapter_threshold(3), 200);
    assert_eq!(chapter_threshold(6), 500);
    assert_eq!(chapter_threshold(99), 1);
    assert_eq!(chapter_threshold(-1), 1);
}

#[test]
fn sort_code_table() {
    assert_eq!(sort_code(0), 0);
    assert_eq!(sort_code(1), 15);
    assert_eq!(sort_code(8), 30);
    assert_eq!(sort_code(9), 5);
    assert_eq!(sort_code(50), 0);
}

#[test]
fn image_url_unchanged_without_proxy() {
    let url = "https://cdn.example.com/data/image 1.jpg";
    assert_eq!(page_image_url(url, None), url);
    assert_eq!(page_image_url(url, Some(1)), url);
    assert_eq!(page_image_url(url, Some(0)), url);
}

#[test]
fn image_url_through_proxy() {
    let url = "https://cdn.example.com/a b.jpg";
    let routed = page_image_url(url, Some(2));
    assert!(routed.starts_with(IMAGE_PROXY));
    assert_eq!(&routed[IMAGE_PROXY.len()..], "https%3A%2F%2Fcdn.example.com%2Fa%20b.jpg");
}

#[test]
fn image_headers() {
    let h = image_request_headers();
    assert_eq!(h.referer, "https://www.nettruyenco.com");
    assert_eq!(h.user_agent, USER_AGENT);
    assert!(h.user_agent.starts_with("Mozilla/5.0"));
}

#[test]
fn genre_include_and_exclude() {
    let intent = normalize(&vec![genre("Action", 0), genre("Romance", 1)]);
    assert_eq!(intent.excluded_tags, vec![get_tag_id("Action")]);
    assert_eq!(intent.included_tags, vec![get_tag_id("Romance")]);
    assert_eq!(intent.excluded_tags, vec![String::from("1")]);
    assert_eq!(intent.included_tags, vec![String::from("35")]);
}

#[test]
fn genre_other_value_ignored() {
    let intent = normalize(&vec![genre("Action", 2), genre("Romance", -1)]);
    assert!(intent.included_tags.is_empty());
    assert!(intent.excluded_tags.is_empty());
}

fn assert_default(intent: &QueryIntent) {
    assert_eq!(intent.title, "");
    assert!(intent.included_tags.is_empty());
    assert!(intent.excluded_tags.is_empty());
    assert_eq!(intent.sort_by, 0);
    assert_eq!(intent.gender, -1);
    assert_eq!(intent.completed, -1);
    assert_eq!(intent.chapter_count, 0);
}

#[test]
fn unknown_filter_skipped() {
    let intent = normalize(&vec![choice("Quốc gia", 3), choice("", 1)]);
    assert_default(&intent);
    let mut with = normalize(&vec![choice("Sắp xếp theo", 8)]);
    with.apply(&choice("Unknown", 4));
    assert_eq!(with.sort_by, 30);
    assert_eq!(with.gender, -1);
}

#[test]
fn empty_filters_give_default_intent() {
    assert_default(&normalize(&vec![]));
    assert_default(&QueryIntent::new());
}

#[test]
fn choices_fill_fields() {
    let intent = normalize(&vec![
        choice("Tình trạng", 2),
        choice("Số lượng chapter", 3),
        choice("Sắp xếp theo", 6),
        choice("Dành cho", 1),
        title("one piece"),
    ]);
    assert_eq!(intent.completed, 2);
    assert_eq!(intent.chapter_count, 200);
    assert_eq!(intent.sort_by, 20);
    assert_eq!(intent.gender, 1);
    assert_eq!(intent.title, "one%20piece");
}

#[test]
fn zero_choices_mean_unset() {
    let intent = normalize(&vec![choice("Tình trạng", 0), choice("Dành cho", 0)]);
    assert_eq!(intent.completed, -1);
    assert_eq!(intent.gender, -1);
}

#[test]
fn missing_values_fall_back() {
    let none = |name: &str| Filter {
        kind: FilterKind::Sort,
        name: name.to_string(),
        value: FilterValue::Null,
    };
    let intent = normalize(&vec![
        none("Tình trạng"),
        none("Số lượng chapter"),
        none("Sắp xếp theo"),
        none("Dành cho"),
        Filter { kind: FilterKind::Title, name: String::from("Title"), value: FilterValue::Null },
    ]);
    assert_eq!(intent.completed, -1);
    assert_eq!(intent.chapter_count, 1);
    assert_eq!(intent.sort_by, 0);
    assert_eq!(intent.gender, -1);
    assert_eq!(intent.title, "");
}

#[test]
fn order_does_not_matter() {
    let a = normalize(&vec![
        title("naruto"),
        genre("Action", 1),
        choice("Sắp xếp theo", 2),
        genre("Comedy", 0),
        choice("Dành cho", 2),
    ]);
    let b = normalize(&vec![
        choice("Dành cho", 2),
        genre("Comedy", 0),
        choice("Sắp xếp theo", 2),
        genre("Action", 1),
        title("naruto"),
    ]);
    assert_eq!(a.title, b.title);
    assert_eq!(a.sort_by, b.sort_by);
    assert_eq!(a.gender, b.gender);
    assert_eq!(a.completed, b.completed);
    assert_eq!(a.chapter_count, b.chapter_count);
    assert_eq!(a.included_tags, b.included_tags);
    assert_eq!(a.excluded_tags, b.excluded_tags);
}

#[test]
fn later_setting_of_a_field_wins() {
    let intent = normalize(&vec![choice("Sắp xếp theo", 2), choice("Sắp xếp theo", 8)]);
    assert_eq!(intent.sort_by, 30);
}

#[test]
fn search_url_with_nothing_set() {
    let url = get_search_url(BASE_URL, &QueryIntent::new(), 1);
    assert_eq!(url, "https://www.nettruyenco.com/tim-truyen-nang-cao?page=1&sort=0");
    for key in ["keyword", "genres", "notgenres", "gender", "status", "minchapter"] {
        assert_eq!(query_value(&url, key), None);
    }
}

#[test]
fn search_url_with_everything_set() {
    let intent = normalize(&vec![
        title("Đảo hải tặc"),
        genre("Action", 1),
        genre("Romance", 1),
        genre("Horror", 0),
        choice("Tình trạng", 1),
        choice("Số lượng chapter", 2),
        choice("Sắp xếp theo", 9),
        choice("Dành cho", 2),
    ]);
    let url = get_search_url("https://host.example", &intent, 3);
    assert_eq!(
        url,
        "https://host.example/tim-truyen-nang-cao?page=3&keyword=%C4%90%E1%BA%A3o%20h%E1%BA%A3i%20t%E1%BA%B7c&genres=1,35&notgenres=18&gender=2&status=1&minchapter=100&sort=5"
    );
}

#[test]
fn search_url_round_trip() {
    let intent = normalize(&vec![
        title("one piece & co"),
        genre("Action", 1),
        genre("Comedy", 1),
        genre("Drama", 0),
    ]);
    let url = get_search_url(BASE_URL, &intent, 2);
    let included: Vec<String> =
        query_value(&url, "genres").unwrap().split(',').map(String::from).collect();
    let excluded: Vec<String> =
        query_value(&url, "notgenres").unwrap().split(',').map(String::from).collect();
    assert_eq!(included, intent.included_tags);
    assert_eq!(excluded, intent.excluded_tags);
    assert_eq!(query_value(&url, "keyword").unwrap(), intent.title);
    assert_eq!(intent.title, "one%20piece%20%26%20co");
    assert_eq!(query_value(&url, "page").unwrap(), "2");
}

#[test]
fn manga_list_url_uses_site() {
    let url = manga_list_url(&vec![choice("Sắp xếp theo", 1)], 1);
    assert_eq!(url, "https://www.nettruyenco.com/tim-truyen-nang-cao?page=1&sort=15");
    let url = manga_list_url(&vec![], -4);
    assert_eq!(url, "https://www.nettruyenco.com/tim-truyen-nang-cao?page=-4&sort=0");
}

#[test]
fn percent_encoding() {
    assert_eq!(urlencode(""), "");
    assert_eq!(urlencode("abcXYZ019-._~"), "abcXYZ019-._~");
    assert_eq!(urlencode("a b&c=d/e"), "a%20b%26c%3Dd%2Fe");
    assert_eq!(urlencode("Tình"), "T%C3%ACnh");
}

#[test]
fn decimal_text() {
    assert_eq!(int_to_text(0), "0");
    assert_eq!(int_to_text(7), "7");
    assert_eq!(int_to_text(-123), "-123");
    assert_eq!(int_to_text(1000), "1000");
    assert_eq!(int_to_text(i64::MAX), "9223372036854775807");
    assert_eq!(int_to_text(i64::MIN), "-9223372036854775808");
}

#[test]
fn string_equality() {
    assert!(str_eq("Tình trạng", "Tình trạng"));
    assert!(!str_eq("Tình trạng", "Tinh trang"));
    assert!(!str_eq("abc", "abcd"));
    assert!(str_eq("", ""));
}

#[test]
fn tag_ids() {
    assert_eq!(get_tag_id("Action"), "1");
    assert_eq!(get_tag_id("Romance"), "35");
    assert_eq!(get_tag_id("Chuyển Sinh"), "5");
    assert_eq!(get_tag_id("Xuyên Không"), "56");
    assert_eq!(get_tag_id("action"), "");
    assert_eq!(get_tag_id("Nope"), "");
}

#[test]
fn statuses() {
    assert_eq!(status_map("Đang tiến hành"), MangaStatus::Ongoing);
    assert_eq!(status_map("Hoàn thành"), MangaStatus::Completed);
    assert_eq!(status_map("Completed"), MangaStatus::Unknown);
    assert_eq!(status_map(""), MangaStatus::Unknown);
}

#[test]
fn listings() {
    assert_eq!(listing_map("Truyện con gái"), "truyen-con-gai");
    assert_eq!(listing_map("Truyện con trai"), "truyen-con-trai");
    assert_eq!(listing_map("Hot"), "hot");
    assert_eq!(listing_map("Mới cập nhật"), "");
}

#[test]
fn selector_configuration() {
    let s = Selectors::new();
    assert_eq!(s.manga_cell, "div.items > div.row > div.item > figure.clearfix");
    assert_eq!(s.manga_details_tags_splitter, " - ");
    assert_eq!(s.chapter_date_selector, "div.col-xs-4");
    assert_eq!(s.transform_title(String::from("Tên")), "Tên");
    assert_eq!(s.transform_author(String::from("Tác giả")), "Tác giả");
    assert_eq!(s.transform_status(String::from("Hoàn thành")), "Hoàn thành");
}

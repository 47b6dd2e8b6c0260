use exhentai::error::{ExError, Field};
use exhentai::gallery::{
    first_match, parse_tag_row, BasicGalleryInfo, FullGalleryInfo, GalleryPage, ListingPage,
    TagRow,
};
use exhentai::text::{nth_piece, trim_matches_char};

fn strings(v: &[&str]) -> Vec<String> {
    v.iter().map(|s| s.to_string()).collect()
}

fn basic() -> BasicGalleryInfo {
    BasicGalleryInfo { title: "Basic".to_string(), url: "https://h/g/1/".to_string(), limit: true }
}

fn first_page() -> GalleryPage {
    GalleryPage {
        titles: strings(&["Title A"]),
        titles_jp: strings(&["Title JP"]),
        parents: vec![],
        tag_rows: vec![
            TagRow { names: strings(&["language:"]), values: strings(&["english"]) },
            TagRow { names: strings(&["artist:"]), values: strings(&["x"]) },
        ],
        rating_labels: strings(&["Average: 4.50"]),
        fav_counts: strings(&["123 times"]),
        listing: ListingPage {
            image_links: strings(&["p1a", "p1b", "p1c"]),
            next_links: strings(&["https://h/g/1/?p=1"]),
        },
    }
}

fn full(pages: &[&str], limit: bool) -> FullGalleryInfo {
    FullGalleryInfo {
        title: "T".to_string(),
        title_jp: None,
        url: "u".to_string(),
        parent: None,
        rating: "4.50".to_string(),
        fav_cnt: "1".to_string(),
        tags: vec![],
        img_pages: strings(pages),
        limit,
    }
}

#[test]
fn gallery_page_fields_are_extracted() {
    let crawl = basic().into_full_info(&first_page(), 10).unwrap();
    let info = &crawl.info;
    assert_eq!(info.title, "Title A");
    assert_eq!(info.title_jp, Some("Title JP".to_string()));
    assert_eq!(info.parent, None);
    assert_eq!(
        info.tags,
        vec![
            ("language".to_string(), strings(&["english"])),
            ("artist".to_string(), strings(&["x"])),
        ]
    );
    assert_eq!(info.rating, "4.50");
    assert_eq!(info.fav_cnt, "123");
    assert_eq!(info.url, "https://h/g/1/");
    assert!(info.limit);
    assert_eq!(crawl.next, Some("https://h/g/1/?p=1".to_string()));
}

#[test]
fn pagination_appends_pages_in_fetch_order() {
    let mut crawl = basic().into_full_info(&first_page(), 10).unwrap();
    let next = crawl.next_page().unwrap();
    assert_eq!(next, Some("https://h/g/1/?p=1".to_string()));
    let second = ListingPage { image_links: strings(&["p2a", "p2b"]), next_links: vec![] };
    crawl.add_page(&second).unwrap();
    assert_eq!(crawl.next_page(), Ok(None));
    let info = crawl.finish();
    assert_eq!(info.img_pages.len(), 5);
    assert_eq!(info.img_pages, strings(&["p1a", "p1b", "p1c", "p2a", "p2b"]));
}

#[test]
fn pagination_past_the_bound_overflows() {
    let crawl = basic().into_full_info(&first_page(), 1).unwrap();
    assert_eq!(crawl.next_page(), Err(ExError::PaginationOverflow));
}

#[test]
fn zero_page_bound_overflows_at_once() {
    assert_eq!(basic().into_full_info(&first_page(), 0).err().unwrap(), ExError::PaginationOverflow);
}

#[test]
fn listing_page_without_links_is_refused() {
    let mut crawl = basic().into_full_info(&first_page(), 10).unwrap();
    let empty = ListingPage { image_links: vec![], next_links: strings(&["n"]) };
    assert_eq!(crawl.add_page(&empty), Err(ExError::Extraction(Field::ImagePages)));
    assert_eq!(crawl.fetched, 1);
    assert_eq!(crawl.info.img_pages.len(), 3);
}

#[test]
fn missing_fields_give_their_errors() {
    let mut p = first_page();
    p.titles = vec![];
    assert_eq!(basic().into_full_info(&p, 10).err().unwrap(), ExError::Extraction(Field::Title));

    let mut p = first_page();
    p.tag_rows.push(TagRow { names: vec![], values: strings(&["v"]) });
    assert_eq!(basic().into_full_info(&p, 10).err().unwrap(), ExError::Extraction(Field::TagName));

    let mut p = first_page();
    p.tag_rows.push(TagRow { names: strings(&["n:"]), values: vec![] });
    assert_eq!(basic().into_full_info(&p, 10).err().unwrap(), ExError::Extraction(Field::TagValues));

    let mut p = first_page();
    p.rating_labels = strings(&["Average"]);
    assert_eq!(basic().into_full_info(&p, 10).err().unwrap(), ExError::Extraction(Field::Rating));

    let mut p = first_page();
    p.rating_labels = vec![];
    assert_eq!(basic().into_full_info(&p, 10).err().unwrap(), ExError::Extraction(Field::Rating));

    let mut p = first_page();
    p.fav_counts = vec![];
    assert_eq!(basic().into_full_info(&p, 10).err().unwrap(), ExError::Extraction(Field::FavCount));

    let mut p = first_page();
    p.listing.image_links = vec![];
    assert_eq!(
        basic().into_full_info(&p, 10).err().unwrap(),
        ExError::Extraction(Field::ImagePages)
    );
}

#[test]
fn parent_and_missing_japanese_title() {
    let mut p = first_page();
    p.titles_jp = vec![];
    p.parents = strings(&["https://h/g/0/"]);
    let info = basic().into_full_info(&p, 10).unwrap().info;
    assert_eq!(info.title_jp, None);
    assert_eq!(info.parent, Some("https://h/g/0/".to_string()));
    assert_eq!(info.title(), "Title A");
}

#[test]
fn title_prefers_japanese() {
    let mut f = full(&[], false);
    f.title_jp = Some("JP".to_string());
    assert_eq!(f.title(), "JP");
    f.title_jp = None;
    assert_eq!(f.title(), "T");
}

#[test]
fn image_list_is_capped_only_with_limit() {
    let f = full(&["a", "b", "c", "d"], false);
    assert_eq!(f.get_image_lists(2), strings(&["a", "b", "c", "d"]));
    let f = full(&["a", "b", "c", "d"], true);
    assert_eq!(f.get_image_lists(2), strings(&["a", "b"]));
    assert_eq!(f.get_image_lists(4), strings(&["a", "b", "c", "d"]));
    assert_eq!(f.get_image_lists(9), strings(&["a", "b", "c", "d"]));
    assert_eq!(f.get_image_lists(0), Vec::<String>::new());
    let f = full(&[], true);
    assert_eq!(f.get_image_lists(3), Vec::<String>::new());
}

#[test]
fn tag_row_names_lose_their_colons() {
    let row = TagRow { names: strings(&[":female::"]), values: strings(&["a", "b"]) };
    assert_eq!(parse_tag_row(&row), Ok(("female".to_string(), strings(&["a", "b"]))));
}

#[test]
fn first_match_takes_the_first() {
    assert_eq!(first_match(&strings(&["x", "y"]), Field::Title), Ok("x".to_string()));
    assert_eq!(first_match(&vec![], Field::Rating), Err(ExError::Extraction(Field::Rating)));
}

#[test]
fn pieces_split_at_each_space() {
    assert_eq!(nth_piece("Average: 4.50", ' ', 1), Some("4.50".to_string()));
    assert_eq!(nth_piece("123 times", ' ', 0), Some("123".to_string()));
    assert_eq!(nth_piece("a  b", ' ', 1), Some(String::new()));
    assert_eq!(nth_piece("a  b", ' ', 2), Some("b".to_string()));
    assert_eq!(nth_piece("ab", ' ', 1), None);
    assert_eq!(nth_piece("", ' ', 0), Some(String::new()));
    assert_eq!(nth_piece("é ü", ' ', 1), Some("ü".to_string()));
}

#[test]
fn trimming_removes_both_ends_only() {
    assert_eq!(trim_matches_char("::a:b::", ':'), "a:b");
    assert_eq!(trim_matches_char(":::", ':'), "");
    assert_eq!(trim_matches_char("", ':'), "");
    assert_eq!(trim_matches_char("plain", ':'), "plain");
}

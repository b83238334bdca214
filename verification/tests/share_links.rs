use miku_tunes::share::{
    checked_page_title, checked_share_plan, extract_html_title, html_title_in, html_title_readable,
    shared_page_title, ShareStep,
};
use miku_tunes::markup::{
    decode_basic_html, extract_collection_ids, extract_first_image, extract_gcid_values,
    extract_html_attr, extract_html_inner_text, extract_kugou_urls, extract_token_values,
    extract_url_like, kugou_playlist_candidate_urls, normalize_cover_url,
    normalize_kugou_cover_url, normalize_share_url, push_unique,
};

#[test]
fn extracts_url_from_pasted_label() {
    assert_eq!(
        normalize_share_url("Link https://www.kugou.com/songlist/gcid_abc/?x=1").as_deref(),
        Some("https://www.kugou.com/songlist/gcid_abc/?x=1")
    );
}

#[test]
fn candidate_urls_include_final_redirect_metadata() {
    let urls = kugou_playlist_candidate_urls(
        "https://t1.kugou.com/2PRIzd7G2V2",
        "https://www.kugou.com/songlist/gcid_3zsc75w8ziz07c/?share=1",
        r#"{"listinfo":{"global_collection_id":"collection_3_1488927378_18_0"}}"#,
    );
    assert!(urls.iter().any(|url| url.contains("gcid_3zsc75w8ziz07c")));
    assert!(urls
        .iter()
        .any(|url| url.contains("global_collection_id=collection_3_1488927378_18_0")));
}

#[test]
fn share_url_strips_quotes_and_unescapes() {
    assert_eq!(
        normalize_share_url("  \"https:\\/\\/t1.kugou.com\\/abc&amp;x=1\"  ").as_deref(),
        Some("https://t1.kugou.com/abc&x=1")
    );
    assert_eq!(normalize_share_url("no link here"), None);
    assert_eq!(normalize_share_url("ftp://example.com"), None);
}

#[test]
fn decodes_basic_entities_in_order() {
    assert_eq!(decode_basic_html("&lt;a&gt; &quot;b&quot; &#39;c&#x27; &#x2F;"), "<a> \"b\" 'c' /");
    // `&amp;` is decoded first, so an escaped entity decodes twice.
    assert_eq!(decode_basic_html("&amp;lt;"), "<");
}

#[test]
fn url_like_stops_at_delimiters() {
    assert_eq!(
        extract_url_like("see <a href=\"https://x.kugou.com/p?a=1\">").as_deref(),
        Some("https://x.kugou.com/p?a=1")
    );
    assert_eq!(extract_url_like("nothing"), None);
}

#[test]
fn cover_urls_are_made_secure() {
    assert_eq!(normalize_cover_url(" //img.test/a.jpg ".to_string()), "https://img.test/a.jpg");
    assert_eq!(normalize_cover_url("http://img.test/a.jpg".to_string()), "https://img.test/a.jpg");
    assert_eq!(normalize_cover_url("https://img.test/a.jpg".to_string()), "https://img.test/a.jpg");
    assert_eq!(
        normalize_kugou_cover_url("http://imge.kugou.com/stdmusic/{size}/c.jpg".to_string()),
        "https://imge.kugou.com/stdmusic/400/c.jpg"
    );
}

#[test]
fn tokens_are_collected_once_in_order() {
    assert_eq!(
        extract_token_values("gcid_ab/ gcid_cd gcid_ab gcid_-", "gcid_"),
        vec!["ab".to_string(), "cd".to_string()]
    );
    assert_eq!(
        extract_gcid_values("x gcid_1 y &#x2F;gcid_2"),
        vec!["gcid_1".to_string(), "gcid_2".to_string()]
    );
    assert_eq!(
        extract_collection_ids("\"collection_3_14_0\""),
        vec!["collection_3_14_0".to_string()]
    );
}

#[test]
fn kugou_urls_are_filtered_and_deduplicated() {
    let urls = extract_kugou_urls(
        "a https://www.kugou.com/x b http://other.test/y c https://www.kugou.com/x",
    );
    assert_eq!(urls, vec!["https://www.kugou.com/x".to_string()]);
}

#[test]
fn push_unique_skips_blank_and_repeated() {
    let mut values = vec!["a".to_string()];
    push_unique(&mut values, "a".to_string());
    push_unique(&mut values, "  ".to_string());
    push_unique(&mut values, "b".to_string());
    assert_eq!(values, vec!["a".to_string(), "b".to_string()]);
}

#[test]
fn html_attributes_and_inner_text() {
    let li = r#"<a title="A &amp; B - Song" data="HASH|1000"><i> Singer - Track </i></a>"#;
    assert_eq!(extract_html_attr(li, "title=\"", '"').as_deref(), Some("A & B - Song"));
    assert_eq!(extract_html_attr(li, "data=\"", '"').as_deref(), Some("HASH|1000"));
    assert_eq!(extract_html_attr(li, "href=\"", '"'), None);
    assert_eq!(
        extract_html_inner_text(li, "i"),
        ("Singer".to_string(), "Track".to_string())
    );
    assert_eq!(extract_html_inner_text("<b>x</b>", "i"), (String::new(), String::new()));
}

#[test]
fn first_image_prefers_open_graph() {
    let page = r#"<meta name="twitter:image" content="https://t.test/b.jpg"><meta property="og:image" content="https://o.test/a.jpg">"#;
    assert_eq!(extract_first_image(page).as_deref(), Some("https://o.test/a.jpg"));
    assert_eq!(extract_first_image("<p>none</p>"), None);
}

#[test]
fn page_titles_are_found_in_any_case() {
    assert_eq!(
        extract_html_title("<HTML><HEAD><TITLE> My List - 酷狗音乐 </TITLE></HEAD></HTML>").as_deref(),
        Some("My List")
    );
    assert_eq!(
        extract_html_title("<title>A &amp; B_酷狗音乐</title>").as_deref(),
        Some("A & B")
    );
    assert_eq!(extract_html_title("<title>   </title>"), None);
    assert_eq!(extract_html_title("<title>x - 酷狗音乐</title>").as_deref(), Some("x"));
    assert_eq!(extract_html_title("<p>no title</p>"), None);
    assert_eq!(shared_page_title("<Title>Mix</Title>"), "Mix");
    assert_eq!(shared_page_title("<p>none</p>"), "酷狗分享歌单");
}

#[test]
fn title_located_by_a_given_lower_case_text() {
    assert_eq!(
        html_title_in("<TITLE>Big Hits</TITLE>", "<title>big hits</title>").as_deref(),
        Some("Big Hits")
    );
    assert_eq!(html_title_in("<TITLE>Big Hits</TITLE>", "<TITLE>Big Hits</TITLE>"), None);
}

#[test]
fn page_titles_that_cannot_be_cut_are_reported() {
    assert!(html_title_readable("<title>Mix</title>"));
    assert_eq!(checked_page_title("<title>Mix</title>").as_deref(), Some("Mix"));
    assert_eq!(checked_page_title("<p>none</p>").as_deref(), Some("酷狗分享歌单"));
    assert!(!html_title_readable("İ<title>é</title>"));
    assert_eq!(checked_page_title("İ<title>é</title>"), None);
}

#[test]
fn checked_share_plans() {
    match checked_share_plan("look https://t1.kugou.com/abc") {
        Some(Ok(ShareStep::Fetch(url))) => assert_eq!(url, "https://t1.kugou.com/abc"),
        _ => panic!("expected a link to fetch"),
    }
    match checked_share_plan("nothing here") {
        Some(Err(message)) => assert!(message.starts_with("没有找到可解析的酷狗歌单链接")),
        _ => panic!("expected a refusal"),
    }
}

#[test]
fn cover_links_made_secure_twice_stay_the_same() {
    for raw in [" //img.test/a.jpg ", "http://img.test/a.jpg", "https://x/y", "  http:// ", " plain "] {
        let once = normalize_cover_url(raw.to_string());
        assert_eq!(normalize_cover_url(once.clone()), once);
    }
}

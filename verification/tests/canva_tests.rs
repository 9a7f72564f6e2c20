use sherpresent::bootstrap::bootstrap_json;
use sherpresent::canva::{plan_downloads, AssetDir, AssetKind, FontRef, SlideAssets};
use sherpresent::canva::{
    add_recent, remove_recent, sanitize_filename, unescape_js_string, url_extension, RecentEntry,
};

fn entry(id: &str) -> RecentEntry {
    RecentEntry {
        id: id.to_string(),
        title: format!("t{}", id),
        url: String::new(),
        imported_at: String::new(),
        slide_count: 1,
        thumbnail_path: None,
    }
}

#[test]
fn add_recent_moves_entry_to_front() {
    let list = vec![entry("a"), entry("b"), entry("c")];
    let list = add_recent(list, entry("b"));
    let ids: Vec<&str> = list.iter().map(|e| e.id.as_str()).collect();
    assert_eq!(ids, vec!["b", "a", "c"]);
}

#[test]
fn add_recent_keeps_twenty() {
    let list: Vec<RecentEntry> = (0..20).map(|i| entry(&i.to_string())).collect();
    let list = add_recent(list, entry("new"));
    assert_eq!(list.len(), 20);
    assert_eq!(list[0].id, "new");
    assert_eq!(list[19].id, "18");
}

#[test]
fn remove_recent_drops_all_with_id() {
    let list = vec![entry("a"), entry("b"), entry("a")];
    let list = remove_recent(list, "a");
    assert_eq!(list.len(), 1);
    assert_eq!(list[0].id, "b");
    assert_eq!(remove_recent(list, "zzz").len(), 1);
}

#[test]
fn unescapes_js_strings() {
    assert_eq!(unescape_js_string(r#"a\'b\"c\\d\/e"#), "a'b\"c\\d/e");
    assert_eq!(unescape_js_string(r"\n\r\t"), "\n\r\t");
    assert_eq!(unescape_js_string(r"\u0041\u00e9"), "Aé");
    assert_eq!(unescape_js_string(r"\q"), "\\q");
    assert_eq!(unescape_js_string("end\\"), "end\\");
    assert_eq!(unescape_js_string(r"\uD800x"), "x");
    assert_eq!(unescape_js_string(r"\u41"), "A");
    assert_eq!(unescape_js_string(r"\uzzzzq"), "q");
    assert_eq!(unescape_js_string(r"\u+041"), "A");
}

#[test]
fn asset_extensions() {
    assert_eq!(url_extension("https://x/a/b.png?size=2").as_deref(), Some("png"));
    assert_eq!(url_extension("https://x/a/b.woff2").as_deref(), Some("woff2"));
    assert_eq!(url_extension("https://x/a/b.toolong"), None);
    assert_eq!(url_extension("abc").as_deref(), Some("abc"));
}

#[test]
fn filenames_are_sanitized() {
    assert_eq!(sanitize_filename("Open Sans-Bold_1.woff2"), "Open_Sans-Bold_1_woff2");
    assert_eq!(sanitize_filename("é/ü"), "é_ü");
}

use sherpresent::canva::{extract_id_from_url, extract_title_from_html};

#[test]
fn design_ids_from_urls() {
    assert_eq!(
        extract_id_from_url("https://www.canva.com/design/DAFxyz123/view?utm=1").as_deref(),
        Some("DAFxyz123")
    );
    assert_eq!(extract_id_from_url("https://www.canva.com/design//x/design/abc").as_deref(), Some("abc"));
    assert_eq!(extract_id_from_url("https://www.canva.com/design/"), None);
    assert_eq!(extract_id_from_url("https://example.com/"), None);
}

#[test]
fn titles_from_pages() {
    assert_eq!(
        extract_title_from_html("<html><title>My Deck - Canva</title></html>").as_deref(),
        Some("My Deck")
    );
    assert_eq!(
        extract_title_from_html("<title>Talk | Canva | Canva</title>").as_deref(),
        Some("Talk")
    );
    assert_eq!(extract_title_from_html("<title></title><title>B</title>").as_deref(), Some("B"));
    assert_eq!(extract_title_from_html("<title>A<b></title>"), None);
    assert_eq!(extract_title_from_html("no title"), None);
}

#[test]
fn only_canva_links_are_imported() {
    assert!(sherpresent::canva::validate_import_url("https://www.canva.com/design/DAF/view").is_ok());
    assert_eq!(
        sherpresent::canva::validate_import_url("https://example.com/x"),
        Err("URL must be a canva.com link".to_string())
    );
}

#[test]
fn download_plan_lists_thumbnails_images_then_fonts() {
    let slides = vec![
        SlideAssets {
            index: 0,
            thumbnail_url: Some("https://a/t0".into()),
            images: vec![(1, "https://a/img.jpeg?x=1".into()), (2, String::new())],
        },
        SlideAssets { index: 1, thumbnail_url: Some(String::new()), images: vec![(0, "https://a/noext".into())] },
    ];
    let fonts = vec![
        FontRef { family: "Open Sans".into(), woff2_url: Some("https://f/x.otf".into()), local_path: None },
        FontRef { family: "Mono".into(), woff2_url: None, local_path: None },
        FontRef { family: "Serif".into(), woff2_url: Some("https://f/y".into()), local_path: None },
    ];
    let plan = plan_downloads(&slides, &fonts);
    let names: Vec<&str> = plan.iter().map(|t| t.file_name.as_str()).collect();
    assert_eq!(
        names,
        vec!["thumb_0.jpg", "slide0_1.jpeg", "slide1_0.png", "font_0_Open_Sans.otf", "font_2_Serif.woff2"]
    );
    assert_eq!(plan[0].kind, AssetKind::Thumbnail(0));
    assert_eq!(plan[1].kind, AssetKind::Image(0, 1));
    assert_eq!(plan[3].dir, AssetDir::Fonts);
    assert_eq!(plan[4].kind, AssetKind::Font(2));
    assert_eq!(plan[2].url, "https://a/noext");
}

#[test]
fn bootstrap_is_found_in_json_parse_form() {
    let html = r#"<html><script>window['bootstrap'] = JSON.parse('{"a":1,"b":"x\'y\u0041"}');</script>"#;
    assert_eq!(bootstrap_json(html).unwrap(), r#"{"a":1,"b":"x'yA"}"#);
}

#[test]
fn bootstrap_falls_back_to_an_object_literal() {
    let html = r#"<script>window['bootstrap']={"page":{"x":1}};var y = {};</script>"#;
    assert_eq!(bootstrap_json(html).unwrap(), r#"{"page":{"x":1}}"#);
    // The string form wins even when it comes later.
    let both = r#"window['bootstrap'] = {"old":true}; window['bootstrap']=JSON.parse('{}')"#;
    assert_eq!(bootstrap_json(both).unwrap(), "{}");
}

#[test]
fn pages_without_bootstrap_are_refused() {
    assert_eq!(
        bootstrap_json("<html><body>nothing</body></html>"),
        Err("Could not find window['bootstrap'] in page HTML".to_string())
    );
    assert!(bootstrap_json("window['bootstrap'] = JSON.parse('unterminated").is_err());
}

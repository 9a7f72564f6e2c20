use sherpresent::canva::{plan_downloads, AssetKind};
use sherpresent::design::{
    extract_fonts, extract_thumbnail, find_pages, parse_elements, parse_presentation, parse_single_element,
    parse_slides, recent_entry, record_download, slide_assets, ElementData, JsonValue,
};

fn s(text: &str) -> JsonValue {
    JsonValue::Str(text.to_string())
}

fn n(text: &str) -> JsonValue {
    JsonValue::Number(text.to_string())
}

fn obj(members: Vec<(&str, JsonValue)>) -> JsonValue {
    JsonValue::Object(members.into_iter().map(|(k, v)| (k.to_string(), v)).collect())
}

fn arr(items: Vec<JsonValue>) -> JsonValue {
    JsonValue::Array(items)
}

fn text_el(content: &str) -> JsonValue {
    obj(vec![("t", s("K")), ("v", s(content))])
}

fn contents(elements: &[ElementData]) -> Vec<String> {
    elements
        .iter()
        .map(|e| match e {
            ElementData::Text { content, .. } => content.clone(),
            ElementData::Image { asset_url, .. } => asset_url.clone(),
            ElementData::Shape { .. } => "shape".to_string(),
        })
        .collect()
}

#[test]
fn reads_text_element_through_alternate_keys() {
    let e = obj(vec![
        ("type", s("K")),
        ("text", s("Hello")),
        ("X", n("12")),
        ("w", n("100")),
        ("ff", s("Inter")),
        ("b", JsonValue::Bool(true)),
        ("fontSize", n("24.5")),
    ]);
    match parse_single_element(&e) {
        Some(ElementData::Text { content, at, font_family, font_size, color, bold, italic }) => {
            assert_eq!(content, "Hello");
            assert_eq!(at.x.as_deref(), Some("12"));
            assert_eq!(at.y, None);
            assert_eq!(at.width.as_deref(), Some("100"));
            assert_eq!(at.height, None);
            assert_eq!(font_family.as_deref(), Some("Inter"));
            assert_eq!(font_size.as_deref(), Some("24.5"));
            assert_eq!(color, None);
            assert!(bold);
            assert!(!italic);
        }
        other => panic!("expected text, got {:?}", other),
    }
}

#[test]
fn type_tag_that_is_not_a_string_falls_back() {
    let e = obj(vec![("t", n("3")), ("kind", s("I")), ("url", s("https://img/a.png")), ("x", s("7"))]);
    match parse_single_element(&e) {
        Some(ElementData::Image { at, asset_url, local_path }) => {
            assert_eq!(asset_url, "https://img/a.png");
            assert_eq!(local_path, None);
            // "x" holds no number, and there is no "X".
            assert_eq!(at.x, None);
        }
        other => panic!("expected image, got {:?}", other),
    }
}

#[test]
fn geometry_takes_the_first_key_holding_a_number() {
    let e = obj(vec![("t", s("J")), ("x", s("left")), ("X", n("4")), ("r", n("90")), ("d", s("M0 0")), ("f", s("#fff"))]);
    match parse_single_element(&e) {
        Some(ElementData::Shape { at, svg_path, fill_color, stroke_color }) => {
            assert_eq!(at.x.as_deref(), Some("4"));
            assert_eq!(at.rotation.as_deref(), Some("90"));
            assert_eq!(svg_path.as_deref(), Some("M0 0"));
            assert_eq!(fill_color.as_deref(), Some("#fff"));
            assert_eq!(stroke_color, None);
        }
        other => panic!("expected shape, got {:?}", other),
    }
}

#[test]
fn unknown_or_missing_type_is_skipped() {
    assert!(parse_single_element(&obj(vec![("t", s("Z"))])).is_none());
    assert!(parse_single_element(&obj(vec![("v", s("no tag"))])).is_none());
    assert!(parse_single_element(&s("K")).is_none());
}

#[test]
fn text_content_defaults_to_empty() {
    let e = obj(vec![("t", s("K")), ("v", n("5")), ("text", s("ignored"))]);
    match parse_single_element(&e) {
        Some(ElementData::Text { content, .. }) => assert_eq!(content, ""),
        other => panic!("expected text, got {:?}", other),
    }
}

#[test]
fn finds_pages_at_the_expected_path() {
    let pages = arr(vec![obj(vec![]), obj(vec![]), obj(vec![])]);
    let b = obj(vec![(
        "page",
        obj(vec![("Bj", obj(vec![("A", obj(vec![("C", obj(vec![("A", pages)]))]))]))]),
    )]);
    assert_eq!(find_pages(&b).len(), 3);
}

#[test]
fn searches_for_pages_when_the_path_is_missing() {
    let b = obj(vec![(
        "page",
        obj(vec![
            ("one", arr(vec![obj(vec![])])),
            ("nums", arr(vec![n("1"), n("2")])),
            ("deck", arr(vec![n("1"), obj(vec![("k", s("v"))])])),
        ]),
    )]);
    assert_eq!(find_pages(&b).len(), 2);
    let none = obj(vec![("page", obj(vec![("x", n("1"))]))]);
    assert_eq!(find_pages(&none).len(), 0);
}

#[test]
fn search_stops_below_six_levels() {
    let mut v = arr(vec![obj(vec![]), obj(vec![])]);
    for _ in 0..7 {
        v = obj(vec![("k", v)]);
    }
    assert_eq!(find_pages(&v).len(), 0);
    let mut w = arr(vec![obj(vec![]), obj(vec![])]);
    for _ in 0..6 {
        w = obj(vec![("k", w)]);
    }
    assert_eq!(find_pages(&w).len(), 2);
}

#[test]
fn elements_come_from_the_first_list_that_has_any() {
    let page = obj(vec![
        ("A", obj(vec![("C", obj(vec![("A", arr(vec![obj(vec![("t", s("Q"))])]))]))])),
        ("C", obj(vec![("A", arr(vec![text_el("one"), obj(vec![("t", s("Q"))]), text_el("two")]))])),
    ]);
    assert_eq!(contents(&parse_elements(&page)), vec!["one", "two"]);
}

#[test]
fn elements_are_searched_for_when_no_list_has_any() {
    let page = obj(vec![
        ("deep", obj(vec![("x", arr(vec![text_el("a"), obj(vec![("inner", text_el("b"))])]))])),
        ("tagged", obj(vec![("t", s("Q")), ("child", text_el("c"))])),
    ]);
    assert_eq!(contents(&parse_elements(&page)), vec!["a", "b", "c"]);
    assert!(parse_elements(&obj(vec![])).is_empty());
}

#[test]
fn slides_are_numbered_with_thumbnails() {
    let pages = vec![
        obj(vec![("thumb", s("t0.png")), ("A", arr(vec![text_el("x")]))]),
        obj(vec![("image", s("t1.png"))]),
    ];
    let slides = parse_slides(&pages);
    assert_eq!(slides.len(), 2);
    assert_eq!(slides[0].index, 0);
    assert_eq!(slides[0].thumbnail_url.as_deref(), Some("t0.png"));
    assert_eq!(contents(&slides[0].elements), vec!["x"]);
    assert_eq!(slides[1].index, 1);
    assert_eq!(slides[1].thumbnail_url.as_deref(), Some("t1.png"));
    assert_eq!(extract_thumbnail(&obj(vec![("thumbnail", n("1"))])), None);
}

#[test]
fn fonts_come_from_objects_and_lists() {
    let b = obj(vec![
        ("fonts", obj(vec![("Inter", obj(vec![("woff2", s("inter.woff2"))])), ("Lato", obj(vec![]))])),
        (
            "assets",
            obj(vec![(
                "fonts",
                arr(vec![
                    obj(vec![("name", s("Roboto")), ("src", s("roboto.woff2"))]),
                    obj(vec![("url", s("nameless.woff2"))]),
                ]),
            )]),
        ),
    ]);
    let fonts = extract_fonts(&b);
    let got: Vec<(String, Option<String>)> = fonts.iter().map(|f| (f.family.clone(), f.woff2_url.clone())).collect();
    assert_eq!(
        got,
        vec![
            ("Inter".to_string(), Some("inter.woff2".to_string())),
            ("Lato".to_string(), None),
            ("Roboto".to_string(), Some("roboto.woff2".to_string())),
        ]
    );
    assert!(fonts.iter().all(|f| f.local_path.is_none()));
}

#[test]
fn presentation_takes_id_title_and_canvas() {
    let b = obj(vec![]);
    let p = parse_presentation(
        &b,
        "<html><title>Quarterly - Canva</title></html>",
        "https://www.canva.com/design/DAF123/view",
    )
    .unwrap();
    assert_eq!(p.id, "DAF123");
    assert_eq!(p.title, "Quarterly");
    assert_eq!(p.url, "https://www.canva.com/design/DAF123/view");
    assert_eq!((p.width, p.height), (1920, 1080));
    assert!(p.slides.is_empty());
    assert!(!p.imported_at.is_empty());
    let q = parse_presentation(&b, "<html></html>", "https://example.com/").unwrap();
    assert_eq!(q.id, "unknown");
    assert_eq!(q.title, "Untitled Presentation");
}

fn sample_design() -> sherpresent::design::Design {
    let page0 = obj(vec![
        ("thumbnail", s("https://c/t0.jpg")),
        (
            "A",
            arr(vec![
                text_el("title"),
                obj(vec![("t", s("I")), ("url", s("https://c/pic.webp?x=1"))]),
                obj(vec![("t", s("I")), ("url", s(""))]),
            ]),
        ),
    ]);
    let page1 = obj(vec![("A", arr(vec![obj(vec![("t", s("U"))])]))]);
    let b = obj(vec![
        ("page", obj(vec![("Bj", obj(vec![("A", obj(vec![("C", obj(vec![("A", arr(vec![page0, page1]))]))]))]))])),
        ("fonts", obj(vec![("Open Sans", obj(vec![("woff2", s("https://c/os.woff2"))]))])),
    ]);
    parse_presentation(&b, "<title>Deck</title>", "https://www.canva.com/design/D1/view").unwrap()
}

#[test]
fn assets_list_thumbnails_and_images_by_position() {
    let d = sample_design();
    let assets = slide_assets(&d);
    assert_eq!(assets.len(), 2);
    assert_eq!(assets[0].index, 0);
    assert_eq!(assets[0].thumbnail_url.as_deref(), Some("https://c/t0.jpg"));
    assert_eq!(assets[0].images, vec![(1, "https://c/pic.webp?x=1".to_string()), (2, String::new())]);
    assert!(assets[1].images.is_empty());
    let plan = plan_downloads(&assets, &d.fonts);
    let kinds: Vec<AssetKind> = plan.iter().map(|t| t.kind).collect();
    assert_eq!(kinds, vec![AssetKind::Thumbnail(0), AssetKind::Image(0, 1), AssetKind::Font(0)]);
    assert_eq!(plan[1].file_name, "slide0_1.webp");
}

#[test]
fn recording_downloads_sets_local_paths() {
    let mut d = sample_design();
    record_download(&mut d, AssetKind::Thumbnail(0), "/m/thumb_0.jpg".to_string());
    record_download(&mut d, AssetKind::Image(0, 1), "/m/slide0_1.webp".to_string());
    record_download(&mut d, AssetKind::Font(0), "/f/font_0_Open_Sans.woff2".to_string());
    assert_eq!(d.slides[0].thumbnail_local.as_deref(), Some("/m/thumb_0.jpg"));
    match &d.slides[0].elements[1] {
        ElementData::Image { local_path, .. } => assert_eq!(local_path.as_deref(), Some("/m/slide0_1.webp")),
        other => panic!("expected image, got {:?}", other),
    }
    assert_eq!(d.fonts[0].local_path.as_deref(), Some("/f/font_0_Open_Sans.woff2"));
    // Assets that do not exist, or elements that are no images, are left alone.
    record_download(&mut d, AssetKind::Thumbnail(5), "x".to_string());
    record_download(&mut d, AssetKind::Image(0, 0), "x".to_string());
    record_download(&mut d, AssetKind::Font(3), "x".to_string());
    assert!(matches!(&d.slides[0].elements[0], ElementData::Text { .. }));
    assert_eq!(d.slides[1].thumbnail_local, None);
    let entry = recent_entry(&d);
    assert_eq!(entry.id, "D1");
    assert_eq!(entry.title, "Deck");
    assert_eq!(entry.slide_count, 2);
    assert_eq!(entry.thumbnail_path.as_deref(), Some("/m/thumb_0.jpg"));
}

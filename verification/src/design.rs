//! Reading a Canva design out of the data embedded in its page: where the
//! pages are, which elements each page holds, and which fonts it uses.
//!
//! The data is a JSON tree whose keys Canva obfuscates. It is held here as a
//! `JsonValue`; numbers keep their decimal text, so that geometry is read
//! without this crate holding a float.

use vstd::prelude::*;
use crate::canva::{RecentEntry, font_tasks, image_tasks, slide_image_tasks, thumb_tasks, AssetKind, SlideAssets, design_id_from, extract_id_from_url, extract_title_from_html, page_title, FontRef};
use crate::text::{str_eq, to_owned_string};

verus! {

/// A JSON value. An object keeps its members in the order it was read in.
#[derive(Debug)]
pub enum JsonValue {
    Null,
    Bool(bool),
    Number(String),
    Str(String),
    Array(Vec<JsonValue>),
    Object(Vec<(String, JsonValue)>),
}

/// The value of the first member named `key` among `members`.
pub open spec fn member_in(members: Seq<(String, JsonValue)>, key: Seq<char>) -> Option<JsonValue>
    decreases members.len(),
{
    if members.len() == 0 {
        None
    } else if members[0].0@ == key {
        Some(members[0].1)
    } else {
        member_in(members.drop_first(), key)
    }
}

/// `v[key]` where `v` is an object that has it (`Value::get` with a key).
pub open spec fn member(v: JsonValue, key: Seq<char>) -> Option<JsonValue> {
    match v {
        JsonValue::Object(m) => member_in(m@, key),
        _ => None,
    }
}

/// What an optional reference points to.
pub open spec fn deref_opt(o: Option<&JsonValue>) -> Option<JsonValue> {
    match o {
        Some(x) => Some(*x),
        None => None,
    }
}

/// The characters of an optional string.
pub open spec fn opt_chars(o: Option<String>) -> Option<Seq<char>> {
    match o {
        Some(s) => Some(s@),
        None => None,
    }
}

/// `found.or_else(|| v.get(key))`.
pub open spec fn or_member(found: Option<JsonValue>, v: JsonValue, key: Seq<char>) -> Option<JsonValue> {
    match found {
        Some(x) => Some(x),
        None => member(v, key),
    }
}

/// `o.and_then(Value::as_str)`.
pub open spec fn opt_text(o: Option<JsonValue>) -> Option<Seq<char>> {
    match o {
        Some(JsonValue::Str(s)) => Some(s@),
        _ => None,
    }
}

/// `o.and_then(Value::as_f64)`, as the number's decimal text.
pub open spec fn opt_number(o: Option<JsonValue>) -> Option<Seq<char>> {
    match o {
        Some(JsonValue::Number(n)) => Some(n@),
        _ => None,
    }
}

/// `o.and_then(Value::as_bool)`.
pub open spec fn opt_bool(o: Option<JsonValue>) -> Option<bool> {
    match o {
        Some(JsonValue::Bool(b)) => Some(b),
        _ => None,
    }
}

/// `o.and_then(Value::as_array)`.
pub open spec fn opt_array(o: Option<JsonValue>) -> Option<Vec<JsonValue>> {
    match o {
        Some(JsonValue::Array(a)) => Some(a),
        _ => None,
    }
}

/// `found.or_else(|| v.get(key).and_then(Value::as_str))`.
pub open spec fn or_text_at(found: Option<Seq<char>>, v: JsonValue, key: Seq<char>) -> Option<Seq<char>> {
    match found {
        Some(x) => Some(x),
        None => opt_text(member(v, key)),
    }
}

/// `found.or_else(|| v.get(key).and_then(Value::as_f64))`.
pub open spec fn or_number_at(found: Option<Seq<char>>, v: JsonValue, key: Seq<char>) -> Option<Seq<char>> {
    match found {
        Some(x) => Some(x),
        None => opt_number(member(v, key)),
    }
}

/// `o.unwrap_or("")` on text.
pub open spec fn or_empty(o: Option<Seq<char>>) -> Seq<char> {
    match o {
        Some(s) => s,
        None => Seq::empty(),
    }
}

// ---------------------------------------------------------------------------
// Elements
// ---------------------------------------------------------------------------

/// Where an element stands, as the decimal text of each number the design
/// gives (`None` where it gives none, which the frontend reads as zero).
#[derive(Debug)]
pub struct Geometry {
    pub x: Option<String>,
    pub y: Option<String>,
    pub width: Option<String>,
    pub height: Option<String>,
    pub rotation: Option<String>,
}

/// One element of a slide, with its numbers as decimal text.
#[derive(Debug)]
pub enum ElementData {
    Text {
        content: String,
        at: Geometry,
        font_family: Option<String>,
        font_size: Option<String>,
        color: Option<String>,
        bold: bool,
        italic: bool,
    },
    Image { at: Geometry, asset_url: String, local_path: Option<String> },
    Shape {
        at: Geometry,
        svg_path: Option<String>,
        fill_color: Option<String>,
        stroke_color: Option<String>,
    },
}

/// An element's type tag: the first of `t`, `type`, `T` and `kind` that
/// holds a string.
pub open spec fn element_type(e: JsonValue) -> Option<Seq<char>> {
    or_text_at(or_text_at(or_text_at(opt_text(member(e, "t"@)), e, "type"@), e, "T"@), e, "kind"@)
}

/// Whether `e` is an element of a type that is read: text (`K`), image
/// (`I`) or shape (`U` or `J`).
pub open spec fn parses(e: JsonValue) -> bool {
    match element_type(e) {
        Some(t) => t == "K"@ || t == "I"@ || t == "U"@ || t == "J"@,
        None => false,
    }
}

/// `g` holds the geometry of `e`: each number from the first of its keys
/// that holds a number.
pub open spec fn geometry_of(g: Geometry, e: JsonValue) -> bool {
    &&& opt_chars(g.x) == or_number_at(opt_number(member(e, "x"@)), e, "X"@)
    &&& opt_chars(g.y) == or_number_at(opt_number(member(e, "y"@)), e, "Y"@)
    &&& opt_chars(g.width) == or_number_at(
        or_number_at(opt_number(member(e, "width"@)), e, "w"@),
        e,
        "W"@,
    )
    &&& opt_chars(g.height) == or_number_at(
        or_number_at(opt_number(member(e, "height"@)), e, "h"@),
        e,
        "H"@,
    )
    &&& opt_chars(g.rotation) == or_number_at(opt_number(member(e, "rotation"@)), e, "r"@)
}

/// A text element's characters: the first of `v`, `text`, `content` and `V`
/// present, if it is a string.
pub open spec fn text_content(e: JsonValue) -> Seq<char> {
    or_empty(opt_text(or_member(or_member(or_member(member(e, "v"@), e, "text"@), e, "content"@), e, "V"@)))
}

/// An image's address: the first of `url`, `src` and `u` present, if it is
/// a string.
pub open spec fn image_url(e: JsonValue) -> Seq<char> {
    or_empty(opt_text(or_member(or_member(member(e, "url"@), e, "src"@), e, "u"@)))
}

/// The string under the first of two keys present.
pub open spec fn text_of_either(e: JsonValue, a: Seq<char>, b: Seq<char>) -> Option<Seq<char>> {
    opt_text(or_member(member(e, a), e, b))
}

/// The flag under the first of two keys present, false where it is none.
pub open spec fn flag_of_either(e: JsonValue, a: Seq<char>, b: Seq<char>) -> bool {
    opt_bool(or_member(member(e, a), e, b)) == Some(true)
}

/// `d` is what the element `e` reads as.
pub open spec fn element_matches(d: ElementData, e: JsonValue) -> bool {
    match element_type(e) {
        Some(t) => if t == "K"@ {
            match d {
                ElementData::Text { content, at, font_family, font_size, color, bold, italic } => {
                    &&& content@ == text_content(e)
                    &&& geometry_of(at, e)
                    &&& opt_chars(font_family) == text_of_either(e, "fontFamily"@, "ff"@)
                    &&& opt_chars(font_size) == opt_number(or_member(member(e, "fontSize"@), e, "fs"@))
                    &&& opt_chars(color) == text_of_either(e, "color"@, "c"@)
                    &&& bold == flag_of_either(e, "bold"@, "b"@)
                    &&& italic == flag_of_either(e, "italic"@, "i"@)
                },
                _ => false,
            }
        } else if t == "I"@ {
            match d {
                ElementData::Image { at, asset_url, local_path } => {
                    geometry_of(at, e) && asset_url@ == image_url(e) && local_path is None
                },
                _ => false,
            }
        } else if t == "U"@ || t == "J"@ {
            match d {
                ElementData::Shape { at, svg_path, fill_color, stroke_color } => {
                    &&& geometry_of(at, e)
                    &&& opt_chars(svg_path) == text_of_either(e, "path"@, "d"@)
                    &&& opt_chars(fill_color) == text_of_either(e, "fill"@, "f"@)
                    &&& opt_chars(stroke_color) == text_of_either(e, "stroke"@, "s"@)
                },
                _ => false,
            }
        } else {
            false
        },
        None => false,
    }
}

/// `o` is the JSON string `t`.
pub open spec fn is_string(o: Option<JsonValue>, t: Seq<char>) -> bool {
    match o {
        Some(JsonValue::Str(s)) => s@ == t,
        _ => false,
    }
}

/// `o` is a JSON boolean.
pub open spec fn is_boolean(o: Option<JsonValue>) -> bool {
    o matches Some(JsonValue::Bool(_))
}

/// An element tagged `"t": "K"` is read, and read as text: its content is
/// the string under `v` when there is one; its italic flag is the boolean
/// under `italic`, or under `i` when `italic` is absent, and false when the
/// key present holds no boolean or neither is present; its bold flag the
/// same under `bold` and `b`.
pub proof fn text_elements_keep_their_flags(d: ElementData, e: JsonValue)
    requires
        element_matches(d, e),
        is_string(member(e, "t"@), "K"@),
    ensures
        parses(e),
        d is Text,
        forall|s: Seq<char>| is_string(member(e, "v"@), s) ==> d->content@ == s,
        member(e, "italic"@) == Some(JsonValue::Bool(true)) ==> d->italic,
        member(e, "italic"@) == Some(JsonValue::Bool(false)) ==> !d->italic,
        member(e, "italic"@) is None && member(e, "i"@) == Some(JsonValue::Bool(true)) ==> d->italic,
        member(e, "italic"@) is None && member(e, "i"@) == Some(JsonValue::Bool(false)) ==> !d->italic,
        member(e, "italic"@) is Some && !is_boolean(member(e, "italic"@)) ==> !d->italic,
        member(e, "italic"@) is None && !is_boolean(member(e, "i"@)) ==> !d->italic,
        member(e, "bold"@) == Some(JsonValue::Bool(true)) ==> d->bold,
        member(e, "bold"@) == Some(JsonValue::Bool(false)) ==> !d->bold,
        member(e, "bold"@) is None && member(e, "b"@) == Some(JsonValue::Bool(true)) ==> d->bold,
        member(e, "bold"@) is None && member(e, "b"@) == Some(JsonValue::Bool(false)) ==> !d->bold,
        member(e, "bold"@) is Some && !is_boolean(member(e, "bold"@)) ==> !d->bold,
        member(e, "bold"@) is None && !is_boolean(member(e, "b"@)) ==> !d->bold,
{
}

/// `o` is a JSON number whose decimal text is `t`.
pub open spec fn is_number(o: Option<JsonValue>, t: Seq<char>) -> bool {
    match o {
        Some(JsonValue::Number(n)) => n@ == t,
        _ => false,
    }
}

/// Where an element read as `d` stands.
pub open spec fn placement(d: ElementData) -> Geometry {
    match d {
        ElementData::Text { at, .. } => at,
        ElementData::Image { at, .. } => at,
        ElementData::Shape { at, .. } => at,
    }
}

/// An element tagged `"t": "I"` is read as an image whose address is the
/// string under `url` when there is one; one tagged `"U"` or `"J"` as a
/// shape whose path is the string under `path` when there is one. Any
/// element read takes its position and size from the numbers under `x`,
/// `y`, `width` and `height` when those hold numbers, and has none where no
/// key for them is present.
pub proof fn elements_keep_kind_and_place(d: ElementData, e: JsonValue)
    requires
        element_matches(d, e),
    ensures
        is_string(member(e, "t"@), "I"@) ==> d is Image && forall|s: Seq<char>|
            is_string(member(e, "url"@), s) ==> d->asset_url@ == s,
        is_string(member(e, "t"@), "U"@) || is_string(member(e, "t"@), "J"@) ==> d is Shape && forall|
            s: Seq<char>,
        | is_string(member(e, "path"@), s) ==> opt_chars(d->svg_path) == Some(s),
        forall|n: Seq<char>| is_number(member(e, "x"@), n) ==> opt_chars(placement(d).x) == Some(n),
        forall|n: Seq<char>| is_number(member(e, "y"@), n) ==> opt_chars(placement(d).y) == Some(n),
        forall|n: Seq<char>| is_number(member(e, "width"@), n) ==> opt_chars(placement(d).width) == Some(n),
        forall|n: Seq<char>| is_number(member(e, "height"@), n) ==> opt_chars(placement(d).height) == Some(n),
        member(e, "x"@) is None && member(e, "X"@) is None ==> placement(d).x is None,
        member(e, "y"@) is None && member(e, "Y"@) is None ==> placement(d).y is None,
{
    reveal_strlit("K");
    reveal_strlit("I");
    reveal_strlit("U");
    reveal_strlit("J");
    assert("I"@[0] != "K"@[0]);
    assert("U"@[0] != "K"@[0] && "U"@[0] != "I"@[0]);
    assert("J"@[0] != "K"@[0] && "J"@[0] != "I"@[0]);
}

/// Each of `es` is what the element at the same place in `js` reads as.
pub open spec fn all_match(es: Seq<ElementData>, js: Seq<JsonValue>) -> bool {
    &&& es.len() == js.len()
    &&& forall|i: int| 0 <= i < es.len() ==> element_matches(#[trigger] es[i], js[i])
}

/// The values of an object's members, in order.
pub open spec fn member_values(m: Seq<(String, JsonValue)>) -> Seq<JsonValue> {
    m.map_values(|p: (String, JsonValue)| p.1)
}

/// The elements found by searching `v` at nesting `depth`, after those in
/// `acc`: an object tagged with a type that is read is one element; other
/// objects and arrays are searched in order. The search stops below nesting
/// 8 and once more than 100 elements are found.
pub open spec fn walk(v: JsonValue, acc: Seq<JsonValue>, depth: int) -> Seq<JsonValue>
    decreases 9 - depth, 1int, 0int,
{
    if depth > 8 || acc.len() > 100 {
        acc
    } else {
        match v {
            JsonValue::Object(m) => if member(v, "t"@) is Some && parses(v) {
                acc.push(v)
            } else {
                walk_list(member_values(m@), 0, acc, depth + 1)
            },
            JsonValue::Array(a) => walk_list(a@, 0, acc, depth + 1),
            _ => acc,
        }
    }
}

/// `walk` over `vals[i..]` in turn, each at nesting `depth`.
pub open spec fn walk_list(vals: Seq<JsonValue>, i: int, acc: Seq<JsonValue>, depth: int) -> Seq<JsonValue>
    decreases 10 - depth, 0int, vals.len() - i,
{
    if depth > 9 || i < 0 || i >= vals.len() {
        acc
    } else {
        walk_list(vals, i + 1, walk(vals[i], acc, depth), depth)
    }
}

/// `v.get(key)` where `v` may be absent.
pub open spec fn member_of(o: Option<JsonValue>, key: Seq<char>) -> Option<JsonValue> {
    match o {
        Some(v) => member(v, key),
        None => None,
    }
}

/// The items of `s` that are elements of a type that is read, in order.
pub open spec fn parseable(s: Seq<JsonValue>) -> Seq<JsonValue>
    decreases s.len(),
{
    if s.len() == 0 {
        s
    } else if parses(s.last()) {
        parseable(s.drop_last()).push(s.last())
    } else {
        parseable(s.drop_last())
    }
}

/// The readable elements of an array that may be absent.
pub open spec fn parsed_from(arr: Option<Vec<JsonValue>>) -> Seq<JsonValue> {
    match arr {
        Some(a) => parseable(a@),
        None => Seq::empty(),
    }
}

/// The element nodes of a page: those of the first of its element lists
/// (`A.C.A`, `C.A`, `A`) that has any, else those a search of the page finds.
pub open spec fn element_nodes(page: JsonValue) -> Seq<JsonValue> {
    let c1 = parsed_from(opt_array(member_of(member_of(member(page, "A"@), "C"@), "A"@)));
    let c2 = parsed_from(opt_array(member_of(member(page, "C"@), "A"@)));
    let c3 = parsed_from(opt_array(member(page, "A"@)));
    if c1.len() > 0 {
        c1
    } else if c2.len() > 0 {
        c2
    } else if c3.len() > 0 {
        c3
    } else {
        walk(page, Seq::empty(), 0)
    }
}

/// A page's thumbnail: the first of `thumbnail`, `thumb` and `image`
/// present, if it is a string.
pub open spec fn thumbnail_of(page: JsonValue) -> Option<Seq<char>> {
    opt_text(or_member(or_member(member(page, "thumbnail"@), page, "thumb"@), page, "image"@))
}

// ---------------------------------------------------------------------------
// Pages, slides and fonts
// ---------------------------------------------------------------------------

/// Whether some item of `a` is an object.
pub open spec fn has_object(a: Seq<JsonValue>) -> bool {
    exists|i: int| 0 <= i < a.len() && a[i] is Object
}

/// The first array of more than one item, some of them objects, found by
/// searching `v` at nesting `depth`, objects' members in order; nothing is
/// searched below nesting 6.
pub open spec fn search(v: JsonValue, depth: int) -> Option<Vec<JsonValue>>
    decreases 7 - depth, 1int, 0int,
{
    if depth > 6 {
        None
    } else {
        match v {
            JsonValue::Array(a) => if a@.len() > 1 && has_object(a@) {
                Some(a)
            } else {
                None
            },
            JsonValue::Object(m) => search_list(member_values(m@), 0, depth + 1),
            _ => None,
        }
    }
}

/// `search` over `vals[i..]` in turn, each at nesting `depth`: the first found.
pub open spec fn search_list(vals: Seq<JsonValue>, i: int, depth: int) -> Option<Vec<JsonValue>>
    decreases 8 - depth, 0int, vals.len() - i,
{
    if depth > 7 || i < 0 || i >= vals.len() {
        None
    } else {
        match search(vals[i], depth) {
            Some(a) => Some(a),
            None => search_list(vals, i + 1, depth),
        }
    }
}

/// The array of pages: at `page.Bj.A.C.A` where that is an array, else the
/// first found by searching `page`, else by searching the whole data.
pub open spec fn pages_at(b: JsonValue) -> Option<Vec<JsonValue>> {
    let expected = opt_array(
        member_of(member_of(member_of(member_of(member(b, "page"@), "Bj"@), "A"@), "C"@), "A"@),
    );
    let in_page = match member(b, "page"@) {
        Some(p) => search(p, 0),
        None => None,
    };
    match expected {
        Some(a) => Some(a),
        None => match in_page {
            Some(a) => Some(a),
            None => search(b, 0),
        },
    }
}

/// The pages of the design, none where no array of pages is found.
pub open spec fn pages_of(b: JsonValue) -> Seq<JsonValue> {
    match pages_at(b) {
        Some(a) => a@,
        None => Seq::empty(),
    }
}

/// One slide of a design.
#[derive(Debug)]
pub struct SlideData {
    pub index: usize,
    pub elements: Vec<ElementData>,
    pub thumbnail_url: Option<String>,
    pub thumbnail_local: Option<String>,
}

/// `s` is the slide read from `page`, the `i`th page.
pub open spec fn slide_matches(s: SlideData, i: int, page: JsonValue) -> bool {
    &&& s.index == i
    &&& all_match(s.elements@, element_nodes(page))
    &&& opt_chars(s.thumbnail_url) == thumbnail_of(page)
    &&& s.thumbnail_local is None
}

/// A font's file address: the first of `woff2`, `url` and `src` present,
/// if it is a string.
pub open spec fn font_url(info: JsonValue) -> Option<Seq<char>> {
    opt_text(or_member(or_member(member(info, "woff2"@), info, "url"@), info, "src"@))
}

/// The fonts of a list of font entries: each names its family under the
/// first of `family` and `name` present; those that name none are skipped.
pub open spec fn fonts_in_items(a: Seq<JsonValue>) -> Seq<(Seq<char>, Option<Seq<char>>)>
    decreases a.len(),
{
    if a.len() == 0 {
        Seq::empty()
    } else {
        match text_of_either(a.last(), "family"@, "name"@) {
            Some(family) => fonts_in_items(a.drop_last()).push((family, font_url(a.last()))),
            None => fonts_in_items(a.drop_last()),
        }
    }
}

/// The fonts (family, file address) of a font source: an object from
/// family to entry, or a list of entries.
pub open spec fn fonts_in(src: Option<JsonValue>) -> Seq<(Seq<char>, Option<Seq<char>>)> {
    match src {
        Some(JsonValue::Object(m)) => m@.map_values(|p: (String, JsonValue)| (p.0@, font_url(p.1))),
        Some(JsonValue::Array(a)) => fonts_in_items(a@),
        _ => Seq::empty(),
    }
}

/// The fonts of the design, from `fonts`, `page.fonts` and `assets.fonts`
/// in that order.
pub open spec fn fonts_of(b: JsonValue) -> Seq<(Seq<char>, Option<Seq<char>>)> {
    fonts_in(member(b, "fonts"@)) + fonts_in(member_of(member(b, "page"@), "fonts"@)) + fonts_in(
        member_of(member(b, "assets"@), "fonts"@),
    )
}

/// Each of `fs` is the font at the same place in `ds`, not yet downloaded.
pub open spec fn fonts_match(fs: Seq<FontRef>, ds: Seq<(Seq<char>, Option<Seq<char>>)>) -> bool {
    &&& fs.len() == ds.len()
    &&& forall|i: int|
        0 <= i < fs.len() ==> {
            &&& (#[trigger] fs[i]).family@ == ds[i].0
            &&& opt_chars(fs[i].woff2_url) == ds[i].1
            &&& fs[i].local_path is None
        }
}

/// A design read from its page, before its assets are downloaded.
#[derive(Debug)]
pub struct Design {
    pub id: String,
    pub title: String,
    pub url: String,
    pub width: u32,
    pub height: u32,
    pub slides: Vec<SlideData>,
    pub fonts: Vec<FontRef>,
    pub imported_at: String,
}

/// The width of a design's canvas.
pub const CANVAS_WIDTH: u32 = 1920;

/// The height of a design's canvas.
pub const CANVAS_HEIGHT: u32 = 1080;

// ---------------------------------------------------------------------------
// Assets
// ---------------------------------------------------------------------------

/// The image elements among `es`, each with its position and address.
pub open spec fn images_of(es: Seq<ElementData>) -> Seq<(usize, Seq<char>)>
    decreases es.len(),
{
    if es.len() == 0 {
        Seq::empty()
    } else {
        match es.last() {
            ElementData::Image { asset_url, .. } => images_of(es.drop_last()).push(
                ((es.len() - 1) as usize, asset_url@),
            ),
            _ => images_of(es.drop_last()),
        }
    }
}

/// The view of a list of (position, address) pairs.
pub open spec fn pair_views(v: Seq<(usize, String)>) -> Seq<(usize, Seq<char>)> {
    v.map_values(|p: (usize, String)| (p.0, p.1@))
}

/// `a` lists the downloadable assets of slide `s`.
pub open spec fn assets_match(a: SlideAssets, s: SlideData) -> bool {
    &&& a.index == s.index
    &&& opt_chars(a.thumbnail_url) == opt_chars(s.thumbnail_url)
    &&& pair_views(a.images@) == images_of(s.elements@)
}

/// `d` with the file at `path` recorded for the asset `kind`: the slide
/// thumbnail, the image element or the font it names, where that exists
/// (and, for an element, is an image); else `d` unchanged.
pub open spec fn recorded(old_d: Design, new_d: Design, kind: AssetKind, path: Seq<char>) -> bool {
    &&& new_d.id == old_d.id
    &&& new_d.title == old_d.title
    &&& new_d.url == old_d.url
    &&& new_d.width == old_d.width
    &&& new_d.height == old_d.height
    &&& new_d.imported_at == old_d.imported_at
    &&& new_d.slides@.len() == old_d.slides@.len()
    &&& new_d.fonts@.len() == old_d.fonts@.len()
    &&& match kind {
        AssetKind::Thumbnail(i) => {
            &&& new_d.fonts@ == old_d.fonts@
            &&& forall|j: int|
                0 <= j < old_d.slides@.len() && j != i ==> #[trigger] new_d.slides@[j] == old_d.slides@[j]
            &&& i < old_d.slides@.len() ==> {
                let (o, n) = (old_d.slides@[i as int], new_d.slides@[i as int]);
                &&& n.index == o.index
                &&& n.elements == o.elements
                &&& n.thumbnail_url == o.thumbnail_url
                &&& opt_chars(n.thumbnail_local) == Some(path)
            }
        },
        AssetKind::Image(i, e) => {
            &&& new_d.fonts@ == old_d.fonts@
            &&& forall|j: int|
                0 <= j < old_d.slides@.len() && j != i ==> #[trigger] new_d.slides@[j] == old_d.slides@[j]
            &&& i < old_d.slides@.len() ==> {
                let (o, n) = (old_d.slides@[i as int], new_d.slides@[i as int]);
                &&& n.index == o.index
                &&& n.thumbnail_url == o.thumbnail_url
                &&& n.thumbnail_local == o.thumbnail_local
                &&& n.elements@.len() == o.elements@.len()
                &&& forall|k: int|
                    0 <= k < o.elements@.len() && k != e ==> #[trigger] n.elements@[k] == o.elements@[k]
                &&& e < o.elements@.len() ==> match o.elements@[e as int] {
                    ElementData::Image { at, asset_url, .. } => n.elements@[e as int] matches ElementData::Image {
                        at: a2,
                        asset_url: u2,
                        local_path: Some(p2),
                    } && a2 == at && u2 == asset_url && p2@ == path,
                    _ => n.elements@[e as int] == o.elements@[e as int],
                }
            }
        },
        AssetKind::Font(f) => {
            &&& new_d.slides@ == old_d.slides@
            &&& forall|j: int|
                0 <= j < old_d.fonts@.len() && j != f ==> #[trigger] new_d.fonts@[j] == old_d.fonts@[j]
            &&& f < old_d.fonts@.len() ==> {
                let (o, n) = (old_d.fonts@[f as int], new_d.fonts@[f as int]);
                &&& n.family == o.family
                &&& n.woff2_url == o.woff2_url
                &&& opt_chars(n.local_path) == Some(path)
            }
        },
    }
}

/// Slide `i` of `d` has an image element at position `e`.
pub open spec fn image_at(d: Design, i: usize, e: usize) -> bool {
    &&& i < d.slides@.len()
    &&& e < d.slides@[i as int].elements@.len()
    &&& d.slides@[i as int].elements@[e as int] is Image
}

/// `k` names an asset that `d` has.
pub open spec fn names_asset(d: Design, k: AssetKind) -> bool {
    match k {
        AssetKind::Thumbnail(i) => i < d.slides@.len(),
        AssetKind::Image(i, e) => image_at(d, i, e),
        AssetKind::Font(f) => f < d.fonts@.len(),
    }
}

proof fn lemma_images_of(es: Seq<ElementData>)
    requires
        es.len() <= usize::MAX,
    ensures
        forall|m: int|
            0 <= m < images_of(es).len() ==> (#[trigger] images_of(es)[m]).0 < es.len()
                && es[images_of(es)[m].0 as int] is Image,
    decreases es.len(),
{
    if es.len() > 0 {
        let init = es.drop_last();
        lemma_images_of(init);
        let p = images_of(init);
        assert forall|m: int| 0 <= m < images_of(es).len() implies (#[trigger] images_of(es)[m]).0 < es.len()
            && es[images_of(es)[m].0 as int] is Image by {
            assert(es.last() == es[es.len() - 1]);
            if m < p.len() {
                assert(images_of(es)[m] == p[m]);
                assert(init[p[m].0 as int] == es[p[m].0 as int]);
            } else {
                assert(es.last() is Image);
                assert(images_of(es)[m].0 == es.len() - 1);
            }
        }
    }
}

proof fn lemma_thumb_kinds(d: Design, s: Seq<SlideAssets>)
    requires
        forall|j: int| 0 <= j < s.len() ==> (#[trigger] s[j]).index < d.slides@.len(),
    ensures
        forall|t: int| 0 <= t < thumb_tasks(s).len() ==> names_asset(d, (#[trigger] thumb_tasks(s)[t]).3),
    decreases s.len(),
{
    if s.len() > 0 {
        let init = s.drop_last();
        assert(s.last() == s[s.len() - 1]);
        assert forall|j: int| 0 <= j < init.len() implies (#[trigger] init[j]).index < d.slides@.len() by {
            assert(init[j] == s[j]);
        }
        lemma_thumb_kinds(d, init);
        let a = thumb_tasks(init);
        assert forall|t: int| 0 <= t < thumb_tasks(s).len() implies names_asset(d, (#[trigger] thumb_tasks(s)[t]).3) by {
            if t < a.len() {
                assert(thumb_tasks(s)[t] == a[t]);
            }
        }
    }
}

proof fn lemma_slide_image_kinds(d: Design, index: usize, images: Seq<(usize, String)>)
    requires
        forall|m: int| 0 <= m < images.len() ==> image_at(d, index, (#[trigger] images[m]).0),
    ensures
        forall|t: int|
            0 <= t < slide_image_tasks(index, images).len() ==> names_asset(
                d,
                (#[trigger] slide_image_tasks(index, images)[t]).3,
            ),
    decreases images.len(),
{
    if images.len() > 0 {
        let init = images.drop_last();
        assert(images.last() == images[images.len() - 1]);
        assert forall|m: int| 0 <= m < init.len() implies image_at(d, index, (#[trigger] init[m]).0) by {
            assert(init[m] == images[m]);
        }
        lemma_slide_image_kinds(d, index, init);
        let a = slide_image_tasks(index, init);
        assert forall|t: int| 0 <= t < slide_image_tasks(index, images).len() implies names_asset(
            d,
            (#[trigger] slide_image_tasks(index, images)[t]).3,
        ) by {
            if t < a.len() {
                assert(slide_image_tasks(index, images)[t] == a[t]);
            }
        }
    }
}

proof fn lemma_image_kinds(d: Design, s: Seq<SlideAssets>)
    requires
        forall|j: int, m: int|
            0 <= j < s.len() && 0 <= m < s[j].images@.len() ==> image_at(
                d,
                s[j].index,
                (#[trigger] s[j].images@[m]).0,
            ),
    ensures
        forall|t: int|
            0 <= t < image_tasks(s).len() ==> names_asset(d, (#[trigger] image_tasks(s)[t]).3),
    decreases s.len(),
{
    if s.len() > 0 {
        let last = s[s.len() - 1];
        assert(s.last() == last);
        lemma_image_kinds(d, s.drop_last());
        assert forall|m: int| 0 <= m < last.images@.len() implies image_at(
            d,
            last.index,
            (#[trigger] last.images@[m]).0,
        ) by {
            assert(s[s.len() - 1].images@[m] == last.images@[m]);
        }
        lemma_slide_image_kinds(d, last.index, last.images@);
        let a = image_tasks(s.drop_last());
        let b = slide_image_tasks(last.index, last.images@);
        assert forall|t: int| 0 <= t < (a + b).len() implies names_asset(d, (#[trigger] (a + b)[t]).3) by {
            if t < a.len() {
                assert((a + b)[t] == a[t]);
            } else {
                assert((a + b)[t] == b[t - a.len()]);
            }
        }
        assert(image_tasks(s) == a + b);
    }
}

proof fn lemma_font_kinds(d: Design, fonts: Seq<FontRef>)
    requires
        fonts.len() <= d.fonts@.len(),
    ensures
        forall|t: int| 0 <= t < font_tasks(fonts).len() ==> names_asset(d, (#[trigger] font_tasks(fonts)[t]).3),
    decreases fonts.len(),
{
    if fonts.len() > 0 {
        let init = fonts.drop_last();
        lemma_font_kinds(d, init);
        let a = font_tasks(init);
        assert forall|t: int| 0 <= t < font_tasks(fonts).len() implies names_asset(
            d,
            (#[trigger] font_tasks(fonts)[t]).3,
        ) by {
            if t < a.len() {
                assert(font_tasks(fonts)[t] == a[t]);
            }
        }
    }
}

/// Every file planned for a design whose slides are numbered by their
/// position (as read designs are) belongs to an asset the design has, so
/// recording where it was saved lands on that asset.
pub proof fn planned_downloads_name_assets(d: Design, assets: Seq<SlideAssets>)
    requires
        forall|i: int| 0 <= i < d.slides@.len() ==> (#[trigger] d.slides@[i]).index == i,
        assets.len() == d.slides@.len(),
        forall|i: int| 0 <= i < assets.len() ==> assets_match(#[trigger] assets[i], d.slides@[i]),
    ensures
        ({
            let plan = thumb_tasks(assets) + image_tasks(assets) + font_tasks(d.fonts@);
            forall|t: int| 0 <= t < plan.len() ==> names_asset(d, (#[trigger] plan[t]).3)
        }),
{
    assert forall|j: int| 0 <= j < assets.len() implies (#[trigger] assets[j]).index < d.slides@.len() by {
        assert(assets_match(assets[j], d.slides@[j]));
        assert(d.slides@[j].index == j);
    }
    lemma_thumb_kinds(d, assets);
    assert forall|j: int, m: int|
        0 <= j < assets.len() && 0 <= m < assets[j].images@.len() implies image_at(
        d,
        assets[j].index,
        (#[trigger] assets[j].images@[m]).0,
    ) by {
        assert(assets_match(assets[j], d.slides@[j]));
        assert(d.slides@[j].index == j);
        let es = d.slides@[j].elements@;
        assert(es.len() == d.slides@[j].elements.len());
        lemma_images_of(es);
        assert(pair_views(assets[j].images@)[m] == images_of(es)[m]);
    }
    lemma_image_kinds(d, assets);
    lemma_font_kinds(d, d.fonts@);
    let a = thumb_tasks(assets);
    let b = image_tasks(assets);
    let c = font_tasks(d.fonts@);
    let plan = a + b + c;
    assert forall|t: int| 0 <= t < plan.len() implies names_asset(d, (#[trigger] plan[t]).3) by {
        if t < a.len() {
            assert(plan[t] == a[t]);
        } else if t < a.len() + b.len() {
            assert(plan[t] == b[t - a.len()]);
        } else {
            assert(plan[t] == c[t - a.len() - b.len()]);
        }
    }
}

/// The members of `o` when it is a JSON object, else none.
pub open spec fn object_members(o: Option<JsonValue>) -> Seq<(String, JsonValue)> {
    match o {
        Some(JsonValue::Object(m)) => m@,
        _ => Seq::empty(),
    }
}

/// `o` is a JSON array.
pub open spec fn is_array(o: Option<JsonValue>) -> bool {
    o matches Some(JsonValue::Array(_))
}

/// `f` is the font `family` described by `info`, not yet downloaded: its
/// file is the string under `woff2` when there is one, and it has none when
/// none of `woff2`, `url` and `src` is present.
pub open spec fn font_entry(f: FontRef, family: Seq<char>, info: JsonValue) -> bool {
    &&& f.family@ == family
    &&& f.local_path is None
    &&& forall|u: Seq<char>| is_string(member(info, "woff2"@), u) ==> opt_chars(f.woff2_url) == Some(u)
    &&& (member(info, "woff2"@) is None && member(info, "url"@) is None && member(info, "src"@) is None)
        ==> f.woff2_url is None
}

/// Where the fonts' sources are objects from family to entry (or absent),
/// the fonts read are one per member: those of `fonts`, then those of
/// `page.fonts`, then those of `assets.fonts`, each source in its order.
pub proof fn fonts_come_from_all_three_sources(b: JsonValue, fs: Seq<FontRef>)
    requires
        fonts_match(fs, fonts_of(b)),
        !is_array(member(b, "fonts"@)),
        !is_array(member_of(member(b, "page"@), "fonts"@)),
        !is_array(member_of(member(b, "assets"@), "fonts"@)),
    ensures
        ({
            let m1 = object_members(member(b, "fonts"@));
            let m2 = object_members(member_of(member(b, "page"@), "fonts"@));
            let m3 = object_members(member_of(member(b, "assets"@), "fonts"@));
            &&& fs.len() == m1.len() + m2.len() + m3.len()
            &&& forall|j: int| 0 <= j < m1.len() ==> font_entry(fs[j], (#[trigger] m1[j]).0@, m1[j].1)
            &&& forall|j: int|
                0 <= j < m2.len() ==> font_entry(fs[m1.len() + j], (#[trigger] m2[j]).0@, m2[j].1)
            &&& forall|j: int|
                0 <= j < m3.len() ==> font_entry(fs[m1.len() + m2.len() + j], (#[trigger] m3[j]).0@, m3[j].1)
        }),
{
    let s1 = member(b, "fonts"@);
    let s2 = member_of(member(b, "page"@), "fonts"@);
    let s3 = member_of(member(b, "assets"@), "fonts"@);
    let m1 = object_members(s1);
    let m2 = object_members(s2);
    let m3 = object_members(s3);
    let f1 = fonts_in(s1);
    let f2 = fonts_in(s2);
    let f3 = fonts_in(s3);
    assert(f1 =~= m1.map_values(|p: (String, JsonValue)| (p.0@, font_url(p.1))));
    assert(f2 =~= m2.map_values(|p: (String, JsonValue)| (p.0@, font_url(p.1))));
    assert(f3 =~= m3.map_values(|p: (String, JsonValue)| (p.0@, font_url(p.1))));
    let all = f1 + f2 + f3;
    assert forall|j: int| 0 <= j < m1.len() implies font_entry(fs[j], (#[trigger] m1[j]).0@, m1[j].1) by {
        assert(all[j] == f1[j]);
    }
    assert forall|j: int| 0 <= j < m2.len() implies font_entry(fs[m1.len() + j], (#[trigger] m2[j]).0@, m2[j].1) by {
        assert(all[m1.len() + j] == f2[j]);
    }
    assert forall|j: int|
        0 <= j < m3.len() implies font_entry(fs[m1.len() + m2.len() + j], (#[trigger] m3[j]).0@, m3[j].1) by {
        assert(all[m1.len() + m2.len() + j] == f3[j]);
    }
}

proof fn lemma_items_fonts(a: Seq<JsonValue>, k: int, family: Seq<char>)
    requires
        0 <= k < a.len(),
        text_of_either(a[k], "family"@, "name"@) == Some(family),
    ensures
        exists|t: int| 0 <= t < fonts_in_items(a).len() && #[trigger] fonts_in_items(a)[t] == (family, font_url(a[k])),
    decreases a.len(),
{
    let init = a.drop_last();
    let last = a.len() - 1;
    assert(a.last() == a[last]);
    if k == last {
        let t = fonts_in_items(init).len() as int;
        assert(fonts_in_items(a)[t] == (family, font_url(a[k])));
    } else {
        assert(init[k] == a[k]);
        lemma_items_fonts(init, k, family);
        let t = choose|t: int| 0 <= t < fonts_in_items(init).len() && #[trigger] fonts_in_items(init)[t] == (family, font_url(init[k]));
        match text_of_either(a.last(), "family"@, "name"@) {
            Some(f) => assert(fonts_in_items(a)[t] == fonts_in_items(init)[t]),
            None => assert(fonts_in_items(a)[t] == fonts_in_items(init)[t]),
        }
    }
}

/// Every font listed in any of the three sources is read: each member of
/// an object under `fonts`, `page.fonts` or `assets.fonts`, and each entry
/// of a list there whose `family` is a string, with that family.
pub proof fn listed_fonts_are_read(b: JsonValue, fs: Seq<FontRef>, src: int, k: int, family: Seq<char>)
    requires
        fonts_match(fs, fonts_of(b)),
        0 <= src < 3,
    ensures
        ({
            let s = if src == 0 {
                member(b, "fonts"@)
            } else if src == 1 {
                member_of(member(b, "page"@), "fonts"@)
            } else {
                member_of(member(b, "assets"@), "fonts"@)
            };
            &&& (0 <= k < object_members(s).len() && object_members(s)[k].0@ == family) ==> exists|j: int|
                0 <= j < fs.len() && #[trigger] fs[j].family@ == family
            &&& (s matches Some(JsonValue::Array(items)) && 0 <= k < items@.len() && is_string(
                member(items@[k], "family"@),
                family,
            )) ==> exists|j: int| 0 <= j < fs.len() && #[trigger] fs[j].family@ == family
        }),
{
    let s1 = member(b, "fonts"@);
    let s2 = member_of(member(b, "page"@), "fonts"@);
    let s3 = member_of(member(b, "assets"@), "fonts"@);
    let s = if src == 0 {
        s1
    } else if src == 1 {
        s2
    } else {
        s3
    };
    let f1 = fonts_in(s1);
    let f2 = fonts_in(s2);
    let f3 = fonts_in(s3);
    let all = f1 + f2 + f3;
    let off: int = if src == 0 {
        0
    } else if src == 1 {
        f1.len() as int
    } else {
        (f1.len() + f2.len()) as int
    };
    assert(fonts_in(s) == if src == 0 { f1 } else if src == 1 { f2 } else { f3 });
    assert forall|t: int| 0 <= t < fonts_in(s).len() implies all[off + t] == #[trigger] fonts_in(s)[t] by {}
    if 0 <= k < object_members(s).len() && object_members(s)[k].0@ == family {
        let m = object_members(s);
        assert(fonts_in(s) =~= m.map_values(|p: (String, JsonValue)| (p.0@, font_url(p.1))));
        assert(fs[off + k].family@ == all[off + k].0);
        assert(fs[off + k].family@ == family);
    }
    match s {
        Some(JsonValue::Array(items)) => {
            if 0 <= k < items@.len() && is_string(member(items@[k], "family"@), family) {
                lemma_items_fonts(items@, k, family);
                let t = choose|t: int|
                    0 <= t < fonts_in_items(items@).len() && #[trigger] fonts_in_items(items@)[t] == (
                        family,
                        font_url(items@[k]),
                    );
                assert(fs[off + t].family@ == all[off + t].0);
                assert(fs[off + t].family@ == family);
            }
        },
        _ => {},
    }
}

/// `v[key]`, if `v` is an object that has a member named `key`.
pub fn get<'a>(v: &'a JsonValue, key: &str) -> (r: Option<&'a JsonValue>)
    ensures
        deref_opt(r) == member(*v, key@),
{
    match v {
        JsonValue::Object(m) => {
            let mut i: usize = 0;
            assert(m@.skip(0) =~= m@);
            while i < m.len()
                invariant
                    i <= m.len(),
                    *v == JsonValue::Object(*m),
                    member_in(m@, key@) == member_in(m@.skip(i as int), key@),
                decreases m.len() - i,
            {
                assert(m@.skip(i as int).drop_first() =~= m@.skip(i + 1));
                assert(m@.skip(i as int)[0] == m@[i as int]);
                if str_eq(m[i].0.as_str(), key) {
                    assert(member_in(m@.skip(i as int), key@) == Some(m@[i as int].1));
                    return Some(&m[i].1);
                }
                i = i + 1;
            }
            None
        },
        _ => None,
    }
}

/// `found.or_else(|| v.get(key))`.
fn or_get<'a>(found: Option<&'a JsonValue>, v: &'a JsonValue, key: &str) -> (r: Option<&'a JsonValue>)
    ensures
        deref_opt(r) == or_member(deref_opt(found), *v, key@),
{
    match found {
        Some(x) => Some(x),
        None => get(v, key),
    }
}

/// `o.and_then(Value::as_str)`, copied out.
fn text_value(o: Option<&JsonValue>) -> (r: Option<String>)
    ensures
        opt_chars(r) == opt_text(deref_opt(o)),
{
    match o {
        Some(JsonValue::Str(s)) => Some(to_owned_string(s.as_str())),
        _ => None,
    }
}

/// `o.and_then(Value::as_f64)`, as decimal text.
fn number_value(o: Option<&JsonValue>) -> (r: Option<String>)
    ensures
        opt_chars(r) == opt_number(deref_opt(o)),
{
    match o {
        Some(JsonValue::Number(n)) => Some(to_owned_string(n.as_str())),
        _ => None,
    }
}

/// `o.and_then(Value::as_bool)`.
fn bool_value(o: Option<&JsonValue>) -> (r: Option<bool>)
    ensures
        r == opt_bool(deref_opt(o)),
{
    match o {
        Some(JsonValue::Bool(b)) => Some(*b),
        _ => None,
    }
}

/// `o.and_then(Value::as_array)`.
fn array_value<'a>(o: Option<&'a JsonValue>) -> (r: Option<&'a Vec<JsonValue>>)
    ensures
        match r {
            Some(a) => opt_array(deref_opt(o)) == Some(*a),
            None => opt_array(deref_opt(o)) is None,
        },
{
    match o {
        Some(JsonValue::Array(a)) => Some(a),
        _ => None,
    }
}

/// `found.or_else(|| v.get(key).and_then(Value::as_str))`.
fn or_text(found: Option<String>, v: &JsonValue, key: &str) -> (r: Option<String>)
    ensures
        opt_chars(r) == or_text_at(opt_chars(found), *v, key@),
{
    match found {
        Some(x) => Some(x),
        None => text_value(get(v, key)),
    }
}

/// `found.or_else(|| v.get(key).and_then(Value::as_f64))`.
fn or_number(found: Option<String>, v: &JsonValue, key: &str) -> (r: Option<String>)
    ensures
        opt_chars(r) == or_number_at(opt_chars(found), *v, key@),
{
    match found {
        Some(x) => Some(x),
        None => number_value(get(v, key)),
    }
}

/// The string under the first of two keys present.
fn text_of_keys(e: &JsonValue, a: &str, b: &str) -> (r: Option<String>)
    ensures
        opt_chars(r) == text_of_either(*e, a@, b@),
{
    text_value(or_get(get(e, a), e, b))
}

/// The flag under the first of two keys present, false where it is none.
fn flag_of_keys(e: &JsonValue, a: &str, b: &str) -> (r: bool)
    ensures
        r == flag_of_either(*e, a@, b@),
{
    match bool_value(or_get(get(e, a), e, b)) {
        Some(f) => f,
        None => false,
    }
}

/// The geometry of an element.
fn geometry(e: &JsonValue) -> (g: Geometry)
    ensures
        geometry_of(g, *e),
{
    Geometry {
        x: or_number(number_value(get(e, "x")), e, "X"),
        y: or_number(number_value(get(e, "y")), e, "Y"),
        width: or_number(or_number(number_value(get(e, "width")), e, "w"), e, "W"),
        height: or_number(or_number(number_value(get(e, "height")), e, "h"), e, "H"),
        rotation: or_number(number_value(get(e, "rotation")), e, "r"),
    }
}

/// Reads one element: `None` where it has no type tag or one of a type
/// that is not read.
pub fn parse_single_element(e: &JsonValue) -> (r: Option<ElementData>)
    ensures
        match r {
            Some(d) => parses(*e) && element_matches(d, *e),
            None => !parses(*e),
        },
{
    let tag = or_text(or_text(or_text(text_value(get(e, "t")), e, "type"), e, "T"), e, "kind");
    let t = match tag {
        Some(t) => t,
        None => return None,
    };
    if str_eq(t.as_str(), "K") {
        let content = match text_value(or_get(or_get(or_get(get(e, "v"), e, "text"), e, "content"), e, "V")) {
            Some(c) => c,
            None => String::new(),
        };
        Some(ElementData::Text {
            content,
            at: geometry(e),
            font_family: text_of_keys(e, "fontFamily", "ff"),
            font_size: number_value(or_get(get(e, "fontSize"), e, "fs")),
            color: text_of_keys(e, "color", "c"),
            bold: flag_of_keys(e, "bold", "b"),
            italic: flag_of_keys(e, "italic", "i"),
        })
    } else if str_eq(t.as_str(), "I") {
        let asset_url = match text_value(or_get(or_get(get(e, "url"), e, "src"), e, "u")) {
            Some(u) => u,
            None => String::new(),
        };
        Some(ElementData::Image { at: geometry(e), asset_url, local_path: None })
    } else if str_eq(t.as_str(), "U") || str_eq(t.as_str(), "J") {
        Some(ElementData::Shape {
            at: geometry(e),
            svg_path: text_of_keys(e, "path", "d"),
            fill_color: text_of_keys(e, "fill", "f"),
            stroke_color: text_of_keys(e, "stroke", "s"),
        })
    } else {
        None
    }
}

/// Searches `v` for elements, appending them to `elements` (see `walk`).
fn collect_elements_recursive(
    v: &JsonValue,
    elements: &mut Vec<ElementData>,
    Ghost(acc): Ghost<Seq<JsonValue>>,
    depth: usize,
)
    requires
        depth <= 9,
        all_match(old(elements)@, acc),
    ensures
        all_match(final(elements)@, walk(*v, acc, depth as int)),
    decreases 9 - depth,
{
    if depth > 8 || elements.len() > 100 {
        return;
    }
    match v {
        JsonValue::Object(m) => {
            if get(v, "t").is_some() {
                if let Some(d) = parse_single_element(v) {
                    elements.push(d);
                    assert(final(elements)@ =~= old(elements)@.push(d));
                    return;
                }
            }
            let ghost vals = member_values(m@);
            let ghost mut cur = acc;
            let mut i: usize = 0;
            while i < m.len()
                invariant
                    i <= m.len(),
                    depth <= 8,
                    vals == member_values(m@),
                    all_match(elements@, cur),
                    walk(*v, acc, depth as int) == walk_list(vals, i as int, cur, depth + 1),
                decreases m.len() - i,
            {
                collect_elements_recursive(&m[i].1, elements, Ghost(cur), depth + 1);
                proof {
                    cur = walk(vals[i as int], cur, depth + 1);
                }
                i = i + 1;
            }
        },
        JsonValue::Array(a) => {
            let ghost mut cur = acc;
            let mut i: usize = 0;
            while i < a.len()
                invariant
                    i <= a.len(),
                    depth <= 8,
                    all_match(elements@, cur),
                    walk(*v, acc, depth as int) == walk_list(a@, i as int, cur, depth + 1),
                decreases a.len() - i,
            {
                collect_elements_recursive(&a[i], elements, Ghost(cur), depth + 1);
                proof {
                    cur = walk(a@[i as int], cur, depth + 1);
                }
                i = i + 1;
            }
        },
        _ => {},
    }
}

/// `o.and_then(|v| v.get(key))`.
fn get_in<'a>(o: Option<&'a JsonValue>, key: &str) -> (r: Option<&'a JsonValue>)
    ensures
        deref_opt(r) == member_of(deref_opt(o), key@),
{
    match o {
        Some(v) => get(v, key),
        None => None,
    }
}

/// The elements of `arr` of a type that is read, in order.
fn parse_all(arr: &Vec<JsonValue>) -> (r: Vec<ElementData>)
    ensures
        all_match(r@, parseable(arr@)),
{
    let mut r: Vec<ElementData> = Vec::new();
    let mut i: usize = 0;
    assert(arr@.take(0) =~= Seq::<JsonValue>::empty());
    while i < arr.len()
        invariant
            i <= arr.len(),
            all_match(r@, parseable(arr@.take(i as int))),
        decreases arr.len() - i,
    {
        assert(arr@.take(i + 1).drop_last() =~= arr@.take(i as int));
        assert(arr@.take(i + 1).last() == arr@[i as int]);
        if let Some(d) = parse_single_element(&arr[i]) {
            let ghost before = r@;
            r.push(d);
            assert(r@ =~= before.push(d));
        }
        i = i + 1;
    }
    assert(arr@.take(arr.len() as int) =~= arr@);
    r
}

/// The readable elements of an array that may be absent.
fn parse_from(arr: Option<&Vec<JsonValue>>) -> (r: Vec<ElementData>)
    ensures
        all_match(
            r@,
            match arr {
                Some(a) => parseable(a@),
                None => Seq::empty(),
            },
        ),
{
    match arr {
        Some(a) => parse_all(a),
        None => Vec::new(),
    }
}

/// The elements of a page (see `element_nodes`).
pub fn parse_elements(page: &JsonValue) -> (r: Vec<ElementData>)
    ensures
        all_match(r@, element_nodes(*page)),
{
    let r1 = parse_from(array_value(get_in(get_in(get(page, "A"), "C"), "A")));
    if r1.len() > 0 {
        return r1;
    }
    let r2 = parse_from(array_value(get_in(get(page, "C"), "A")));
    if r2.len() > 0 {
        return r2;
    }
    let r3 = parse_from(array_value(get(page, "A")));
    if r3.len() > 0 {
        return r3;
    }
    let mut elements: Vec<ElementData> = Vec::new();
    collect_elements_recursive(page, &mut elements, Ghost(Seq::empty()), 0);
    elements
}

/// A page's thumbnail address (see `thumbnail_of`).
pub fn extract_thumbnail(page: &JsonValue) -> (r: Option<String>)
    ensures
        opt_chars(r) == thumbnail_of(*page),
{
    text_value(or_get(or_get(get(page, "thumbnail"), page, "thumb"), page, "image"))
}

/// Whether some item of `a` is an object.
fn any_object(a: &Vec<JsonValue>) -> (r: bool)
    ensures
        r == has_object(a@),
{
    let mut i: usize = 0;
    while i < a.len()
        invariant
            i <= a.len(),
            forall|j: int| 0 <= j < i ==> !(a@[j] is Object),
        decreases a.len() - i,
    {
        if let JsonValue::Object(_) = &a[i] {
            return true;
        }
        i = i + 1;
    }
    false
}

/// Searches `v` for an array of pages (see `search`).
fn search_for_pages<'a>(v: &'a JsonValue, depth: usize) -> (r: Option<&'a Vec<JsonValue>>)
    requires
        depth <= 7,
    ensures
        match r {
            Some(a) => search(*v, depth as int) == Some(*a),
            None => search(*v, depth as int) is None,
        },
    decreases 7 - depth,
{
    if depth > 6 {
        return None;
    }
    match v {
        JsonValue::Array(a) => {
            if a.len() > 1 && any_object(a) {
                Some(a)
            } else {
                None
            }
        },
        JsonValue::Object(m) => {
            let ghost vals = member_values(m@);
            let mut i: usize = 0;
            while i < m.len()
                invariant
                    i <= m.len(),
                    depth <= 6,
                    vals == member_values(m@),
                    search(*v, depth as int) == search_list(vals, i as int, depth + 1),
                decreases m.len() - i,
            {
                let found = search_for_pages(&m[i].1, depth + 1);
                if found.is_some() {
                    return found;
                }
                i = i + 1;
            }
            None
        },
        _ => None,
    }
}

/// The array of pages of the design (see `pages_of`).
pub fn find_pages<'a>(bootstrap: &'a JsonValue) -> (r: &'a [JsonValue])
    ensures
        r@ == pages_of(*bootstrap),
{
    let expected = array_value(
        get_in(get_in(get_in(get_in(get(bootstrap, "page"), "Bj"), "A"), "C"), "A"),
    );
    if let Some(a) = expected {
        return a.as_slice();
    }
    if let Some(p) = get(bootstrap, "page") {
        if let Some(a) = search_for_pages(p, 0) {
            return a.as_slice();
        }
    }
    match search_for_pages(bootstrap, 0) {
        Some(a) => a.as_slice(),
        None => &[],
    }
}

/// One slide per page, in order.
pub fn parse_slides(pages: &[JsonValue]) -> (r: Vec<SlideData>)
    ensures
        r.len() == pages.len(),
        forall|i: int| 0 <= i < r.len() ==> slide_matches(#[trigger] r@[i], i, pages@[i]),
{
    let mut r: Vec<SlideData> = Vec::new();
    let mut i: usize = 0;
    while i < pages.len()
        invariant
            i <= pages.len(),
            r.len() == i,
            forall|j: int| 0 <= j < i ==> slide_matches(#[trigger] r@[j], j, pages@[j]),
        decreases pages.len() - i,
    {
        let page = &pages[i];
        r.push(SlideData {
            index: i,
            elements: parse_elements(page),
            thumbnail_url: extract_thumbnail(page),
            thumbnail_local: None,
        });
        i = i + 1;
    }
    r
}

/// Appends the fonts of one font source to `fonts`.
fn push_fonts(src: Option<&JsonValue>, fonts: &mut Vec<FontRef>, Ghost(before): Ghost<
    Seq<(Seq<char>, Option<Seq<char>>)>,
>)
    requires
        fonts_match(old(fonts)@, before),
    ensures
        fonts_match(final(fonts)@, before + fonts_in(deref_opt(src))),
{
    match src {
        Some(JsonValue::Object(m)) => {
            let ghost all = m@.map_values(|p: (String, JsonValue)| (p.0@, font_url(p.1)));
            let mut i: usize = 0;
            while i < m.len()
                invariant
                    i <= m.len(),
                    all == m@.map_values(|p: (String, JsonValue)| (p.0@, font_url(p.1))),
                    fonts_match(fonts@, before + all.take(i as int)),
                decreases m.len() - i,
            {
                let info = &m[i].1;
                let woff2_url = text_value(or_get(or_get(get(info, "woff2"), info, "url"), info, "src"));
                fonts.push(FontRef { family: to_owned_string(m[i].0.as_str()), woff2_url, local_path: None });
                assert(before + all.take(i + 1) =~= (before + all.take(i as int)).push(all[i as int]));
                i = i + 1;
            }
            assert(all.take(m.len() as int) =~= all);
        },
        Some(JsonValue::Array(a)) => {
            let mut i: usize = 0;
            assert(a@.take(0) =~= Seq::<JsonValue>::empty());
            while i < a.len()
                invariant
                    i <= a.len(),
                    fonts_match(fonts@, before + fonts_in_items(a@.take(i as int))),
                decreases a.len() - i,
            {
                let item = &a[i];
                assert(a@.take(i + 1).drop_last() =~= a@.take(i as int));
                assert(a@.take(i + 1).last() == a@[i as int]);
                if let Some(family) = text_of_keys(item, "family", "name") {
                    let woff2_url = text_value(or_get(or_get(get(item, "woff2"), item, "url"), item, "src"));
                    fonts.push(FontRef { family, woff2_url, local_path: None });
                    assert(before + fonts_in_items(a@.take(i + 1)) =~= (before + fonts_in_items(
                        a@.take(i as int),
                    )).push((family@, font_url(a@[i as int]))));
                } else {
                    assert(fonts_in_items(a@.take(i + 1)) == fonts_in_items(a@.take(i as int)));
                }
                i = i + 1;
            }
            assert(a@.take(a.len() as int) =~= a@);
        },
        _ => {
            assert(before + Seq::empty() =~= before);
        },
    }
}

/// The fonts the design uses (see `fonts_of`).
pub fn extract_fonts(bootstrap: &JsonValue) -> (r: Vec<FontRef>)
    ensures
        fonts_match(r@, fonts_of(*bootstrap)),
{
    let mut fonts: Vec<FontRef> = Vec::new();
    let ghost s1 = fonts_in(member(*bootstrap, "fonts"@));
    let ghost s2 = fonts_in(member_of(member(*bootstrap, "page"@), "fonts"@));
    let ghost s3 = fonts_in(member_of(member(*bootstrap, "assets"@), "fonts"@));
    push_fonts(get(bootstrap, "fonts"), &mut fonts, Ghost(Seq::empty()));
    assert(Seq::<(Seq<char>, Option<Seq<char>>)>::empty() + s1 =~= s1);
    push_fonts(get_in(get(bootstrap, "page"), "fonts"), &mut fonts, Ghost(s1));
    push_fonts(get_in(get(bootstrap, "assets"), "fonts"), &mut fonts, Ghost(s1 + s2));
    fonts
}

/// The downloadable assets of each slide: its thumbnail and its image
/// elements, each with its position.
pub fn slide_assets(d: &Design) -> (r: Vec<SlideAssets>)
    ensures
        r.len() == d.slides.len(),
        forall|i: int| 0 <= i < r.len() ==> assets_match(#[trigger] r@[i], d.slides@[i]),
{
    let mut r: Vec<SlideAssets> = Vec::new();
    let mut i: usize = 0;
    while i < d.slides.len()
        invariant
            i <= d.slides.len(),
            r.len() == i,
            forall|j: int| 0 <= j < i ==> assets_match(#[trigger] r@[j], d.slides@[j]),
        decreases d.slides.len() - i,
    {
        let s = &d.slides[i];
        let mut images: Vec<(usize, String)> = Vec::new();
        let mut k: usize = 0;
        assert(s.elements@.take(0) =~= Seq::<ElementData>::empty());
        while k < s.elements.len()
            invariant
                k <= s.elements.len(),
                pair_views(images@) == images_of(s.elements@.take(k as int)),
            decreases s.elements.len() - k,
        {
            assert(s.elements@.take(k + 1).drop_last() =~= s.elements@.take(k as int));
            assert(s.elements@.take(k + 1).last() == s.elements@[k as int]);
            if let ElementData::Image { asset_url, .. } = &s.elements[k] {
                let ghost before = images@;
                images.push((k, to_owned_string(asset_url.as_str())));
                assert(pair_views(images@) =~= pair_views(before).push((k, asset_url@)));
            }
            k = k + 1;
        }
        assert(s.elements@.take(s.elements.len() as int) =~= s.elements@);
        let thumbnail_url = match &s.thumbnail_url {
            Some(u) => Some(to_owned_string(u.as_str())),
            None => None,
        };
        r.push(SlideAssets { index: s.index, thumbnail_url, images });
        i = i + 1;
    }
    r
}

/// Records that the file of asset `kind` was saved at `path` (see
/// `recorded`).
pub fn record_download(d: &mut Design, kind: AssetKind, path: String)
    ensures
        recorded(*old(d), *final(d), kind, path@),
{
    match kind {
        AssetKind::Thumbnail(i) => {
            if i < d.slides.len() {
                d.slides[i].thumbnail_local = Some(path);
            }
        },
        AssetKind::Image(i, e) => {
            if i < d.slides.len() && e < d.slides[i].elements.len() {
                if let ElementData::Image { local_path, .. } = &mut d.slides[i].elements[e] {
                    *local_path = Some(path);
                }
            }
        },
        AssetKind::Font(f) => {
            if f < d.fonts.len() {
                d.fonts[f].local_path = Some(path);
            }
        },
    }
}

/// The entry of the recent-imports list for an imported design: its
/// identity, slide count, and the saved thumbnail of its first slide.
pub fn recent_entry(d: &Design) -> (r: RecentEntry)
    ensures
        r.id@ == d.id@,
        r.title@ == d.title@,
        r.url@ == d.url@,
        r.imported_at@ == d.imported_at@,
        r.slide_count == d.slides.len(),
        opt_chars(r.thumbnail_path) == if d.slides.len() > 0 {
            opt_chars(d.slides@[0].thumbnail_local)
        } else {
            None
        },
{
    let thumbnail_path = if d.slides.len() > 0 {
        match &d.slides[0].thumbnail_local {
            Some(p) => Some(to_owned_string(p.as_str())),
            None => None,
        }
    } else {
        None
    };
    RecentEntry {
        id: to_owned_string(d.id.as_str()),
        title: to_owned_string(d.title.as_str()),
        url: to_owned_string(d.url.as_str()),
        imported_at: to_owned_string(d.imported_at.as_str()),
        slide_count: d.slides.len(),
        thumbnail_path,
    }
}

/// The current UTC time in RFC 3339 form to the second, with `Z`
/// (`to_rfc3339_opts(SecondsFormat::Secs, true)` of the chrono time built by
/// `DateTime::from_timestamp` from `SystemTime::now()`); the epoch's when the
/// clock is set before it or beyond chrono's range. Nothing is claimed of
/// the value: it is the time.
#[verifier::external_body]
fn utc_now_rfc3339() -> (r: String) {
    let now = match std::time::SystemTime::now().duration_since(std::time::UNIX_EPOCH) {
        Ok(d) => chrono::DateTime::from_timestamp(d.as_secs() as i64, d.subsec_nanos()),
        Err(_) => None,
    };
    match now {
        Some(t) => t.to_rfc3339_opts(chrono::SecondsFormat::Secs, true),
        None => chrono::DateTime::UNIX_EPOCH.to_rfc3339_opts(chrono::SecondsFormat::Secs, true),
    }
}

/// `d` is the design read from a page at `url` whose HTML is `html` and
/// whose embedded data is `bootstrap`: its id from the address (`unknown`
/// where it has none), its title from the HTML (`Untitled Presentation`
/// where it has none), the canvas size, one slide per page and its fonts.
pub open spec fn design_read(d: Design, bootstrap: JsonValue, html: Seq<char>, url: Seq<char>) -> bool {
    &&& d.id@ == match design_id_from(url, 0) {
        Some(id) => id,
        None => "unknown"@,
    }
    &&& d.title@ == match page_title(html) {
        Some(t) => t,
        None => "Untitled Presentation"@,
    }
    &&& d.url@ == url
    &&& d.width == CANVAS_WIDTH
    &&& d.height == CANVAS_HEIGHT
    &&& d.slides.len() == pages_of(bootstrap).len()
    &&& forall|i: int| 0 <= i < d.slides.len() ==> slide_matches(#[trigger] d.slides@[i], i, pages_of(bootstrap)[i])
    &&& fonts_match(d.fonts@, fonts_of(bootstrap))
}

/// Reads the design of a page (see `design_read`), stamped with the time of
/// reading. Reading never fails: what is missing is left empty or given its
/// default.
pub fn parse_presentation(bootstrap: &JsonValue, html: &str, url: &str) -> (r: Result<Design, String>)
    ensures
        r matches Ok(d) && design_read(d, *bootstrap, html@, url@),
{
    let id = match extract_id_from_url(url) {
        Some(id) => id,
        None => "unknown".to_string(),
    };
    let title = match extract_title_from_html(html) {
        Some(t) => t,
        None => "Untitled Presentation".to_string(),
    };
    let pages = find_pages(bootstrap);
    let slides = parse_slides(pages);
    let fonts = extract_fonts(bootstrap);
    Ok(Design {
        id,
        title,
        url: to_owned_string(url),
        width: CANVAS_WIDTH,
        height: CANVAS_HEIGHT,
        slides,
        fonts,
        imported_at: utc_now_rfc3339(),
    })
}

} // verus!

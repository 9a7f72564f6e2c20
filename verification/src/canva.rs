//! The Canva importer's text handling: the recent-imports list, reading a
//! design page (its id, title and JavaScript string escapes), and naming
//! downloaded assets.

use vstd::prelude::*;
use vstd::string::*;
use crate::split::{contains_str, contains_text, chars_of, first_piece, first_piece_of, last_piece, last_piece_of, matches_at, string_from_range, find_chars, lemma_find_from};
use crate::text::{decimal, push_char, push_str, str_eq, to_owned_string, u64_to_decimal, utf8_len_is};

verus! {

// ---------------------------------------------------------------------------
// Import requests and progress
// ---------------------------------------------------------------------------

/// A font used by a design, and where its file comes from and went to.
#[derive(Debug)]
pub struct FontRef {
    pub family: String,
    pub woff2_url: Option<String>,
    pub local_path: Option<String>,
}

/// The stages of an import, as reported to the UI.
#[derive(Debug, Clone, Copy, PartialEq, Eq, Structural)]
pub enum ImportStage {
    Fetching,
    Parsing,
    Downloading,
    Complete,
    Failed,
}

/// A progress report of an import.
#[derive(Debug)]
pub struct ImportProgress {
    pub stage: ImportStage,
    pub detail: String,
}

pub open spec fn not_canva_message() -> Seq<char> {
    "URL must be a canva.com link"@
}

/// Only canva.com links can be imported.
pub fn validate_import_url(url: &str) -> (r: Result<(), String>)
    ensures
        r is Ok <==> contains_text(url@, "canva.com"@),
        r matches Err(e) ==> e@ == not_canva_message(),
{
    if contains_str(url, "canva.com") {
        Ok(())
    } else {
        Err(to_owned_string("URL must be a canva.com link"))
    }
}

// ---------------------------------------------------------------------------
// Recent imports
// ---------------------------------------------------------------------------

/// How many recent imports are kept.
pub const MAX_RECENT: usize = 20;

/// One recent import.
#[derive(Debug)]
pub struct RecentEntry {
    pub id: String,
    pub title: String,
    pub url: String,
    pub imported_at: String,
    pub slide_count: usize,
    pub thumbnail_path: Option<String>,
}

/// The entries whose id is not `id`, in order.
pub open spec fn without_id(s: Seq<RecentEntry>, id: Seq<char>) -> Seq<RecentEntry>
    decreases s.len(),
{
    if s.len() == 0 {
        Seq::empty()
    } else if s.last().id@ == id {
        without_id(s.drop_last(), id)
    } else {
        without_id(s.drop_last(), id).push(s.last())
    }
}

/// The list after importing `entry`: it goes first, an older entry with its
/// id goes away, and at most 20 are kept.
pub open spec fn recent_after_add(s: Seq<RecentEntry>, entry: RecentEntry) -> Seq<RecentEntry> {
    let l = seq![entry] + without_id(s, entry.id@);
    if l.len() > MAX_RECENT {
        l.take(MAX_RECENT as int)
    } else {
        l
    }
}

fn retain_other_ids(entries: Vec<RecentEntry>, id: &str) -> (r: Vec<RecentEntry>)
    ensures
        r@ == without_id(entries@, id@),
{
    let ghost before = entries@;
    let mut rest = entries;
    let mut stack: Vec<RecentEntry> = Vec::new();
    let total: usize = rest.len();
    while rest.len() > 0
        invariant
            rest@.len() + stack@.len() == total,
            total == before.len(),
            forall|j: int| 0 <= j < rest@.len() ==> rest@[j] == before[j],
            forall|j: int| 0 <= j < stack@.len() ==> #[trigger] stack@[j] == before[total - 1 - j],
        decreases rest@.len(),
    {
        let e = rest.pop().unwrap();
        stack.push(e);
    }
    let mut kept: Vec<RecentEntry> = Vec::new();
    let mut k: usize = 0;
    while stack.len() > 0
        invariant
            k + stack@.len() == total,
            total == before.len(),
            forall|j: int| 0 <= j < stack@.len() ==> #[trigger] stack@[j] == before[total - 1 - j],
            kept@ == without_id(before.take(k as int), id@),
        decreases stack@.len(),
    {
        let e = stack.pop().unwrap();
        proof {
            assert(e == before[k as int]);
            assert(before.take(k + 1).drop_last() =~= before.take(k as int));
            assert(before.take(k + 1).last() == before[k as int]);
        }
        if !str_eq(e.id.as_str(), id) {
            kept.push(e);
        }
        k = k + 1;
    }
    proof {
        assert(before.take(total as int) =~= before);
    }
    kept
}

/// The recent list after importing `entry`.
pub fn add_recent(entries: Vec<RecentEntry>, entry: RecentEntry) -> (r: Vec<RecentEntry>)
    ensures
        r@ == recent_after_add(entries@, entry),
{
    let ghost e = entry;
    let mut kept = retain_other_ids(entries, entry.id.as_str());
    let ghost k = kept@;
    kept.insert(0, entry);
    assert(kept@ =~= seq![e] + k);
    if kept.len() > MAX_RECENT {
        kept.truncate(MAX_RECENT);
    }
    kept
}

/// The recent list without the entry whose id is `id`.
pub fn remove_recent(entries: Vec<RecentEntry>, id: &str) -> (r: Vec<RecentEntry>)
    ensures
        r@ == without_id(entries@, id@),
{
    retain_other_ids(entries, id)
}

proof fn lemma_without_id(s: Seq<RecentEntry>, id: Seq<char>)
    ensures
        forall|i: int| 0 <= i < without_id(s, id).len() ==> (#[trigger] without_id(s, id)[i]).id@ != id,
        without_id(s, id).len() <= s.len(),
        forall|i: int| 0 <= i < without_id(s, id).len() ==> s.contains(#[trigger] without_id(s, id)[i]),
    decreases s.len(),
{
    if s.len() > 0 {
        let t = s.drop_last();
        lemma_without_id(t, id);
        let w = without_id(t, id);
        assert forall|i: int| 0 <= i < w.len() implies s.contains(#[trigger] w[i]) by {
            let k = choose|k: int| 0 <= k < t.len() && t[k] == w[i];
            assert(s[k] == t[k]);
        }
        assert(s[s.len() - 1] == s.last());
    }
}

/// After an import the new entry is first, no other entry has its id, the
/// list holds at most 20, and every other entry was there before.
pub proof fn add_recent_puts_entry_first(s: Seq<RecentEntry>, entry: RecentEntry)
    ensures
        recent_after_add(s, entry).len() >= 1,
        recent_after_add(s, entry)[0] == entry,
        recent_after_add(s, entry).len() <= MAX_RECENT,
        forall|i: int|
            1 <= i < recent_after_add(s, entry).len() ==> (#[trigger] recent_after_add(s, entry)[i]).id@
                != entry.id@ && s.contains(recent_after_add(s, entry)[i]),
{
    lemma_without_id(s, entry.id@);
    let l = seq![entry] + without_id(s, entry.id@);
    assert forall|i: int| 1 <= i < l.len() implies (#[trigger] l[i]).id@ != entry.id@ && s.contains(
        l[i],
    ) by {
        assert(l[i] == without_id(s, entry.id@)[i - 1]);
    }
}

/// Removing an id leaves no entry with it; removing it again changes
/// nothing.
pub proof fn remove_recent_is_idempotent(s: Seq<RecentEntry>, id: Seq<char>)
    ensures
        forall|i: int| 0 <= i < without_id(s, id).len() ==> (#[trigger] without_id(s, id)[i]).id@ != id,
        without_id(without_id(s, id), id) == without_id(s, id),
    decreases s.len(),
{
    lemma_without_id(s, id);
    lemma_without_id_noop(without_id(s, id), id);
}

proof fn lemma_without_id_noop(s: Seq<RecentEntry>, id: Seq<char>)
    requires
        forall|i: int| 0 <= i < s.len() ==> (#[trigger] s[i]).id@ != id,
    ensures
        without_id(s, id) == s,
    decreases s.len(),
{
    if s.len() > 0 {
        let t = s.drop_last();
        assert forall|i: int| 0 <= i < t.len() implies (#[trigger] t[i]).id@ != id by {
            assert(t[i] == s[i]);
        }
        lemma_without_id_noop(t, id);
        assert(s[s.len() - 1] == s.last());
        assert(t.push(s.last()) =~= s);
    }
}

// ---------------------------------------------------------------------------
// Asset names
// ---------------------------------------------------------------------------

/// The extension of an asset URL: the text after the last `.` of the part
/// before any `?`, when it is at most five bytes long.
pub open spec fn url_ext(url: Seq<char>) -> Option<Seq<char>> {
    let ext = last_piece(first_piece(url, '?', '?'), '.', '.');
    if vstd::utf8::encode_utf8(ext).len() <= 5 {
        Some(ext)
    } else {
        None
    }
}

/// The file extension of an asset URL, if short enough to be one.
pub fn url_extension(url: &str) -> (r: Option<String>)
    ensures
        match r {
            Some(e) => url_ext(url@) == Some(e@),
            None => url_ext(url@) is None,
        },
{
    let path = first_piece_of(url, '?', '?');
    let ext = last_piece_of(path.as_str(), '.', '.');
    if utf8_len_is(ext.as_str(), 0) || utf8_len_is(ext.as_str(), 1) || utf8_len_is(
        ext.as_str(),
        2,
    ) || utf8_len_is(ext.as_str(), 3) || utf8_len_is(ext.as_str(), 4) || utf8_len_is(
        ext.as_str(),
        5,
    ) {
        Some(ext)
    } else {
        None
    }
}

/// Whether `char::is_alphanumeric` holds of `c` (Unicode Alphabetic or
/// Numeric).
pub uninterp spec fn alphanumeric(c: char) -> bool;

/// `char::is_alphanumeric`.
#[verifier::external_body]
fn is_alphanumeric(c: char) -> (r: bool)
    ensures
        r == alphanumeric(c),
{
    c.is_alphanumeric()
}

/// A character kept in file names: alphanumeric, `-` or `_`; others become
/// `_`.
pub open spec fn safe_char(c: char) -> char {
    if alphanumeric(c) || c == '-' || c == '_' {
        c
    } else {
        '_'
    }
}

/// `name` with every character not safe in a file name replaced by `_`.
pub open spec fn sanitized(name: Seq<char>) -> Seq<char> {
    name.map_values(|c: char| safe_char(c))
}

/// `name` with every character not safe in a file name replaced by `_`.
pub fn sanitize_filename(name: &str) -> (r: String)
    ensures
        r@ == sanitized(name@),
{
    let v = chars_of(name);
    let mut out = String::new();
    let mut i: usize = 0;
    while i < v.len()
        invariant
            i <= v.len(),
            v@ == name@,
            out@ == v@.take(i as int).map_values(|c: char| safe_char(c)),
        decreases v.len() - i,
    {
        let c = v[i];
        let k = if is_alphanumeric(c) || c == '-' || c == '_' {
            c
        } else {
            '_'
        };
        push_char(&mut out, k);
        assert(v@.take(i + 1).map_values(|c: char| safe_char(c)) =~= v@.take(i as int).map_values(
            |c: char| safe_char(c),
        ).push(safe_char(c)));
        i = i + 1;
    }
    assert(v@.take(v.len() as int) =~= v@);
    out
}

// ---------------------------------------------------------------------------
// Download plan
// ---------------------------------------------------------------------------

/// What of a slide is downloaded: its thumbnail and its image elements,
/// each image with its position among the slide's elements.
#[derive(Debug)]
pub struct SlideAssets {
    pub index: usize,
    pub thumbnail_url: Option<String>,
    pub images: Vec<(usize, String)>,
}

/// What a downloaded file belongs to.
#[derive(Debug, Clone, Copy, PartialEq, Eq, Structural)]
pub enum AssetKind {
    /// The thumbnail of slide `0`.
    Thumbnail(usize),
    /// Element `1` of slide `0`.
    Image(usize, usize),
    /// Font `0` of the design.
    Font(usize),
}

/// The directory of the presentation a file goes to.
#[derive(Debug, Clone, Copy, PartialEq, Eq, Structural)]
pub enum AssetDir {
    Media,
    Fonts,
}

/// One file to fetch.
#[derive(Debug)]
pub struct DownloadTask {
    pub url: String,
    pub file_name: String,
    pub dir: AssetDir,
    pub kind: AssetKind,
}

pub open spec fn task_view(t: DownloadTask) -> (Seq<char>, Seq<char>, AssetDir, AssetKind) {
    (t.url@, t.file_name@, t.dir, t.kind)
}

/// `thumb_{index}.jpg`.
pub open spec fn thumb_name(index: usize) -> Seq<char> {
    "thumb_"@ + decimal(index as nat) + ".jpg"@
}

/// `slide{index}_{element}.{ext}`, the extension taken from the URL, `png`
/// when it has none.
pub open spec fn image_name(index: usize, element: usize, url: Seq<char>) -> Seq<char> {
    let ext = match url_ext(url) {
        Some(e) => e,
        None => "png"@,
    };
    "slide"@ + decimal(index as nat) + "_"@ + decimal(element as nat) + "."@ + ext
}

/// `font_{n}_{family}.{ext}`: the family made safe for a file name, the
/// extension `otf` for an OpenType URL and `woff2` otherwise.
pub open spec fn font_name(n: usize, family: Seq<char>, url: Seq<char>) -> Seq<char> {
    let ext = if contains_text(url, ".otf"@) {
        "otf"@
    } else {
        "woff2"@
    };
    "font_"@ + decimal(n as nat) + "_"@ + sanitized(family) + "."@ + ext
}

/// The thumbnails to fetch, in slide order (slides without one, or with an
/// empty URL, have none).
pub open spec fn thumb_tasks(slides: Seq<SlideAssets>) -> Seq<(Seq<char>, Seq<char>, AssetDir, AssetKind)>
    decreases slides.len(),
{
    if slides.len() == 0 {
        Seq::empty()
    } else {
        let s = slides.last();
        thumb_tasks(slides.drop_last()) + match s.thumbnail_url {
            Some(u) => if u@.len() > 0 {
                seq![(u@, thumb_name(s.index), AssetDir::Media, AssetKind::Thumbnail(s.index))]
            } else {
                Seq::empty()
            },
            None => Seq::empty(),
        }
    }
}

/// The images of slide `index` to fetch, in element order (empty URLs
/// skipped).
pub open spec fn slide_image_tasks(index: usize, images: Seq<(usize, String)>) -> Seq<
    (Seq<char>, Seq<char>, AssetDir, AssetKind),
>
    decreases images.len(),
{
    if images.len() == 0 {
        Seq::empty()
    } else {
        let (e, u) = images.last();
        slide_image_tasks(index, images.drop_last()) + if u@.len() > 0 {
            seq![(u@, image_name(index, e, u@), AssetDir::Media, AssetKind::Image(index, e))]
        } else {
            Seq::empty()
        }
    }
}

/// The images of all slides, slide by slide.
pub open spec fn image_tasks(slides: Seq<SlideAssets>) -> Seq<(Seq<char>, Seq<char>, AssetDir, AssetKind)>
    decreases slides.len(),
{
    if slides.len() == 0 {
        Seq::empty()
    } else {
        image_tasks(slides.drop_last()) + slide_image_tasks(slides.last().index, slides.last().images@)
    }
}

/// The fonts to fetch, numbered by their position (those without a URL,
/// or with an empty one, skipped).
pub open spec fn font_tasks(fonts: Seq<FontRef>) -> Seq<(Seq<char>, Seq<char>, AssetDir, AssetKind)>
    decreases fonts.len(),
{
    if fonts.len() == 0 {
        Seq::empty()
    } else {
        let n = (fonts.len() - 1) as usize;
        let f = fonts.last();
        font_tasks(fonts.drop_last()) + match f.woff2_url {
            Some(u) => if u@.len() > 0 {
                seq![(u@, font_name(n, f.family@, u@), AssetDir::Fonts, AssetKind::Font(n))]
            } else {
                Seq::empty()
            },
            None => Seq::empty(),
        }
    }
}

fn thumb_file_name(index: usize) -> (r: String)
    ensures
        r@ == thumb_name(index),
{
    let mut s = to_owned_string("thumb_");
    let d = u64_to_decimal(index as u64);
    push_str(&mut s, d.as_str());
    push_str(&mut s, ".jpg");
    s
}

fn image_file_name(index: usize, element: usize, url: &str) -> (r: String)
    ensures
        r@ == image_name(index, element, url@),
{
    let mut s = to_owned_string("slide");
    let d = u64_to_decimal(index as u64);
    push_str(&mut s, d.as_str());
    push_str(&mut s, "_");
    let e = u64_to_decimal(element as u64);
    push_str(&mut s, e.as_str());
    push_str(&mut s, ".");
    match url_extension(url) {
        Some(x) => push_str(&mut s, x.as_str()),
        None => push_str(&mut s, "png"),
    }
    s
}

fn font_file_name(n: usize, family: &str, url: &str) -> (r: String)
    ensures
        r@ == font_name(n, family@, url@),
{
    let mut s = to_owned_string("font_");
    let d = u64_to_decimal(n as u64);
    push_str(&mut s, d.as_str());
    push_str(&mut s, "_");
    let f = sanitize_filename(family);
    push_str(&mut s, f.as_str());
    push_str(&mut s, ".");
    if contains_str(url, ".otf") {
        push_str(&mut s, "otf");
    } else {
        push_str(&mut s, "woff2");
    }
    s
}

fn push_task(out: &mut Vec<DownloadTask>, t: DownloadTask)
    ensures
        final(out)@.map_values(|t: DownloadTask| task_view(t)) == old(out)@.map_values(
            |t: DownloadTask| task_view(t),
        ).push(task_view(t)),
{
    let ghost before = out@;
    out.push(t);
    assert(out@.map_values(|t: DownloadTask| task_view(t)) =~= before.map_values(
        |t: DownloadTask| task_view(t),
    ).push(task_view(t)));
}

proof fn lemma_thumb_tasks_media(slides: Seq<SlideAssets>)
    ensures
        forall|i: int|
            0 <= i < thumb_tasks(slides).len() ==> (#[trigger] thumb_tasks(slides)[i]).2 == AssetDir::Media
                && thumb_tasks(slides)[i].3 is Thumbnail,
    decreases slides.len(),
{
    if slides.len() > 0 {
        lemma_thumb_tasks_media(slides.drop_last());
    }
}

proof fn lemma_slide_image_tasks_media(index: usize, images: Seq<(usize, String)>)
    ensures
        forall|i: int|
            0 <= i < slide_image_tasks(index, images).len() ==> (#[trigger] slide_image_tasks(
                index,
                images,
            )[i]).2 == AssetDir::Media && slide_image_tasks(index, images)[i].3 is Image,
    decreases images.len(),
{
    if images.len() > 0 {
        lemma_slide_image_tasks_media(index, images.drop_last());
    }
}

proof fn lemma_image_tasks_media(slides: Seq<SlideAssets>)
    ensures
        forall|i: int|
            0 <= i < image_tasks(slides).len() ==> (#[trigger] image_tasks(slides)[i]).2 == AssetDir::Media
                && image_tasks(slides)[i].3 is Image,
    decreases slides.len(),
{
    if slides.len() > 0 {
        lemma_image_tasks_media(slides.drop_last());
        lemma_slide_image_tasks_media(slides.last().index, slides.last().images@);
        let a = image_tasks(slides.drop_last());
        let b = slide_image_tasks(slides.last().index, slides.last().images@);
        assert forall|i: int| 0 <= i < (a + b).len() implies (#[trigger] (a + b)[i]).2 == AssetDir::Media
            && (a + b)[i].3 is Image by {
            if i < a.len() {
                assert((a + b)[i] == a[i]);
            } else {
                assert((a + b)[i] == b[i - a.len()]);
            }
        }
    }
}

proof fn lemma_font_tasks_fonts(fonts: Seq<FontRef>)
    ensures
        forall|i: int|
            0 <= i < font_tasks(fonts).len() ==> (#[trigger] font_tasks(fonts)[i]).2 == AssetDir::Fonts
                && font_tasks(fonts)[i].3 is Font,
    decreases fonts.len(),
{
    if fonts.len() > 0 {
        lemma_font_tasks_fonts(fonts.drop_last());
    }
}

/// Fonts are saved in the fonts directory and thumbnails and images in the
/// media directory, whatever the design.
pub proof fn downloads_go_to_their_directory(slides: Seq<SlideAssets>, fonts: Seq<FontRef>)
    ensures
        ({
            let plan = thumb_tasks(slides) + image_tasks(slides) + font_tasks(fonts);
            forall|i: int|
                0 <= i < plan.len() ==> ((#[trigger] plan[i]).2 == AssetDir::Fonts <==> plan[i].3 is Font)
        }),
{
    lemma_thumb_tasks_media(slides);
    lemma_image_tasks_media(slides);
    lemma_font_tasks_fonts(fonts);
    let a = thumb_tasks(slides);
    let b = image_tasks(slides);
    let c = font_tasks(fonts);
    let plan = a + b + c;
    assert forall|i: int| 0 <= i < plan.len() implies ((#[trigger] plan[i]).2 == AssetDir::Fonts
        <==> plan[i].3 is Font) by {
        if i < a.len() {
            assert(plan[i] == a[i]);
        } else if i < a.len() + b.len() {
            assert(plan[i] == b[i - a.len()]);
        } else {
            assert(plan[i] == c[i - a.len() - b.len()]);
        }
    }
}

/// The files to fetch for a design: the slide thumbnails, then the images
/// of each slide, then the fonts.
pub fn plan_downloads(slides: &Vec<SlideAssets>, fonts: &Vec<FontRef>) -> (r: Vec<DownloadTask>)
    ensures
        r@.map_values(|t: DownloadTask| task_view(t)) == thumb_tasks(slides@) + image_tasks(slides@)
            + font_tasks(fonts@),
{
    let mut out: Vec<DownloadTask> = Vec::new();
    let mut i: usize = 0;
    while i < slides.len()
        invariant
            i <= slides.len(),
            out@.map_values(|t: DownloadTask| task_view(t)) == thumb_tasks(slides@.take(i as int)),
        decreases slides.len() - i,
    {
        let s = &slides[i];
        assert(slides@.take(i + 1).drop_last() =~= slides@.take(i as int));
        match &s.thumbnail_url {
            Some(u) => {
                if u.unicode_len() > 0 {
                    push_task(
                        &mut out,
                        DownloadTask {
                            url: u.clone(),
                            file_name: thumb_file_name(s.index),
                            dir: AssetDir::Media,
                            kind: AssetKind::Thumbnail(s.index),
                        },
                    );
                }
            },
            None => {},
        }
        assert(thumb_tasks(slides@.take(i + 1)) =~= out@.map_values(|t: DownloadTask| task_view(t)));
        i = i + 1;
    }
    assert(slides@.take(slides.len() as int) =~= slides@);
    let ghost thumbs = out@.map_values(|t: DownloadTask| task_view(t));
    let mut i: usize = 0;
    while i < slides.len()
        invariant
            i <= slides.len(),
            thumbs == thumb_tasks(slides@),
            out@.map_values(|t: DownloadTask| task_view(t)) == thumbs + image_tasks(
                slides@.take(i as int),
            ),
        decreases slides.len() - i,
    {
        let s = &slides[i];
        assert(slides@.take(i + 1).drop_last() =~= slides@.take(i as int));
        let ghost start = out@.map_values(|t: DownloadTask| task_view(t));
        let mut k: usize = 0;
        while k < s.images.len()
            invariant
                k <= s.images.len(),
                out@.map_values(|t: DownloadTask| task_view(t)) == start + slide_image_tasks(
                    s.index,
                    s.images@.take(k as int),
                ),
            decreases s.images.len() - k,
        {
            let (e, u) = &s.images[k];
            assert(s.images@.take(k + 1).drop_last() =~= s.images@.take(k as int));
            let ghost before = out@.map_values(|t: DownloadTask| task_view(t));
            if u.unicode_len() > 0 {
                push_task(
                    &mut out,
                    DownloadTask {
                        url: u.clone(),
                        file_name: image_file_name(s.index, *e, u.as_str()),
                        dir: AssetDir::Media,
                        kind: AssetKind::Image(s.index, *e),
                    },
                );
            }
            assert(out@.map_values(|t: DownloadTask| task_view(t)) =~= start + slide_image_tasks(
                s.index,
                s.images@.take(k + 1),
            ));
            k = k + 1;
        }
        assert(s.images@.take(s.images.len() as int) =~= s.images@);
        assert(out@.map_values(|t: DownloadTask| task_view(t)) =~= thumbs + image_tasks(
            slides@.take(i + 1),
        ));
        i = i + 1;
    }
    assert(slides@.take(slides.len() as int) =~= slides@);
    let ghost images = out@.map_values(|t: DownloadTask| task_view(t));
    let mut n: usize = 0;
    while n < fonts.len()
        invariant
            n <= fonts.len(),
            images == thumb_tasks(slides@) + image_tasks(slides@),
            out@.map_values(|t: DownloadTask| task_view(t)) == images + font_tasks(
                fonts@.take(n as int),
            ),
        decreases fonts.len() - n,
    {
        let f = &fonts[n];
        assert(fonts@.take(n + 1).drop_last() =~= fonts@.take(n as int));
        match &f.woff2_url {
            Some(u) => {
                if u.unicode_len() > 0 {
                    push_task(
                        &mut out,
                        DownloadTask {
                            url: u.clone(),
                            file_name: font_file_name(n, f.family.as_str(), u.as_str()),
                            dir: AssetDir::Fonts,
                            kind: AssetKind::Font(n),
                        },
                    );
                }
            },
            None => {},
        }
        assert(out@.map_values(|t: DownloadTask| task_view(t)) =~= images + font_tasks(
            fonts@.take(n + 1),
        ));
        n = n + 1;
    }
    assert(fonts@.take(fonts.len() as int) =~= fonts@);
    out
}


// ---------------------------------------------------------------------------
// JavaScript string escapes
// ---------------------------------------------------------------------------

/// `c` is an ASCII hex digit.
pub open spec fn is_hex(c: char) -> bool {
    ('0' <= c && c <= '9') || ('a' <= c && c <= 'f') || ('A' <= c && c <= 'F')
}

pub open spec fn hex_value(c: char) -> nat {
    if '0' <= c && c <= '9' {
        ((c as u32) - 48) as nat
    } else if 'a' <= c && c <= 'f' {
        ((c as u32) - 87) as nat
    } else {
        ((c as u32) - 55) as nat
    }
}

/// The number a run of hex digits spells.
pub open spec fn hex_digits_value(s: Seq<char>) -> nat
    decreases s.len(),
{
    if s.len() == 0 {
        0
    } else {
        hex_digits_value(s.drop_last()) * 16 + hex_value(s.last())
    }
}

/// The digits of hex text: without a leading `+`.
pub open spec fn hex_body(s: Seq<char>) -> Seq<char> {
    if s.len() > 0 && s[0] == '+' {
        s.drop_first()
    } else {
        s
    }
}

/// `u32::from_str_radix(s, 16)` for text of at most four characters: an
/// optional `+`, then one or more hex digits.
pub open spec fn hex_text(s: Seq<char>) -> Option<nat> {
    let d = hex_body(s);
    if d.len() > 0 && forall|i: int| 0 <= i < d.len() ==> is_hex(#[trigger] d[i]) {
        Some(hex_digits_value(d))
    } else {
        None
    }
}

/// `v` is a Unicode scalar value (what `char::from_u32` accepts).
pub open spec fn is_scalar_value(v: nat) -> bool {
    v <= 0x10FFFF && !(0xD800 <= v <= 0xDFFF)
}

/// `s` with JavaScript escapes resolved: `\\ \' \" \n \r \t \/`, `\uXXXX`
/// (the next up to four characters read as hex; a bad code gives nothing),
/// any other escaped character kept with its backslash, and a trailing
/// backslash kept.
pub open spec fn unescape_js(s: Seq<char>) -> Seq<char>
    decreases s.len(),
{
    if s.len() == 0 {
        Seq::empty()
    } else if s[0] != '\\' {
        seq![s[0]] + unescape_js(s.drop_first())
    } else if s.len() == 1 {
        seq!['\\']
    } else {
        let d = s[1];
        let rest = s.skip(2);
        if d == '\\' {
            seq!['\\'] + unescape_js(rest)
        } else if d == '\'' {
            seq!['\''] + unescape_js(rest)
        } else if d == '"' {
            seq!['"'] + unescape_js(rest)
        } else if d == 'n' {
            seq!['\n'] + unescape_js(rest)
        } else if d == 'r' {
            seq!['\r'] + unescape_js(rest)
        } else if d == 't' {
            seq!['\t'] + unescape_js(rest)
        } else if d == '/' {
            seq!['/'] + unescape_js(rest)
        } else if d == 'u' {
            let end = if s.len() < 6 {
                s.len() as int
            } else {
                6
            };
            let hex = s.subrange(2, end);
            let decoded = match hex_text(hex) {
                Some(v) => if is_scalar_value(v) {
                    seq![(v as u32) as char]
                } else {
                    Seq::empty()
                },
                None => Seq::empty(),
            };
            decoded + unescape_js(s.skip(end))
        } else {
            seq!['\\', d] + unescape_js(rest)
        }
    }
}

/// `char::from_u32`: the `char` whose scalar value is `v`, or `None` for a
/// surrogate or a value above 0x10FFFF.
#[verifier::external_body]
fn char_from_u32(v: u32) -> (r: Option<char>)
    ensures
        match r {
            Some(c) => is_scalar_value(v as nat) && c as u32 == v,
            None => !is_scalar_value(v as nat),
        },
{
    char::from_u32(v)
}

fn hex_digit(c: char) -> (r: Option<u32>)
    ensures
        match r {
            Some(d) => is_hex(c) && d == hex_value(c),
            None => !is_hex(c),
        },
{
    if '0' <= c && c <= '9' {
        Some((c as u32) - 48)
    } else if 'a' <= c && c <= 'f' {
        Some((c as u32) - 87)
    } else if 'A' <= c && c <= 'F' {
        Some((c as u32) - 55)
    } else {
        None
    }
}

/// Reads `v[from..to]` (at most four characters) as `u32::from_str_radix(_, 16)`.
fn parse_hex(v: &Vec<char>, from: usize, to: usize) -> (r: Option<u32>)
    requires
        from <= to <= v.len(),
        to - from <= 4,
    ensures
        match r {
            Some(x) => hex_text(v@.subrange(from as int, to as int)) == Some(x as nat),
            None => hex_text(v@.subrange(from as int, to as int)) is None,
        },
{
    let ghost s = v@.subrange(from as int, to as int);
    let start = if from < to && v[from] == '+' {
        from + 1
    } else {
        from
    };
    let ghost d = v@.subrange(start as int, to as int);
    proof {
        if from < to && v@[from as int] == '+' {
            assert(d =~= s.drop_first());
        } else {
            assert(d =~= s);
        }
    }
    if start == to {
        return None;
    }
    let mut acc: u32 = 0;
    let mut i: usize = start;
    while i < to
        invariant
            start <= i <= to,
            to <= v@.len(),
            to - start <= 4,
            d == v@.subrange(start as int, to as int),
            d == hex_body(s),
            s == v@.subrange(from as int, to as int),
            forall|j: int| 0 <= j < i - start ==> is_hex(#[trigger] d[j]),
            acc == hex_digits_value(d.take(i - start)),
            acc < pow16(i - start),
        decreases to - i,
    {
        match hex_digit(v[i]) {
            None => {
                assert(!is_hex(d[i - start]));
                return None;
            },
            Some(x) => {
                proof {
                    assert(d.take(i - start + 1).drop_last() =~= d.take(i - start));
                    assert(d.take(i - start + 1).last() == v@[i as int]);
                    assert(acc * 16 + x < pow16(i - start + 1)) by (nonlinear_arith)
                        requires
                            acc < pow16(i - start),
                            x < 16,
                            pow16(i - start + 1) == pow16(i - start) * 16,
                    ;
                    reveal_with_fuel(pow16, 5);
                    assert(pow16(4) == 65536);
                    assert(i - start + 1 <= 4);
                    lemma_pow16_mono(i - start + 1, 4);
                }
                acc = acc * 16 + x;
            },
        }
        i = i + 1;
    }
    proof {
        assert(d.take(to - start) =~= d);
    }
    Some(acc)
}

/// 16 to the power `n`.
pub open spec fn pow16(n: int) -> int
    decreases n,
{
    if n <= 0 {
        1
    } else {
        16 * pow16(n - 1)
    }
}

proof fn lemma_pow16_pos(n: int)
    ensures
        pow16(n) >= 1,
    decreases n,
{
    if n > 0 {
        lemma_pow16_pos(n - 1);
    }
}

proof fn lemma_pow16_mono(a: int, b: int)
    requires
        0 <= a <= b,
    ensures
        pow16(a) <= pow16(b),
    decreases b - a,
{
    if a < b {
        lemma_pow16_mono(a, b - 1);
        lemma_pow16_pos(b - 1);
        assert(pow16(b) == 16 * pow16(b - 1));
    }
}

/// Resolves the escapes of a JavaScript string that stood between single
/// quotes.
pub fn unescape_js_string(s: &str) -> (r: String)
    ensures
        r@ == unescape_js(s@),
{
    let v = chars_of(s);
    let mut result = String::new();
    let mut i: usize = 0;
    proof {
        assert(v@.skip(0) =~= v@);
        assert(result@ + unescape_js(v@) =~= unescape_js(v@));
    }
    while i < v.len()
        invariant
            i <= v.len(),
            v@ == s@,
            result@ + unescape_js(v@.skip(i as int)) == unescape_js(s@),
        decreases v.len() - i,
    {
        let ghost t = v@.skip(i as int);
        let ghost before = result@;
        let c = v[i];
        assert(t[0] == c);
        if c != '\\' {
            push_char(&mut result, c);
            assert(t.drop_first() =~= v@.skip(i + 1));
            assert(before + (seq![c] + unescape_js(t.drop_first())) =~= result@ + unescape_js(
                v@.skip(i + 1),
            ));
            i = i + 1;
        } else if i + 1 == v.len() {
            push_char(&mut result, '\\');
            assert(t.len() == 1);
            assert(v@.skip(i + 1) =~= Seq::<char>::empty());
            assert(before + seq!['\\'] =~= result@ + unescape_js(v@.skip(i + 1)));
            i = i + 1;
        } else {
            let d = v[i + 1];
            assert(t[1] == d);
            assert(t.skip(2) =~= v@.skip(i + 2));
            if d == 'u' {
                let end = if v.len() - (i + 2) < 4 {
                    v.len()
                } else {
                    i + 6
                };
                assert(t.subrange(2, end - i) =~= v@.subrange(i + 2, end as int));
                assert(t.skip(end - i) =~= v@.skip(end as int));
                match parse_hex(&v, i + 2, end) {
                    Some(code) => match char_from_u32(code) {
                        Some(ch) => {
                            proof {
                                vstd::utf8::char_u32_cast(ch, code);
                            }
                            push_char(&mut result, ch);
                            assert(before + (seq![ch] + unescape_js(v@.skip(end as int))) =~= result@
                                + unescape_js(v@.skip(end as int)));
                        },
                        None => {
                            assert(before + (Seq::<char>::empty() + unescape_js(v@.skip(end as int)))
                                =~= result@ + unescape_js(v@.skip(end as int)));
                        },
                    },
                    None => {
                        assert(before + (Seq::<char>::empty() + unescape_js(v@.skip(end as int)))
                            =~= result@ + unescape_js(v@.skip(end as int)));
                    },
                }
                i = end;
            } else {
                if d == '\\' || d == '\'' || d == '"' || d == 'n' || d == 'r' || d == 't' || d == '/' {
                    let e: char = if d == '\\' {
                        '\\'
                    } else if d == '\'' {
                        '\''
                    } else if d == '"' {
                        '"'
                    } else if d == 'n' {
                        '\n'
                    } else if d == 'r' {
                        '\r'
                    } else if d == 't' {
                        '\t'
                    } else {
                        '/'
                    };
                    push_char(&mut result, e);
                    assert(unescape_js(t) == seq![e] + unescape_js(v@.skip(i + 2)));
                    assert(before + (seq![e] + unescape_js(v@.skip(i + 2))) =~= result@
                        + unescape_js(v@.skip(i + 2)));
                } else {
                    push_char(&mut result, '\\');
                    push_char(&mut result, d);
                    assert(unescape_js(t) == seq!['\\', d] + unescape_js(v@.skip(i + 2)));
                    assert(before + (seq!['\\', d] + unescape_js(v@.skip(i + 2))) =~= result@
                        + unescape_js(v@.skip(i + 2)));
                }
                i = i + 2;
            }
        }
    }
    proof {
        assert(v@.skip(v.len() as int) =~= Seq::<char>::empty());
        assert(result@ + Seq::<char>::empty() =~= result@);
    }
    result
}

/// Text without backslashes comes out of unescaping unchanged.
pub proof fn unescape_plain_text_is_identity(s: Seq<char>)
    requires
        forall|i: int| 0 <= i < s.len() ==> s[i] != '\\',
    ensures
        unescape_js(s) == s,
    decreases s.len(),
{
    if s.len() > 0 {
        let t = s.drop_first();
        assert forall|i: int| 0 <= i < t.len() implies t[i] != '\\' by {
            assert(t[i] == s[i + 1]);
        }
        unescape_plain_text_is_identity(t);
        assert(seq![s[0]] + t =~= s);
    }
}

/// Sanitizing keeps the length and leaves only safe characters.
pub proof fn sanitized_names_are_safe(name: Seq<char>)
    ensures
        sanitized(name).len() == name.len(),
        forall|i: int|
            0 <= i < name.len() ==> alphanumeric(#[trigger] sanitized(name)[i]) || sanitized(name)[i]
                == '-' || sanitized(name)[i] == '_',
{
}

// ---------------------------------------------------------------------------
// Design page fields
// ---------------------------------------------------------------------------

/// The design id captured at the first place at or after `i` where
/// `/design/` is followed by a character other than `/`: the text from there
/// up to the next `/` (the pattern `/design/([^/]+)`).
pub open spec fn design_id_from(s: Seq<char>, i: int) -> Option<Seq<char>>
    decreases s.len() - i,
{
    if i < 0 || i + 8 >= s.len() {
        None
    } else if matches_at(s, "/design/"@, i) && s[i + 8] != '/' {
        Some(first_piece(s.skip(i + 8), '/', '/'))
    } else {
        design_id_from(s, i + 1)
    }
}

/// Skipping the positions where `/design/` does not occur changes nothing.
proof fn lemma_design_skip(s: Seq<char>, i: int, k: int)
    requires
        0 <= i <= k,
        forall|j: int| i <= j < k ==> !matches_at(s, "/design/"@, j),
    ensures
        design_id_from(s, i) == design_id_from(s, k),
    decreases k - i,
{
    if i < k {
        lemma_design_skip(s, i + 1, k);
    }
}

proof fn lemma_design_none(s: Seq<char>, i: int)
    requires
        0 <= i,
        forall|j: int| i <= j ==> !matches_at(s, "/design/"@, j),
    ensures
        design_id_from(s, i) is None,
    decreases s.len() - i,
{
    if i + 8 < s.len() {
        lemma_design_none(s, i + 1);
    }
}

/// The design id in a Canva URL.
pub fn extract_id_from_url(url: &str) -> (r: Option<String>)
    ensures
        match r {
            Some(id) => design_id_from(url@, 0) == Some(id@),
            None => design_id_from(url@, 0) is None,
        },
{
    let v = chars_of(url);
    let p = chars_of("/design/");
    proof {
        reveal_strlit("/design/");
    }
    let mut i: usize = 0;
    while i <= v.len()
        invariant
            v@ == url@,
            p@ == "/design/"@,
            p@.len() == 8,
            design_id_from(url@, 0) == design_id_from(url@, i as int),
        decreases v.len() + 1 - i,
    {
        match find_chars(&v, &p, i) {
            None => {
                proof {
                    lemma_find_from(v@, p@, i as int);
                    lemma_design_none(v@, i as int);
                }
                return None;
            },
            Some(k) => {
                proof {
                    lemma_find_from(v@, p@, i as int);
                    lemma_design_skip(v@, i as int, k as int);
                }
                if k + 8 < v.len() && v[k + 8] != '/' {
                    let rest = string_from_range(&v, k + 8, v.len());
                    assert(rest@ =~= v@.skip(k + 8));
                    return Some(first_piece_of(rest.as_str(), '/', '/'));
                }
                if k + 8 >= v.len() {
                    return None;
                }
                i = k + 1;
            },
        }
    }
    None
}

/// The title captured at the first place at or after `i` where `<title>` is
/// followed by text without `<` and then `</title>` (the pattern
/// `<title>([^<]+)</title>`).
pub open spec fn title_from(s: Seq<char>, i: int) -> Option<Seq<char>>
    decreases s.len() - i,
{
    if i < 0 || i >= s.len() {
        None
    } else if matches_at(s, "<title>"@, i) && first_piece(s.skip(i + 7), '<', '<').len() > 0
        && matches_at(s, "</title>"@, i + 7 + first_piece(s.skip(i + 7), '<', '<').len()) {
        Some(first_piece(s.skip(i + 7), '<', '<'))
    } else {
        title_from(s, i + 1)
    }
}

proof fn lemma_title_skip(s: Seq<char>, i: int, k: int)
    requires
        0 <= i <= k,
        forall|j: int| i <= j < k ==> !matches_at(s, "<title>"@, j),
    ensures
        title_from(s, i) == title_from(s, k),
    decreases k - i,
{
    if i < k {
        lemma_title_skip(s, i + 1, k);
    }
}

proof fn lemma_title_none(s: Seq<char>, i: int)
    requires
        0 <= i,
        forall|j: int| i <= j ==> !matches_at(s, "<title>"@, j),
    ensures
        title_from(s, i) is None,
    decreases s.len() - i,
{
    if i < s.len() {
        lemma_title_none(s, i + 1);
    }
}

/// `s` without every trailing copy of `p` (`trim_end_matches(p)`).
pub open spec fn trim_end_all(s: Seq<char>, p: Seq<char>) -> Seq<char>
    decreases s.len(),
{
    if p.len() > 0 && p.len() <= s.len() && s.skip(s.len() - p.len()) == p {
        trim_end_all(s.take(s.len() - p.len()), p)
    } else {
        s
    }
}

fn trim_end_all_of(s: &str, p: &str) -> (r: String)
    requires
        p@.len() > 0,
    ensures
        r@ == trim_end_all(s@, p@),
{
    let v = chars_of(s);
    let w = chars_of(p);
    let mut end: usize = v.len();
    proof {
        assert(v@.take(end as int) =~= v@);
    }
    loop
        invariant
            end <= v@.len(),
            v@ == s@,
            w@ == p@,
            w@.len() > 0,
            trim_end_all(s@, p@) == trim_end_all(v@.take(end as int), p@),
        decreases end,
    {
        if w.len() > end {
            return string_from_range(&v, 0, end);
        }
        let mut k: usize = 0;
        let start = end - w.len();
        while k < w.len() && v[start + k] == w[k]
            invariant
                k <= w@.len(),
                start + w@.len() == end,
                end <= v@.len(),
                forall|j: int| 0 <= j < k ==> v@[start + j] == w@[j],
            decreases w@.len() - k,
        {
            k = k + 1;
        }
        let ghost t = v@.take(end as int);
        if k < w.len() {
            assert(t.skip(t.len() - w@.len())[k as int] != w@[k as int]);
            let r = string_from_range(&v, 0, end);
            assert(r@ =~= t);
            return r;
        }
        assert(t.skip(t.len() - w@.len()) =~= w@);
        assert(t.take(t.len() - w@.len()) =~= v@.take(start as int));
        end = start;
    }
}

/// The page title: trailing ` - Canva`, then trailing ` | Canva`, removed.
pub open spec fn page_title(html: Seq<char>) -> Option<Seq<char>> {
    match title_from(html, 0) {
        Some(t) => Some(trim_end_all(trim_end_all(t, " - Canva"@), " | Canva"@)),
        None => None,
    }
}

/// The title of a design page, without Canva's suffix.
pub fn extract_title_from_html(html: &str) -> (r: Option<String>)
    ensures
        match r {
            Some(t) => page_title(html@) == Some(t@),
            None => page_title(html@) is None,
        },
{
    let v = chars_of(html);
    let open = chars_of("<title>");
    let close = chars_of("</title>");
    proof {
        reveal_strlit("<title>");
        reveal_strlit("</title>");
        reveal_strlit(" - Canva");
        reveal_strlit(" | Canva");
    }
    let mut i: usize = 0;
    while i <= v.len()
        invariant
            v@ == html@,
            open@ == "<title>"@,
            close@ == "</title>"@,
            open@.len() == 7,
            close@.len() == 8,
            " - Canva"@.len() == 8,
            " | Canva"@.len() == 8,
            title_from(html@, 0) == title_from(html@, i as int),
        decreases v.len() + 1 - i,
    {
        match find_chars(&v, &open, i) {
            None => {
                proof {
                    lemma_find_from(v@, open@, i as int);
                    lemma_title_none(v@, i as int);
                }
                return None;
            },
            Some(k) => {
                proof {
                    lemma_find_from(v@, open@, i as int);
                    lemma_title_skip(v@, i as int, k as int);
                    assert(matches_at(v@, open@, k as int));
                }
                let start = k + 7;
                let mut e: usize = start;
                while e < v.len() && v[e] != '<'
                    invariant
                        start <= e <= v@.len(),
                        forall|j: int| start <= j < e ==> v@[j] != '<',
                    decreases v.len() - e,
                {
                    e = e + 1;
                }
                proof {
                    crate::split::lemma_first_piece(v@.skip(start as int), '<', '<', e - start);
                    assert(v@.skip(start as int).subrange(0, e - start) =~= v@.subrange(start as int, e as int));
                }
                let ghost body = v@.subrange(start as int, e as int);
                if e > start && v.len() - e >= 8 {
                    let mut m: usize = 0;
                    while m < 8 && v[e + m] == close[m]
                        invariant
                            m <= 8,
                            e + 8 <= v@.len(),
                            v@.len() == v.len(),
                            close@.len() == 8,
                            forall|j: int| 0 <= j < m ==> v@[e + j] == close@[j],
                        decreases 8 - m,
                    {
                        m = m + 1;
                    }
                    if m == 8 {
                        assert(v@.subrange(e as int, e + 8) =~= close@);
                        let t = string_from_range(&v, start, e);
                        let a = trim_end_all_of(t.as_str(), " - Canva");
                        let b = trim_end_all_of(a.as_str(), " | Canva");
                        return Some(b);
                    }
                    assert(v@.subrange(e as int, e + 8)[m as int] != close@[m as int]);
                }
                i = k + 1;
            },
        }
    }
    None
}

} // verus!

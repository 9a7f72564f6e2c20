//! What every presentation adapter reports, and the helpers they share:
//! notes zoom steps, the bulk notes format, and which adapters exist on which
//! platform.

use vstd::prelude::*;
use vstd::string::*;
use std::collections::HashMap;
use crate::num::{parse_i32, spec_parse_i32};
use crate::impress::{initial_impress, LibreOfficeAdapter, IMPRESS_REMOTE_PORT};
use crate::split::{
    split1, split_by_str, split_chars, split_once, split_once_str, split_str, splitn_by_str,
    splitn_str,
};
use crate::text::{lemma_trim_idempotent, has_prefix, push_str, starts_with, str_eq, to_owned_string, trim, trim_str, views};

verus! {

/// The current slide position (1-indexed).
#[derive(Debug, Clone, Copy, PartialEq, Eq, Structural)]
pub struct SlideInfo {
    pub current: i32,
    pub total: i32,
}

/// Whether a presentation is open and whether its slideshow runs.
#[derive(Debug, Clone, Copy, PartialEq, Eq, Structural)]
pub struct PresentationState {
    pub is_open: bool,
    pub is_presenting: bool,
}

/// Connection status of a network-based adapter.
#[derive(Debug, Clone)]
pub enum ConnectionStatus {
    Disconnected,
    Connecting,
    Connected,
    Error(String),
}

// ---------------------------------------------------------------------------
// Live status
// ---------------------------------------------------------------------------

/// Everything the live display shows at once.
#[derive(Debug, Clone)]
pub struct LiveStatus {
    pub is_open: bool,
    pub is_presenting: bool,
    pub current_slide: i32,
    pub total_slides: i32,
    pub zoom_level: Option<i32>,
    pub presenter_notes: Option<String>,
    /// Current build step on this slide (0 = no builds fired yet).
    pub current_build: Option<i32>,
    /// Click-triggered build steps on this slide.
    pub total_builds: Option<i32>,
}

/// The view of optional text.
pub open spec fn opt_view(o: Option<String>) -> Option<Seq<char>> {
    match o {
        Some(s) => Some(s@),
        None => None,
    }
}

/// The status that says nothing is open.
pub open spec fn is_empty_status(s: LiveStatus) -> bool {
    &&& !s.is_open
    &&& !s.is_presenting
    &&& s.current_slide == 0
    &&& s.total_slides == 0
    &&& s.zoom_level is None
    &&& s.presenter_notes is None
    &&& s.current_build is None
    &&& s.total_builds is None
}

impl Default for LiveStatus {
    fn default() -> (r: Self)
        ensures
            is_empty_status(r),
    {
        LiveStatus {
            is_open: false,
            is_presenting: false,
            current_slide: 0,
            total_slides: 0,
            zoom_level: None,
            presenter_notes: None,
            current_build: None,
            total_builds: None,
        }
    }
}

/// The live status an adapter reports from its separate answers: the
/// presentation state (closed when it failed), and, only while presenting,
/// the slide position (0 of 0 when it failed), zoom and notes.
pub fn live_status_from(
    state: Result<PresentationState, String>,
    slide: Result<SlideInfo, String>,
    zoom: Result<Option<i32>, String>,
    notes: Result<Option<String>, String>,
) -> (r: LiveStatus)
    ensures
        ({
            let st = match state {
                Ok(s) => s,
                Err(_) => PresentationState { is_open: false, is_presenting: false },
            };
            &&& r.is_open == st.is_open
            &&& r.is_presenting == st.is_presenting
            &&& r.current_build is None
            &&& r.total_builds is None
            &&& if !st.is_presenting {
                &&& r.current_slide == 0
                &&& r.total_slides == 0
                &&& r.zoom_level is None
                &&& r.presenter_notes is None
            } else {
                &&& (match slide {
                    Ok(info) => r.current_slide == info.current && r.total_slides == info.total,
                    Err(_) => r.current_slide == 0 && r.total_slides == 0,
                })
                &&& r.zoom_level == (match zoom {
                    Ok(z) => z,
                    Err(_) => None,
                })
                &&& opt_view(r.presenter_notes) == (match notes {
                    Ok(n) => opt_view(n),
                    Err(_) => None,
                })
            }
        }),
{
    let st = match state {
        Ok(s) => s,
        Err(_) => PresentationState { is_open: false, is_presenting: false },
    };
    if !st.is_presenting {
        return LiveStatus {
            is_open: st.is_open,
            is_presenting: false,
            current_slide: 0,
            total_slides: 0,
            zoom_level: None,
            presenter_notes: None,
            current_build: None,
            total_builds: None,
        };
    }
    let info = match slide {
        Ok(i) => i,
        Err(_) => SlideInfo { current: 0, total: 0 },
    };
    let zoom_level = match zoom {
        Ok(z) => z,
        Err(_) => None,
    };
    let presenter_notes = match notes {
        Ok(n) => n,
        Err(_) => None,
    };
    LiveStatus {
        is_open: st.is_open,
        is_presenting: st.is_presenting,
        current_slide: info.current,
        total_slides: info.total,
        zoom_level,
        presenter_notes,
        current_build: None,
        total_builds: None,
    }
}

// ---------------------------------------------------------------------------
// Notes zoom
// ---------------------------------------------------------------------------

/// PowerPoint's fixed zoom levels for presenter view notes, ascending.
pub open spec fn zoom_levels() -> Seq<i32> {
    seq![100i32, 150, 200, 300, 400]
}

/// The smallest level above `current`, or the largest level.
pub open spec fn next_zoom(current: int) -> int {
    if current < 100 {
        100
    } else if current < 150 {
        150
    } else if current < 200 {
        200
    } else if current < 300 {
        300
    } else {
        400
    }
}

/// The largest level below `current`, or the smallest level.
pub open spec fn prev_zoom(current: int) -> int {
    if current > 400 {
        400
    } else if current > 300 {
        300
    } else if current > 200 {
        200
    } else if current > 150 {
        150
    } else {
        100
    }
}

/// PowerPoint's fixed zoom levels for presenter view notes.
pub fn zoom_level_table() -> (r: Vec<i32>)
    ensures
        r@ == zoom_levels(),
{
    let r = vec![100i32, 150, 200, 300, 400];
    assert(r@ =~= zoom_levels());
    r
}

/// The next zoom level up from `current`.
pub fn get_next_zoom_level(current: i32) -> (r: i32)
    ensures
        r == next_zoom(current as int),
        zoom_levels().contains(r),
{
    let levels = zoom_level_table();
    let mut i: usize = 0;
    while i < levels.len()
        invariant
            levels@ == zoom_levels(),
            i <= 5,
            forall|j: int| 0 <= j < i ==> levels@[j] <= current,
        decreases 5 - i,
    {
        if levels[i] > current {
            assert(zoom_levels().contains(levels[i as int]));
            return levels[i];
        }
        i = i + 1;
    }
    assert(zoom_levels()[4] == 400);
    levels[levels.len() - 1]
}

/// The next zoom level down from `current`.
pub fn get_prev_zoom_level(current: i32) -> (r: i32)
    ensures
        r == prev_zoom(current as int),
        zoom_levels().contains(r),
{
    let levels = zoom_level_table();
    let mut i: usize = levels.len();
    while i > 0
        invariant
            levels@ == zoom_levels(),
            i <= 5,
            forall|j: int| i <= j < 5 ==> levels@[j] >= current,
        decreases i,
    {
        if levels[i - 1] < current {
            assert(zoom_levels().contains(levels[i - 1]));
            return levels[i - 1];
        }
        i = i - 1;
    }
    assert(zoom_levels()[0] == 100);
    levels[0]
}

/// Stepping the zoom up and then down from a level other than the largest
/// comes back to it, and down then up from one other than the smallest too;
/// stepping up never lowers the zoom, stepping down never raises it.
pub proof fn zoom_steps_invert(level: i32)
    ensures
        zoom_levels().contains(level) && level != 400 ==> prev_zoom(next_zoom(level as int))
            == level,
        zoom_levels().contains(level) && level != 100 ==> next_zoom(prev_zoom(level as int))
            == level,
        next_zoom(level as int) >= level || next_zoom(level as int) == 400,
        prev_zoom(level as int) <= level || prev_zoom(level as int) == 100,
{
    let z = zoom_levels();
    assert(z[0] == 100 && z[1] == 150 && z[2] == 200 && z[3] == 300 && z[4] == 400);
    if z.contains(level) {
        let k = choose|k: int| 0 <= k < z.len() && z[k] == level;
        assert(k == 0 || k == 1 || k == 2 || k == 3 || k == 4);
    }
}

/// The PowerPoint (macOS) adapter.
#[derive(Debug, Clone, Copy)]
pub struct PowerPointAdapter;

/// The PowerPoint (Windows) adapter.
#[derive(Debug, Clone, Copy)]
pub struct PowerPointWindowsAdapter;

/// The Keynote adapter.
#[derive(Debug, Clone, Copy)]
pub struct KeynoteAdapter;

impl PowerPointAdapter {
    pub fn get_next_zoom_level(current: i32) -> (r: i32)
        ensures
            r == next_zoom(current as int),
    {
        get_next_zoom_level(current)
    }

    pub fn get_prev_zoom_level(current: i32) -> (r: i32)
        ensures
            r == prev_zoom(current as int),
    {
        get_prev_zoom_level(current)
    }
}

impl PowerPointWindowsAdapter {
    pub fn get_next_zoom_level(current: i32) -> (r: i32)
        ensures
            r == next_zoom(current as int),
    {
        get_next_zoom_level(current)
    }

    pub fn get_prev_zoom_level(current: i32) -> (r: i32)
        ensures
            r == prev_zoom(current as int),
    {
        get_prev_zoom_level(current)
    }
}

// ---------------------------------------------------------------------------
// Bulk notes: "N|||text" per line
// ---------------------------------------------------------------------------

/// The `(slide, notes)` a line of a bulk notes response carries, if any: the
/// trimmed line split at the first `|||`, a slide number that parses as an
/// `i32` after trimming, and notes that are neither empty nor
/// `missing value` after trimming.
pub open spec fn notes_entry(line: Seq<char>) -> Option<(i32, Seq<char>)> {
    let l = trim(line);
    match split_once(l, "|||"@) {
        None => None,
        Some((num, text)) => match spec_parse_i32(trim(num)) {
            None => None,
            Some(n) => {
                let t = trim(text);
                if t.len() > 0 && t != "missing value"@ {
                    Some((n as i32, t))
                } else {
                    None
                }
            },
        },
    }
}

/// The notes of all lines, a later line for a slide replacing an earlier one.
pub open spec fn notes_map(lines: Seq<Seq<char>>) -> Map<i32, Seq<char>>
    decreases lines.len(),
{
    if lines.len() == 0 {
        Map::empty()
    } else {
        let m = notes_map(lines.drop_last());
        match notes_entry(lines.last()) {
            Some((n, t)) => m.insert(n, t),
            None => m,
        }
    }
}

/// The slide a line of a bulk notes response carries notes for, if any.
pub open spec fn entry_key(line: Seq<char>) -> Option<i32> {
    match notes_entry(line) {
        Some((n, _)) => Some(n),
        None => None,
    }
}

/// A slide has notes exactly when some line carries notes for it, and they
/// are those of the last such line: trimmed, not empty and not
/// `missing value`.
pub proof fn notes_come_from_their_last_line(result: Seq<char>, k: i32)
    ensures
        ({
            let lines = split1(result, '\n');
            let m = notes_map(lines);
            &&& m.contains_key(k) <==> (exists|i: int| 0 <= i < lines.len() && #[trigger] entry_key(lines[i]) == Some(k))
            &&& m.contains_key(k) ==> (exists|i: int|
                0 <= i < lines.len() && #[trigger] notes_entry(lines[i]) == Some((k, m[k])) && (forall|j: int|
                    i < j < lines.len() ==> #[trigger] entry_key(lines[j]) != Some(k)))
            &&& m.contains_key(k) ==> m[k].len() > 0 && m[k] != "missing value"@ && trim(m[k]) == m[k]
        }),
{
    lemma_notes_map_key(split1(result, '\n'), k);
}

proof fn lemma_notes_map_key(lines: Seq<Seq<char>>, k: i32)
    ensures
        notes_map(lines).contains_key(k) <==> (exists|i: int|
            0 <= i < lines.len() && #[trigger] entry_key(lines[i]) == Some(k)),
        notes_map(lines).contains_key(k) ==> (exists|i: int|
            0 <= i < lines.len() && #[trigger] notes_entry(lines[i]) == Some((k, notes_map(lines)[k])) && (
            forall|j: int| i < j < lines.len() ==> #[trigger] entry_key(lines[j]) != Some(k))),
        notes_map(lines).contains_key(k) ==> notes_map(lines)[k].len() > 0 && notes_map(lines)[k]
            != "missing value"@ && trim(notes_map(lines)[k]) == notes_map(lines)[k],
    decreases lines.len(),
{
    if lines.len() > 0 {
        let init = lines.drop_last();
        let last = lines.last();
        let li = lines.len() - 1;
        assert(lines[li] == last);
        lemma_notes_map_key(init, k);
        let m = notes_map(init);
        assert forall|i: int| 0 <= i < init.len() implies init[i] == lines[i] by {}
        match notes_entry(last) {
            Some((n, t)) => {
                let l = trim(last);
                let text = match split_once(l, "|||"@) {
                    Some((_, x)) => x,
                    None => l,
                };
                assert(t == trim(text));
                lemma_trim_idempotent(text);
                if n == k {
                    assert(entry_key(lines[li]) == Some(k));
                    assert(notes_entry(lines[li]) == Some((k, notes_map(lines)[k])));
                } else {
                    if m.contains_key(k) {
                        let i = choose|i: int|
                            0 <= i < init.len() && #[trigger] notes_entry(init[i]) == Some((k, m[k])) && (
                            forall|j: int| i < j < init.len() ==> #[trigger] entry_key(init[j]) != Some(k));
                        assert(notes_entry(lines[i]) == Some((k, notes_map(lines)[k])));
                        assert forall|j: int| i < j < lines.len() implies #[trigger] entry_key(lines[j]) != Some(k) by {
                            if j < init.len() {
                                assert(entry_key(init[j]) != Some(k));
                            }
                        }
                        let i2 = choose|i: int| 0 <= i < init.len() && #[trigger] entry_key(init[i]) == Some(k);
                        assert(entry_key(lines[i2]) == Some(k));
                    } else {
                        assert forall|i: int| 0 <= i < lines.len() implies #[trigger] entry_key(lines[i]) != Some(k) by {
                            if i < init.len() {
                                assert(entry_key(init[i]) != Some(k));
                            }
                        }
                    }
                }
            },
            None => {
                if m.contains_key(k) {
                    let i = choose|i: int|
                        0 <= i < init.len() && #[trigger] notes_entry(init[i]) == Some((k, m[k])) && (forall|
                        j: int,
                    |
                        i < j < init.len() ==> #[trigger] entry_key(init[j]) != Some(k));
                    assert(notes_entry(lines[i]) == Some((k, notes_map(lines)[k])));
                    assert forall|j: int| i < j < lines.len() implies #[trigger] entry_key(lines[j]) != Some(k) by {
                        if j < init.len() {
                            assert(entry_key(init[j]) != Some(k));
                        }
                    }
                    let i2 = choose|i: int| 0 <= i < init.len() && #[trigger] entry_key(init[i]) == Some(k);
                    assert(entry_key(lines[i2]) == Some(k));
                } else {
                    assert forall|i: int| 0 <= i < lines.len() implies #[trigger] entry_key(lines[i]) != Some(k) by {
                        if i < init.len() {
                            assert(entry_key(init[i]) != Some(k));
                        }
                    }
                }
            },
        }
    }
}

/// The map's values taken by their views.
pub open spec fn map_views(m: Map<i32, String>) -> Map<i32, Seq<char>> {
    m.map_values(|s: String| s@)
}

fn notes_entry_of(line: &str) -> (r: Option<(i32, String)>)
    ensures
        match r {
            Some((n, t)) => notes_entry(line@) == Some((n, t@)),
            None => notes_entry(line@) is None,
        },
{
    let l = trim_str(line);
    match split_once_str(l, "|||") {
        None => None,
        Some((num, text)) => match parse_i32(trim_str(num.as_str())) {
            None => None,
            Some(n) => {
                let t = trim_str(text.as_str());
                if t.unicode_len() > 0 && !str_eq(t, "missing value") {
                    Some((n, to_owned_string(t)))
                } else {
                    None
                }
            },
        },
    }
}

/// Parses the `N|||text` lines that the AppleScript and COM adapters return
/// for all notes at once. Lines without notes are skipped.
pub fn parse_notes_response(result: &str) -> (r: HashMap<i32, String>)
    ensures
        map_views(r@) == notes_map(split1(result@, '\n')),
{
    broadcast use vstd::std_specs::hash::group_hash_axioms;

    let lines = split_chars(result, '\n', '\n');
    let ghost ls = lines@.map_values(|x: String| x@);
    let mut notes: HashMap<i32, String> = HashMap::new();
    let mut i: usize = 0;
    proof {
        assert(map_views(notes@) =~= Map::<i32, Seq<char>>::empty());
        assert(ls.take(0) =~= Seq::<Seq<char>>::empty());
    }
    while i < lines.len()
        invariant
            i <= lines.len(),
            ls == lines@.map_values(|x: String| x@),
            ls == split1(result@, '\n'),
            map_views(notes@) == notes_map(ls.take(i as int)),
        decreases lines.len() - i,
    {
        proof {
            assert(ls.take(i + 1).drop_last() =~= ls.take(i as int));
            assert(ls.take(i + 1).last() == lines@[i as int]@);
        }
        match notes_entry_of(lines[i].as_str()) {
            Some((n, t)) => {
                let ghost before = notes@;
                notes.insert(n, t);
                assert(map_views(notes@) =~= map_views(before).insert(n, t@));
            },
            None => {},
        }
        i = i + 1;
    }
    proof {
        assert(ls.take(lines.len() as int) =~= ls);
    }
    notes
}

// ---------------------------------------------------------------------------
// Which adapters exist where
// ---------------------------------------------------------------------------

/// The operating system the app runs on.
#[derive(Debug, Clone, Copy, PartialEq, Eq, Structural)]
pub enum Platform {
    MacOs,
    Windows,
    Linux,
}

/// The `(id, label)` pairs of the adapters offered on `p`.
pub open spec fn available_adapters(p: Platform) -> Seq<(Seq<char>, Seq<char>)> {
    let portable = seq![("libreoffice"@, "LibreOffice Impress"@), ("canva"@, "Canva"@)];
    match p {
        Platform::MacOs => seq![("powerpoint"@, "Microsoft PowerPoint"@), ("keynote"@, "Keynote"@)]
            + portable,
        Platform::Windows => seq![("powerpoint"@, "Microsoft PowerPoint"@)] + portable,
        Platform::Linux => portable,
    }
}

/// The views of a list of `(id, label)` pairs.
pub open spec fn pair_views(v: Seq<(&str, &str)>) -> Seq<(Seq<char>, Seq<char>)> {
    v.map_values(|x: (&str, &str)| (x.0@, x.1@))
}

/// The adapters offered on `platform`, as `(id, label)` pairs. LibreOffice
/// (network) and Canva (webview) exist everywhere.
pub fn get_available_adapters(platform: Platform) -> (r: Vec<(&'static str, &'static str)>)
    ensures
        pair_views(r@) == available_adapters(platform),
{
    let mut adapters: Vec<(&'static str, &'static str)> = Vec::new();
    match platform {
        Platform::MacOs => {
            adapters.push(("powerpoint", "Microsoft PowerPoint"));
            adapters.push(("keynote", "Keynote"));
        },
        Platform::Windows => {
            adapters.push(("powerpoint", "Microsoft PowerPoint"));
        },
        Platform::Linux => {},
    }
    adapters.push(("libreoffice", "LibreOffice Impress"));
    adapters.push(("canva", "Canva"));
    assert(pair_views(adapters@) =~= available_adapters(platform));
    adapters
}

/// Per-adapter settings.
#[derive(Debug, Clone)]
pub enum AdapterConfig {
    /// No adapter-specific settings.
    Unset,
    LibreOffice { host: String, port: u16 },
}

/// An adapter as `get_adapter` hands it out.
#[derive(Debug)]
pub enum AdapterHandle {
    PowerPoint(PowerPointAdapter),
    PowerPointWindows(PowerPointWindowsAdapter),
    Keynote(KeynoteAdapter),
    LibreOffice(LibreOfficeAdapter),
}

/// The adapters `get_adapter` makes on `platform`.
pub open spec fn known_adapter(name: Seq<char>, platform: Platform) -> bool {
    (name == "powerpoint"@ && platform != Platform::Linux) || (name == "keynote"@ && platform
        == Platform::MacOs) || name == "libreoffice"@
}

/// `h` is the adapter named `name` on `platform` with settings `config`.
pub open spec fn adapter_for(name: Seq<char>, config: AdapterConfig, platform: Platform, h: AdapterHandle) -> bool {
    if name == "powerpoint"@ {
        match platform {
            Platform::MacOs => h is PowerPoint,
            _ => h is PowerPointWindows,
        }
    } else if name == "keynote"@ {
        h is Keynote
    } else {
        h matches AdapterHandle::LibreOffice(a) && !a.connected && a.state@ == initial_impress()
            && match config {
            AdapterConfig::LibreOffice { host, port } => a.host@ == host@ && a.port == port,
            AdapterConfig::Unset => a.host@ == "127.0.0.1"@ && a.port == IMPRESS_REMOTE_PORT,
        }
    }
}

/// The adapter named `name` on `platform`: PowerPoint on macOS and Windows,
/// Keynote on macOS, LibreOffice everywhere (at the configured address, or
/// the local default). Canva is a singleton made elsewhere, so it is `None`
/// here, as is any unknown name.
pub fn get_adapter(adapter_name: &str, config: &AdapterConfig, platform: Platform) -> (r: Option<
    AdapterHandle,
>)
    ensures
        match r {
            Some(h) => known_adapter(adapter_name@, platform) && adapter_for(
                adapter_name@,
                *config,
                platform,
                h,
            ),
            None => !known_adapter(adapter_name@, platform),
        },
{
    proof {
        reveal_strlit("powerpoint");
        reveal_strlit("keynote");
        reveal_strlit("libreoffice");
        assert("powerpoint"@.len() == 10 && "keynote"@.len() == 7 && "libreoffice"@.len() == 11);
    }
    if str_eq(adapter_name, "powerpoint") {
        match platform {
            Platform::MacOs => Some(AdapterHandle::PowerPoint(PowerPointAdapter)),
            Platform::Windows => Some(AdapterHandle::PowerPointWindows(PowerPointWindowsAdapter)),
            Platform::Linux => None,
        }
    } else if str_eq(adapter_name, "keynote") {
        match platform {
            Platform::MacOs => Some(AdapterHandle::Keynote(KeynoteAdapter)),
            _ => None,
        }
    } else if str_eq(adapter_name, "libreoffice") {
        let (host, port) = match config {
            AdapterConfig::LibreOffice { host, port } => (to_owned_string(host.as_str()), *port),
            AdapterConfig::Unset => (to_owned_string("127.0.0.1"), IMPRESS_REMOTE_PORT),
        };
        Some(AdapterHandle::LibreOffice(LibreOfficeAdapter::new(host, port)))
    } else {
        None
    }
}

/// Which adapter a presentation command goes to.
#[derive(Debug)]
pub enum AdapterChoice {
    /// The Canva singleton.
    Canva,
    Native(AdapterHandle),
}

/// Resolves the adapter a command names: `canva` is the singleton, which
/// must have been made (`canva_ready`); any other name goes through
/// `get_adapter`.
pub fn resolve_adapter(adapter_name: &str, config: &AdapterConfig, platform: Platform, canva_ready: bool) -> (r:
    Result<AdapterChoice, String>)
    ensures
        adapter_name@ == "canva"@ ==> if canva_ready {
            r matches Ok(AdapterChoice::Canva)
        } else {
            r matches Err(e) && e@ == "Canva adapter not initialized"@
        },
        adapter_name@ != "canva"@ ==> match r {
            Ok(AdapterChoice::Native(h)) => known_adapter(adapter_name@, platform) && adapter_for(
                adapter_name@,
                *config,
                platform,
                h,
            ),
            Ok(AdapterChoice::Canva) => false,
            Err(e) => !known_adapter(adapter_name@, platform) && e@ == "Unknown adapter: "@
                + adapter_name@,
        },
{
    if str_eq(adapter_name, "canva") {
        if canva_ready {
            Ok(AdapterChoice::Canva)
        } else {
            Err(to_owned_string("Canva adapter not initialized"))
        }
    } else {
        match get_adapter(adapter_name, config, platform) {
            Some(h) => Ok(AdapterChoice::Native(h)),
            None => {
                let mut m = to_owned_string("Unknown adapter: ");
                push_str(&mut m, adapter_name);
                Err(m)
            },
        }
    }
}

// ---------------------------------------------------------------------------
// AppleScript replies
// ---------------------------------------------------------------------------

/// The message for a reply of the wrong shape.
pub open spec fn unexpected_format() -> Seq<char> {
    "Unexpected response format"@
}

/// `text.trim() == "true"`.
pub open spec fn is_true_text(text: Seq<char>) -> bool {
    trim(text) == "true"@
}

/// The presentation names in a `name, name, ...` reply.
pub open spec fn name_list_reply(result: Seq<char>) -> Seq<Seq<char>> {
    if result.len() == 0 {
        Seq::empty()
    } else {
        split_str(result, ", "@).map_values(|p: Seq<char>| trim(p))
    }
}

/// Splits an AppleScript list of names (`a, b, c`); an empty reply has none.
pub fn parse_name_list_reply(result: &str) -> (r: Vec<String>)
    ensures
        views(r@) == name_list_reply(result@),
{
    let mut out: Vec<String> = Vec::new();
    if result.unicode_len() == 0 {
        assert(views(out@) =~= name_list_reply(result@));
        return out;
    }
    proof {
        reveal_strlit(", ");
    }
    let pieces = split_by_str(result, ", ");
    let ghost ps = pieces@.map_values(|x: String| x@);
    let mut i: usize = 0;
    while i < pieces.len()
        invariant
            i <= pieces.len(),
            ps == pieces@.map_values(|x: String| x@),
            views(out@) == ps.take(i as int).map_values(|p: Seq<char>| trim(p)),
        decreases pieces.len() - i,
    {
        let ghost before = views(out@);
        out.push(to_owned_string(trim_str(pieces[i].as_str())));
        assert(views(out@) =~= before.push(trim(ps[i as int])));
        assert(ps.take(i + 1).map_values(|p: Seq<char>| trim(p)) =~= ps.take(i as int).map_values(
            |p: Seq<char>| trim(p),
        ).push(trim(ps[i as int])));
        i = i + 1;
    }
    assert(ps.take(pieces.len() as int) =~= ps);
    out
}

/// The state in an `open,presenting` reply.
pub open spec fn state_reply(result: Seq<char>) -> Result<PresentationState, Seq<char>> {
    let parts = split1(result, ',');
    if parts.len() != 2 {
        Err(unexpected_format())
    } else {
        Ok(PresentationState { is_open: is_true_text(parts[0]), is_presenting: is_true_text(parts[1]) })
    }
}

/// Reads an `open,presenting` reply (`true`/`false` each).
pub fn parse_state_reply(result: &str) -> (r: Result<PresentationState, String>)
    ensures
        match r {
            Ok(s) => state_reply(result@) == Ok::<PresentationState, Seq<char>>(s),
            Err(e) => state_reply(result@) == Err::<PresentationState, Seq<char>>(e@),
        },
{
    let parts = split_chars(result, ',', ',');
    if parts.len() != 2 {
        return Err(to_owned_string("Unexpected response format"));
    }
    Ok(PresentationState {
        is_open: str_eq(trim_str(parts[0].as_str()), "true"),
        is_presenting: str_eq(trim_str(parts[1].as_str()), "true"),
    })
}

/// The slide position in a comma-separated reply of `count` fields whose
/// fields `first` and `first + 1` are the current slide and the total.
pub open spec fn position_reply(result: Seq<char>, count: nat, first: int) -> Result<
    SlideInfo,
    Seq<char>,
> {
    let parts = split1(result, ',');
    if parts.len() != count {
        Err(unexpected_format())
    } else {
        match spec_parse_i32(trim(parts[first])) {
            None => Err("Failed to parse current slide"@),
            Some(c) => match spec_parse_i32(trim(parts[first + 1])) {
                None => Err("Failed to parse total slides"@),
                Some(t) => Ok(SlideInfo { current: c as i32, total: t as i32 }),
            },
        }
    }
}

/// Reads a slide position reply such as `3,10` or `OK,4,10`.
pub fn parse_position_reply(result: &str, count: usize, first: usize) -> (r: Result<
    SlideInfo,
    String,
>)
    requires
        first + 1 < count,
    ensures
        match r {
            Ok(s) => position_reply(result@, count as nat, first as int) == Ok::<
                SlideInfo,
                Seq<char>,
            >(s),
            Err(e) => position_reply(result@, count as nat, first as int) == Err::<
                SlideInfo,
                Seq<char>,
            >(e@),
        },
{
    let parts = split_chars(result, ',', ',');
    if parts.len() != count {
        return Err(to_owned_string("Unexpected response format"));
    }
    let current = match parse_i32(trim_str(parts[first].as_str())) {
        Some(c) => c,
        None => return Err(to_owned_string("Failed to parse current slide")),
    };
    let total = match parse_i32(trim_str(parts[first + 1].as_str())) {
        Some(t) => t,
        None => return Err(to_owned_string("Failed to parse total slides")),
    };
    Ok(SlideInfo { current, total })
}

/// `text` is blank or AppleScript's `missing value`, after trimming.
pub open spec fn is_missing_text(text: Seq<char>) -> bool {
    trim(text).len() == 0 || trim(text) == "missing value"@
}

fn is_missing(text: &str) -> (r: bool)
    ensures
        r == is_missing_text(text@),
{
    let t = trim_str(text);
    t.unicode_len() == 0 || str_eq(t, "missing value")
}

/// The notes in a reply: none when blank or `missing value`, else the reply
/// as it came.
pub fn notes_reply(result: String) -> (r: Option<String>)
    ensures
        match r {
            Some(n) => !is_missing_text(result@) && n@ == result@,
            None => is_missing_text(result@),
        },
{
    if is_missing(result.as_str()) {
        None
    } else {
        Some(result)
    }
}

/// The zoom in a reply: none after an `ERROR:` or for text that is no
/// integer.
pub open spec fn zoom_reply(result: Seq<char>) -> Option<int> {
    if has_prefix(result, "ERROR:"@) {
        None
    } else {
        spec_parse_i32(trim(result))
    }
}

/// Reads the notes zoom from a reply.
pub fn parse_zoom_reply(result: &str) -> (r: Option<i32>)
    ensures
        match r {
            Some(z) => zoom_reply(result@) == Some(z as int),
            None => zoom_reply(result@) is None,
        },
{
    if starts_with(result, "ERROR:") {
        None
    } else {
        parse_i32(trim_str(result))
    }
}

/// The outcome of setting the zoom: the message after `ERROR:`, or success.
pub fn zoom_set_reply(result: &str) -> (r: Result<(), String>)
    ensures
        match r {
            Ok(_) => !has_prefix(result@, "ERROR:"@),
            Err(e) => has_prefix(result@, "ERROR:"@) && e@ == result@.skip(6),
        },
{
    if starts_with(result, "ERROR:") {
        proof {
            reveal_strlit("ERROR:");
        }
        let n = result.unicode_len();
        Err(to_owned_string(result.substring_char(6, n)))
    } else {
        Ok(())
    }
}

/// The live status in a `|||`-separated reply: open, presenting, current,
/// total, then (when `with_zoom`) the zoom, then the notes. A reply with
/// too few fields reports nothing open.
pub open spec fn live_reply(r: LiveStatus, result: Seq<char>, with_zoom: bool) -> bool {
    let max: nat = if with_zoom {
        6
    } else {
        5
    };
    let notes_at: int = if with_zoom {
        5
    } else {
        4
    };
    let parts = splitn_str(result, "|||"@, max);
    if parts.len() < notes_at {
        is_empty_status(r)
    } else {
        &&& r.is_open == is_true_text(parts[0])
        &&& r.is_presenting == is_true_text(parts[1])
        &&& r.current_slide == parse_i32_or(parts[2], 0)
        &&& r.total_slides == parse_i32_or(parts[3], 0)
        &&& r.zoom_level == (if with_zoom {
            match spec_parse_i32(trim(parts[4])) {
                Some(z) => Some(z as i32),
                None => None,
            }
        } else {
            None
        })
        &&& opt_view(r.presenter_notes) == (if parts.len() > notes_at && !is_missing_text(
            parts[notes_at],
        ) {
            Some(parts[notes_at])
        } else {
            None
        })
        &&& r.current_build is None
        &&& r.total_builds is None
    }
}

/// `trim(text).parse::<i32>().unwrap_or(fallback)`.
pub open spec fn parse_i32_or(text: Seq<char>, fallback: int) -> int {
    match spec_parse_i32(trim(text)) {
        Some(v) => v,
        None => fallback,
    }
}

fn parse_trimmed_or_zero(text: &str) -> (r: i32)
    ensures
        r as int == parse_i32_or(text@, 0),
{
    match parse_i32(trim_str(text)) {
        Some(v) => v,
        None => 0,
    }
}

/// Reads the batched live status reply of the PowerPoint (`with_zoom`) or
/// Keynote script.
pub fn parse_live_reply(result: &str, with_zoom: bool) -> (r: LiveStatus)
    ensures
        live_reply(r, result@, with_zoom),
{
    let max: usize = if with_zoom {
        6
    } else {
        5
    };
    let notes_at: usize = if with_zoom {
        5
    } else {
        4
    };
    proof {
        reveal_strlit("|||");
    }
    let parts = splitn_by_str(result, max, "|||");
    let ghost ps = parts@.map_values(|x: String| x@);
    if parts.len() < notes_at {
        return LiveStatus::default();
    }
    let zoom_level = if with_zoom {
        parse_i32(trim_str(parts[4].as_str()))
    } else {
        None
    };
    let presenter_notes = if parts.len() > notes_at && !is_missing(parts[notes_at].as_str()) {
        Some(to_owned_string(parts[notes_at].as_str()))
    } else {
        None
    };
    assert(ps[0] == parts@[0]@ && ps[1] == parts@[1]@ && ps[2] == parts@[2]@ && ps[3]
        == parts@[3]@);
    LiveStatus {
        is_open: str_eq(trim_str(parts[0].as_str()), "true"),
        is_presenting: str_eq(trim_str(parts[1].as_str()), "true"),
        current_slide: parse_trimmed_or_zero(parts[2].as_str()),
        total_slides: parse_trimmed_or_zero(parts[3].as_str()),
        zoom_level,
        presenter_notes,
        current_build: None,
        total_builds: None,
    }
}

} // verus!

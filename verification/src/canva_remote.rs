//! The Canva remote-control adapter's session: which presentation page the
//! webview shows, how pages are reached, and the notes it reports. The
//! webview itself belongs to the caller, which says whether it exists.

use vstd::prelude::*;
use std::collections::HashMap;
use vstd::string::*;
use crate::adapters::{map_views, ConnectionStatus, PresentationState, SlideInfo};
use crate::text::{push_str, signed_decimal, i64_to_decimal, str_eq, to_owned_string, views};

verus! {

broadcast use vstd::std_specs::hash::group_hash_axioms;

/// The Canva session as the adapter tracks it.
#[derive(Debug)]
pub struct CanvaRemote {
    pub session_id: Option<String>,
    pub webview_open: bool,
    /// 0-indexed.
    pub current_page: i32,
    /// 0 while unknown.
    pub total_pages: i32,
}

pub open spec fn missing_id2_message() -> Seq<char> {
    "URL must contain an id2 query parameter"@
}

pub open spec fn no_session_message() -> Seq<char> {
    "No Canva session open"@
}

/// The value of the first `id2` query pair.
pub open spec fn id2_value(pairs: Seq<(String, String)>) -> Option<Seq<char>>
    decreases pairs.len(),
{
    if pairs.len() == 0 {
        None
    } else if pairs[0].0@ == "id2"@ {
        Some(pairs[0].1@)
    } else {
        id2_value(pairs.drop_first())
    }
}

/// The session id of a remote-control URL, from its query pairs: the value
/// of the first `id2` pair.
pub fn session_from_query(pairs: &Vec<(String, String)>) -> (r: Result<String, String>)
    ensures
        match r {
            Ok(s) => id2_value(pairs@) == Some(s@),
            Err(e) => id2_value(pairs@) is None && e@ == missing_id2_message(),
        },
{
    let mut i: usize = 0;
    proof {
        assert(pairs@.skip(0) =~= pairs@);
    }
    while i < pairs.len()
        invariant
            i <= pairs@.len(),
            id2_value(pairs@) == id2_value(pairs@.skip(i as int)),
        decreases pairs.len() - i,
    {
        proof {
            assert(pairs@.skip(i as int).drop_first() =~= pairs@.skip(i + 1));
            assert(pairs@.skip(i as int)[0] == pairs@[i as int]);
        }
        if str_eq(pairs[i].0.as_str(), "id2") {
            return Ok(pairs[i].1.clone());
        }
        i = i + 1;
    }
    Err(to_owned_string("URL must contain an id2 query parameter"))
}

/// The script that makes the webview navigate to `page`.
pub open spec fn navigate_script_text(session: Seq<char>, page: i32) -> Seq<char> {
    "window.__canvaNavigate('"@ + session + "', "@ + signed_decimal(page as int) + ");"@
}

impl CanvaRemote {
    /// No session, no webview.
    pub fn new() -> (r: Self)
        ensures
            r.session_id is None && !r.webview_open && r.current_page == 0 && r.total_pages == 0,
    {
        CanvaRemote { session_id: None, webview_open: false, current_page: 0, total_pages: 0 }
    }

    /// A session was opened: it starts on the first page.
    pub fn open(&mut self, session_id: String)
        ensures
            final(self).session_id == Some(session_id),
            final(self).webview_open,
            final(self).current_page == 0,
            final(self).total_pages == old(self).total_pages,
    {
        self.session_id = Some(session_id);
        self.current_page = 0;
        self.webview_open = true;
    }

    /// The session was closed: everything is forgotten.
    pub fn close(&mut self)
        ensures
            final(self).session_id is None && !final(self).webview_open
                && final(self).current_page == 0 && final(self).total_pages == 0,
    {
        self.session_id = None;
        self.webview_open = false;
        self.current_page = 0;
        self.total_pages = 0;
    }

    /// The webview reported where it is.
    pub fn update_state(&mut self, current_page: i32, total_pages: i32)
        ensures
            final(self).current_page == current_page,
            final(self).total_pages == total_pages,
            final(self).session_id == old(self).session_id,
            final(self).webview_open == old(self).webview_open,
    {
        self.current_page = current_page;
        self.total_pages = total_pages;
    }

    /// The script that navigates to `page`, or the error without a session.
    pub fn navigate_script(&self, page: i32) -> (r: Result<String, String>)
        ensures
            match r {
                Ok(js) => self.session_id matches Some(s) && js@ == navigate_script_text(s@, page),
                Err(e) => self.session_id is None && e@ == no_session_message(),
            },
    {
        match &self.session_id {
            None => Err(to_owned_string("No Canva session open")),
            Some(s) => {
                let mut js = to_owned_string("window.__canvaNavigate('");
                push_str(&mut js, s.as_str());
                push_str(&mut js, "', ");
                let p = i64_to_decimal(page as i64);
                push_str(&mut js, p.as_str());
                push_str(&mut js, ");");
                Ok(js)
            },
        }
    }

    /// Records that the webview was sent to `page`.
    pub fn set_page(&mut self, page: i32)
        ensures
            final(self).current_page == page,
            final(self).total_pages == old(self).total_pages,
            final(self).session_id == old(self).session_id,
            final(self).webview_open == old(self).webview_open,
    {
        self.current_page = page;
    }

    /// The page after the current one.
    pub fn next_page(&self) -> (r: i32)
        requires
            self.current_page < i32::MAX,
        ensures
            r == self.current_page + 1,
    {
        self.current_page + 1
    }

    /// The page before the current one, or `None` on the first page.
    pub fn prev_page(&self) -> (r: Option<i32>)
        ensures
            self.current_page <= 0 ==> r is None,
            self.current_page > 0 ==> r == Some((self.current_page - 1) as i32),
    {
        if self.current_page <= 0 {
            None
        } else {
            Some(self.current_page - 1)
        }
    }

    /// The position shown to the user: 1-indexed.
    pub fn slide_info(&self) -> (r: SlideInfo)
        requires
            self.current_page < i32::MAX,
        ensures
            r.current == self.current_page + 1,
            r.total == self.total_pages,
    {
        SlideInfo { current: self.current_page + 1, total: self.total_pages }
    }

    /// The position after a step back: the first slide when already there.
    pub fn prev_slide_info(&self) -> (r: SlideInfo)
        ensures
            self.current_page <= 0 ==> r.current == 1,
            self.current_page > 0 ==> r.current == self.current_page,
            r.total == self.total_pages,
    {
        if self.current_page <= 0 {
            SlideInfo { current: 1, total: self.total_pages }
        } else {
            SlideInfo { current: self.current_page, total: self.total_pages }
        }
    }

    /// Open and presenting while the webview exists with a session.
    pub fn presentation_state(&self, has_webview: bool) -> (r: PresentationState)
        ensures
            r.is_open == (has_webview && self.session_id is Some),
            r.is_presenting == (has_webview && self.session_id is Some),
    {
        let live = has_webview && self.session_id.is_some();
        PresentationState { is_open: live, is_presenting: live }
    }

    /// Connected with webview and session, connecting with the webview only.
    pub fn connection_status(&self, has_webview: bool) -> (r: ConnectionStatus)
        ensures
            match r {
                ConnectionStatus::Connected => has_webview && self.session_id is Some,
                ConnectionStatus::Connecting => has_webview && self.session_id is None,
                ConnectionStatus::Disconnected => !has_webview,
                ConnectionStatus::Error(_) => false,
            },
    {
        if has_webview && self.session_id.is_some() {
            ConnectionStatus::Connected
        } else if has_webview {
            ConnectionStatus::Connecting
        } else {
            ConnectionStatus::Disconnected
        }
    }

    /// One generic name while the webview exists with a session.
    pub fn open_presentations(&self, has_webview: bool) -> (r: Vec<String>)
        ensures
            has_webview && self.session_id is Some ==> views(r@) == seq!["Canva Presentation"@],
            !(has_webview && self.session_id is Some) ==> r@.len() == 0,
    {
        let mut v: Vec<String> = Vec::new();
        if has_webview && self.session_id.is_some() {
            v.push(to_owned_string("Canva Presentation"));
            assert(views(v@) =~= seq!["Canva Presentation"@]);
        }
        v
    }
}

/// Caches the notes the webview reported for 0-indexed `page`: non-empty
/// notes go under slide `page + 1` when that is above 0. Returns whether
/// the cache changed.
pub fn cache_page_notes(cache: &mut HashMap<i32, String>, page: i32, notes: Option<String>) -> (r:
    bool)
    requires
        page < i32::MAX,
    ensures
        r == (notes matches Some(n) && n@.len() > 0 && page + 1 > 0),
        r ==> map_views(final(cache)@) == map_views(old(cache)@).insert(
            (page + 1) as i32,
            notes->0@,
        ),
        !r ==> final(cache)@ == old(cache)@,
{
    let slide = page + 1;
    match notes {
        Some(n) => {
            if slide > 0 && n.as_str().unicode_len() > 0 {
                let ghost nv = n@;
                let ghost before = cache@;
                cache.insert(slide, n);
                assert(map_views(cache@) =~= map_views(before).insert(slide, nv));
                true
            } else {
                false
            }
        },
        None => false,
    }
}

/// The cache after a batch of `(page, notes)`, each cached as
/// `cache_page_notes` does.
pub open spec fn batch_cached(m: Map<i32, Seq<char>>, batch: Seq<(i32, String)>) -> Map<
    i32,
    Seq<char>,
>
    decreases batch.len(),
{
    if batch.len() == 0 {
        m
    } else {
        let prev = batch_cached(m, batch.drop_last());
        let (page, text) = batch.last();
        if page + 1 > 0 && text@.len() > 0 {
            prev.insert((page + 1) as i32, text@)
        } else {
            prev
        }
    }
}

/// Whether some entry of a batch is cached.
pub open spec fn batch_changes(batch: Seq<(i32, String)>) -> bool {
    exists|i: int| 0 <= i < batch.len() && batch[i].0 + 1 > 0 && (#[trigger] batch[i]).1@.len() > 0
}

/// Caches a batch of page notes; returns whether any was cached.
pub fn cache_batch_notes(cache: &mut HashMap<i32, String>, batch: Vec<(i32, String)>) -> (r: bool)
    requires
        forall|i: int| 0 <= i < batch@.len() ==> (#[trigger] batch@[i]).0 < i32::MAX,
    ensures
        map_views(final(cache)@) == batch_cached(map_views(old(cache)@), batch@),
        r == batch_changes(batch@),
{
    let ghost start = map_views(cache@);
    let ghost entries = batch@;
    let mut rest = batch;
    let mut stack: Vec<(i32, String)> = Vec::new();
    let total: usize = rest.len();
    while rest.len() > 0
        invariant
            rest@.len() + stack@.len() == total,
            total == entries.len(),
            forall|j: int| 0 <= j < rest@.len() ==> rest@[j] == entries[j],
            forall|j: int| 0 <= j < stack@.len() ==> #[trigger] stack@[j] == entries[total - 1 - j],
            map_views(cache@) == start,
        decreases rest@.len(),
    {
        let e = rest.pop().unwrap();
        stack.push(e);
    }
    let mut k: usize = 0;
    let mut changed = false;
    while stack.len() > 0
        invariant
            k + stack@.len() == total,
            total == entries.len(),
            forall|j: int| 0 <= j < stack@.len() ==> #[trigger] stack@[j] == entries[total - 1 - j],
            forall|i: int| 0 <= i < entries.len() ==> (#[trigger] entries[i]).0 < i32::MAX,
            map_views(cache@) == batch_cached(start, entries.take(k as int)),
            changed == batch_changes(entries.take(k as int)),
        decreases stack@.len(),
    {
        let (page, text) = stack.pop().unwrap();
        let ghost t0 = entries.take(k as int);
        let ghost t1 = entries.take(k + 1);
        proof {
            assert(t1.drop_last() =~= t0);
            assert(t1.last() == entries[k as int]);
            assert(entries[k as int] == (page, text));
        }
        let c = cache_page_notes(cache, page, Some(text));
        proof {
            if c {
                assert(t1[k as int] == entries[k as int]);
            }
            if batch_changes(t1) && !c && !changed {
                let i = choose|i: int| 0 <= i < t1.len() && t1[i].0 + 1 > 0 && (#[trigger] t1[i]).1@.len() > 0;
                if i < k {
                    assert(t0[i] == t1[i]);
                }
            }
            if changed {
                let i = choose|i: int| 0 <= i < t0.len() && t0[i].0 + 1 > 0 && (#[trigger] t0[i]).1@.len() > 0;
                assert(t1[i] == t0[i]);
            }
        }
        changed = changed || c;
        k = k + 1;
    }
    proof {
        assert(entries.take(total as int) =~= entries);
    }
    changed
}

} // verus!

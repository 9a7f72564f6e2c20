//! The decisions of the desktop's background loops: the status poll (what
//! to cache, fetch and broadcast for each status read) and the notes scan
//! (which slide to visit next). The caller runs the loops, talks to the
//! presentation app and sleeps between steps.

use vstd::prelude::*;
use std::collections::HashMap;
use crate::adapters::{map_views, opt_view, LiveStatus, SlideInfo};
use crate::text::{str_eq, to_owned_string};
use vstd::string::*;

verus! {

broadcast use vstd::std_specs::hash::group_hash_axioms;

/// Two live statuses hold the same values.
pub open spec fn same_status(a: LiveStatus, b: LiveStatus) -> bool {
    &&& a.is_open == b.is_open
    &&& a.is_presenting == b.is_presenting
    &&& a.current_slide == b.current_slide
    &&& a.total_slides == b.total_slides
    &&& a.zoom_level == b.zoom_level
    &&& opt_view(a.presenter_notes) == opt_view(b.presenter_notes)
    &&& a.current_build == b.current_build
    &&& a.total_builds == b.total_builds
}

fn opt_str_eq(a: &Option<String>, b: &Option<String>) -> (r: bool)
    ensures
        r == (opt_view(*a) == opt_view(*b)),
{
    match (a, b) {
        (Some(x), Some(y)) => str_eq(x.as_str(), y.as_str()),
        (None, None) => true,
        _ => false,
    }
}

/// Whether two statuses hold the same values.
pub fn status_eq(a: &LiveStatus, b: &LiveStatus) -> (r: bool)
    ensures
        r == same_status(*a, *b),
{
    a.is_open == b.is_open && a.is_presenting == b.is_presenting && a.current_slide
        == b.current_slide && a.total_slides == b.total_slides && a.zoom_level == b.zoom_level
        && opt_str_eq(&a.presenter_notes, &b.presenter_notes) && a.current_build == b.current_build
        && a.total_builds == b.total_builds
}

/// A copy of a status.
pub fn copy_status(s: &LiveStatus) -> (r: LiveStatus)
    ensures
        same_status(r, *s),
{
    LiveStatus {
        is_open: s.is_open,
        is_presenting: s.is_presenting,
        current_slide: s.current_slide,
        total_slides: s.total_slides,
        zoom_level: s.zoom_level,
        presenter_notes: match &s.presenter_notes {
            Some(n) => Some(n.clone()),
            None => None,
        },
        current_build: s.current_build,
        total_builds: s.total_builds,
    }
}

/// What the status poll remembers between reads.
#[derive(Debug)]
pub struct PollState {
    pub was_presenting: bool,
    pub last_broadcast: Option<LiveStatus>,
}

/// What to do after one status read.
#[derive(Debug)]
pub struct PollActions {
    /// The presentation just started presenting: fetch all notes at once
    /// (not for Canva, whose notes arrive by themselves).
    pub fetch_all_notes: bool,
    /// The notes of the current slide went into the cache.
    pub notes_cached: bool,
    /// The status differs from the last one broadcast: broadcast it.
    pub broadcast: bool,
}

impl PollState {
    /// Nothing seen yet.
    pub fn new() -> (r: Self)
        ensures
            !r.was_presenting,
            r.last_broadcast is None,
    {
        PollState { was_presenting: false, last_broadcast: None }
    }

    /// Takes one status read: caches its notes under its slide number when
    /// it has notes and a slide above 0, and says whether to fetch all notes
    /// and whether to broadcast.
    pub fn on_status(
        &mut self,
        status: &LiveStatus,
        is_canva: bool,
        cache: &mut HashMap<i32, String>,
    ) -> (r: PollActions)
        ensures
            r.fetch_all_notes == (status.is_presenting && !old(self).was_presenting && !is_canva),
            final(self).was_presenting == status.is_presenting,
            r.notes_cached == (status.presenter_notes is Some && status.current_slide > 0),
            r.notes_cached ==> map_views(final(cache)@) == map_views(old(cache)@).insert(
                status.current_slide,
                status.presenter_notes->0@,
            ),
            !r.notes_cached ==> final(cache)@ == old(cache)@,
            r.broadcast == !(old(self).last_broadcast matches Some(l) && same_status(l, *status)),
            r.broadcast ==> (final(self).last_broadcast matches Some(l) && same_status(l, *status)),
            !r.broadcast ==> final(self).last_broadcast == old(self).last_broadcast,
    {
        let fetch_all_notes = status.is_presenting && !self.was_presenting && !is_canva;
        self.was_presenting = status.is_presenting;
        let mut notes_cached = false;
        match &status.presenter_notes {
            Some(notes) => {
                if status.current_slide > 0 {
                    let ghost before = cache@;
                    cache.insert(status.current_slide, notes.clone());
                    assert(map_views(cache@) =~= map_views(before).insert(
                        status.current_slide,
                        notes@,
                    ));
                    notes_cached = true;
                }
            },
            None => {},
        }
        let changed = match &self.last_broadcast {
            Some(last) => !status_eq(last, status),
            None => true,
        };
        if changed {
            self.last_broadcast = Some(copy_status(status));
        }
        PollActions { fetch_all_notes, notes_cached, broadcast: changed }
    }
}

/// Where a request for all notes is answered from.
#[derive(Debug, Clone, Copy, PartialEq, Eq, Structural)]
pub enum NotesSource {
    /// The cache as it is.
    Cache,
    /// Nothing new: the adapter has no bulk fetch (the cache is empty).
    Nothing,
    /// The adapter's bulk fetch, merged into the cache.
    Bulk,
}

/// A filled cache answers at once (the bulk fetch is slow and would race
/// with polling); Canva has no bulk fetch; any other adapter is asked.
pub fn notes_source(cache_len: usize, adapter: &str) -> (r: NotesSource)
    ensures
        cache_len > 0 ==> r == NotesSource::Cache,
        cache_len == 0 && adapter@ == "canva"@ ==> r == NotesSource::Nothing,
        cache_len == 0 && adapter@ != "canva"@ ==> r == NotesSource::Bulk,
{
    if cache_len > 0 {
        NotesSource::Cache
    } else if str_eq(adapter, "canva") {
        NotesSource::Nothing
    } else {
        NotesSource::Bulk
    }
}

/// Puts the bulk notes into the cache; bulk entries win over cached ones.
pub fn merge_notes(cache: &mut HashMap<i32, String>, bulk: Vec<(i32, String)>)
    ensures
        map_views(final(cache)@) == merged(map_views(old(cache)@), bulk@),
{
    let ghost start = map_views(cache@);
    let ghost entries = bulk@;
    let mut rest = bulk;
    let mut stack: Vec<(i32, String)> = Vec::new();
    let total: usize = rest.len();
    while rest.len() > 0
        invariant
            rest@.len() + stack@.len() == total,
            total == entries.len(),
            forall|j: int| 0 <= j < rest@.len() ==> rest@[j] == entries[j],
            forall|j: int| 0 <= j < stack@.len() ==> #[trigger] stack@[j] == entries[total - 1 - j],
            map_views(cache@) == start,
        decreases rest@.len(),
    {
        let e = rest.pop().unwrap();
        stack.push(e);
    }
    let mut k: usize = 0;
    while stack.len() > 0
        invariant
            k + stack@.len() == total,
            total == entries.len(),
            forall|j: int| 0 <= j < stack@.len() ==> #[trigger] stack@[j] == entries[total - 1 - j],
            map_views(cache@) == merged(start, entries.take(k as int)),
        decreases stack@.len(),
    {
        let (key, value) = stack.pop().unwrap();
        proof {
            assert(entries.take(k + 1).drop_last() =~= entries.take(k as int));
            assert(entries.take(k + 1).last() == entries[k as int]);
        }
        let ghost before = cache@;
        cache.insert(key, value);
        assert(map_views(cache@) =~= map_views(before).insert(key, entries[k as int].1@));
        k = k + 1;
    }
    proof {
        assert(entries.take(total as int) =~= entries);
    }
}

/// `m` with the pairs of `entries` written into it in order.
pub open spec fn merged(m: Map<i32, Seq<char>>, entries: Seq<(i32, String)>) -> Map<i32, Seq<char>>
    decreases entries.len(),
{
    if entries.len() == 0 {
        m
    } else {
        merged(m, entries.drop_last()).insert(entries.last().0, entries.last().1@)
    }
}

// ---------------------------------------------------------------------------
// Notes scan
// ---------------------------------------------------------------------------

pub open spec fn scan_busy_message() -> Seq<char> {
    "Scan already in progress"@
}

pub open spec fn scan_unknown_total_message() -> Seq<char> {
    "Cannot scan: total slides unknown"@
}

/// A scan that visits slides 1..=total, then returns to where it began.
#[derive(Debug)]
pub struct NotesScan {
    pub total: i32,
    pub return_slide: i32,
    /// The slide the next step visits.
    pub next: i64,
}

/// One step of a scan.
#[derive(Debug, PartialEq, Eq)]
pub enum ScanStep {
    /// Someone stopped the scan at this slide.
    Cancelled(i32),
    /// Go to this slide and read its notes.
    Visit(i32),
    /// All slides were visited: go back to this slide.
    Done(i32),
}

/// Starts a notes scan, unless one runs or the slide count is unknown.
pub fn begin_notes_scan(active: bool, slide_info: SlideInfo) -> (r: Result<NotesScan, String>)
    ensures
        active ==> (r matches Err(e) && e@ == scan_busy_message()),
        !active && slide_info.total <= 0 ==> (r matches Err(e) && e@
            == scan_unknown_total_message()),
        !active && slide_info.total > 0 ==> (r matches Ok(s) && s.total == slide_info.total
            && s.return_slide == slide_info.current && s.next == 1),
{
    if active {
        return Err(to_owned_string("Scan already in progress"));
    }
    if slide_info.total <= 0 {
        return Err(to_owned_string("Cannot scan: total slides unknown"));
    }
    Ok(NotesScan { total: slide_info.total, return_slide: slide_info.current, next: 1 })
}

impl NotesScan {
    /// The scan's invariant: it is between slide 1 and one past the last.
    pub open spec fn wf(&self) -> bool {
        1 <= self.next && self.next <= self.total + 1 && self.total > 0
    }

    /// The next step, given whether the scan is still wanted.
    pub fn step(&mut self, still_active: bool) -> (r: ScanStep)
        requires
            old(self).wf(),
        ensures
            final(self).wf(),
            final(self).total == old(self).total,
            final(self).return_slide == old(self).return_slide,
            old(self).next > old(self).total ==> r == ScanStep::Done(old(self).return_slide)
                && final(self).next == old(self).next,
            old(self).next <= old(self).total && !still_active ==> r == ScanStep::Cancelled(
                old(self).next as i32,
            ) && final(self).next == old(self).next,
            old(self).next <= old(self).total && still_active ==> r == ScanStep::Visit(
                old(self).next as i32,
            ) && final(self).next == old(self).next + 1,
    {
        if self.next > self.total as i64 {
            return ScanStep::Done(self.return_slide);
        }
        if !still_active {
            return ScanStep::Cancelled(self.next as i32);
        }
        let slide = self.next as i32;
        self.next = self.next + 1;
        ScanStep::Visit(slide)
    }
}

/// Records notes read during a scan: non-empty notes go into the cache
/// under their slide.
pub fn store_scanned_notes(cache: &mut HashMap<i32, String>, slide: i32, notes: Option<String>)
    ensures
        (notes matches Some(n) && n@.len() > 0) ==> map_views(final(cache)@) == map_views(
            old(cache)@,
        ).insert(slide, notes->0@),
        !(notes matches Some(n) && n@.len() > 0) ==> final(cache)@ == old(cache)@,
{
    match notes {
        Some(n) => {
            if n.as_str().unicode_len() > 0 {
                let ghost nv = n@;
                let ghost before = cache@;
                cache.insert(slide, n);
                assert(map_views(cache@) =~= map_views(before).insert(slide, nv));
            }
        },
        None => {},
    }
}

} // verus!

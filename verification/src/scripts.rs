//! The AppleScript that the Keynote and PowerPoint adapters run, with the
//! presentation's name (and a slide number or zoom level) put in place.
//! Running it is the caller's part; the replies are read in `adapters`.

use vstd::prelude::*;
use crate::adapters::{KeynoteAdapter, PowerPointAdapter};
use crate::text::{i64_to_decimal, push_str, signed_decimal, to_owned_string};

verus! {

/// `head`, then `x`, then `tail`.
fn filled(head: &str, x: &str, tail: &str) -> (r: String)
    ensures
        r@ == head@ + x@ + tail@,
{
    let mut s = to_owned_string(head);
    push_str(&mut s, x);
    push_str(&mut s, tail);
    s
}

/// `head`, `x`, `mid`, `x` again, then `tail`.
fn filled_twice(head: &str, x: &str, mid: &str, tail: &str) -> (r: String)
    ensures
        r@ == head@ + x@ + mid@ + x@ + tail@,
{
    let mut s = filled(head, x, mid);
    push_str(&mut s, x);
    push_str(&mut s, tail);
    s
}

// ---------------------------------------------------------------------------
// Keynote
// ---------------------------------------------------------------------------

/// The script that lists the open presentations as `a, b, c`.
pub const KEYNOTE_LIST_SCRIPT: &'static str = r#"tell application "Keynote" to get name of every document"#;

/// Part of the script that answers `open,presenting`.
pub const KEYNOTE_STATE_HEAD: &'static str = r#"tell application "Keynote"
                set isOpen to false
                set isPresenting to false

                try
                    set doc to document ""#;

/// Part of the script that answers `open,presenting`.
pub const KEYNOTE_STATE_TAIL: &'static str = r#""
                    set isOpen to true
                    set isPresenting to playing
                end try

                return (isOpen as text) & "," & (isPresenting as text)
            end tell"#;

/// Part of the script that answers `current,total`.
pub const KEYNOTE_SLIDE_INFO_HEAD: &'static str = r#"tell application "Keynote"
                tell document ""#;

/// Part of the script that answers `current,total`.
pub const KEYNOTE_SLIDE_INFO_TAIL: &'static str = r#""
                    set currentNum to slide number of current slide
                    set totalSlides to count (every slide whose skipped is false)
                    return (currentNum as text) & "," & (totalSlides as text)
                end tell
            end tell"#;

/// Part of the script that advances one slide unless at the last, and answers `OK|BOUNDARY,current,total`.
pub const KEYNOTE_NEXT_HEAD: &'static str = r#"tell application "Keynote"
                tell document ""#;

/// Part of the script that advances one slide unless at the last, and answers `OK|BOUNDARY,current,total`.
pub const KEYNOTE_NEXT_TAIL: &'static str = r#""
                    set oldPos to slide number of current slide
                    set totalSlides to count (every slide whose skipped is false)
                    -- Read outgoing slide's transition duration BEFORE advancing
                    set tDur to 0.0
                    try
                        set tDur to transition duration of transition properties of current slide
                    end try
                    if oldPos >= totalSlides then
                        return "BOUNDARY," & (oldPos as text) & "," & (totalSlides as text) & "," & (tDur as text)
                    end if
                    show next
                    -- Read immediately — may still be old value during transition, frontend handles it
                    set newPos to slide number of current slide
                    return "OK," & (newPos as text) & "," & (totalSlides as text) & "," & (tDur as text)
                end tell
            end tell"#;

/// Part of the script that goes back one slide unless at the first, and answers `OK|BOUNDARY,current,total`.
pub const KEYNOTE_PREV_HEAD: &'static str = r#"tell application "Keynote"
                tell document ""#;

/// Part of the script that goes back one slide unless at the first, and answers `OK|BOUNDARY,current,total`.
pub const KEYNOTE_PREV_TAIL: &'static str = r#""
                    set oldPos to slide number of current slide
                    set totalSlides to count (every slide whose skipped is false)
                    if oldPos <= 1 then
                        return "BOUNDARY," & (oldPos as text) & "," & (totalSlides as text)
                    end if
                    show previous
                    -- Read immediately — reverse transitions are fast
                    set newPos to slide number of current slide
                    return "OK," & (newPos as text) & "," & (totalSlides as text)
                end tell
            end tell"#;

/// Part of the script that jumps to a slide number when it exists, and answers `OK|BOUNDARY,current,total`.
pub const KEYNOTE_GOTO_HEAD: &'static str = r#"tell application "Keynote"
                tell document ""#;

/// Part of the script that jumps to a slide number when it exists, and answers `OK|BOUNDARY,current,total`.
pub const KEYNOTE_GOTO_BEFORE_SLIDE: &'static str = r#""
                    set totalSlides to count (every slide whose skipped is false)
                    if "#;

/// Part of the script that jumps to a slide number when it exists, and answers `OK|BOUNDARY,current,total`.
pub const KEYNOTE_GOTO_BETWEEN_SLIDES: &'static str = r#" < 1 or "#;

/// Part of the script that jumps to a slide number when it exists, and answers `OK|BOUNDARY,current,total`.
pub const KEYNOTE_GOTO_AFTER_SLIDES: &'static str = r#" > totalSlides then
                        return "BOUNDARY," & (slide number of current slide as text) & "," & (totalSlides as text)
                    end if
                    set matchingSlides to (every slide whose slide number is "#;

/// Part of the script that jumps to a slide number when it exists, and answers `OK|BOUNDARY,current,total`.
pub const KEYNOTE_GOTO_TAIL: &'static str = r#")
                    if (count matchingSlides) = 0 then
                        return "BOUNDARY," & (slide number of current slide as text) & "," & (totalSlides as text)
                    end if
                    set current slide to item 1 of matchingSlides
                    -- Read immediately — goto jumps have no transition
                    set newPos to slide number of current slide
                    return "OK," & (newPos as text) & "," & (totalSlides as text)
                end tell
            end tell"#;

/// Part of the script that answers the current slide's presenter notes.
pub const KEYNOTE_NOTES_HEAD: &'static str = r#"tell application "Keynote"
                tell document ""#;

/// Part of the script that answers the current slide's presenter notes.
pub const KEYNOTE_NOTES_TAIL: &'static str = r#""
                    set noteText to presenter notes of current slide
                    return noteText
                end tell
            end tell"#;

/// Part of the script that answers `number|||notes` for each slide, one line each.
pub const KEYNOTE_ALL_NOTES_HEAD: &'static str = r#"tell application "Keynote"
                tell document ""#;

/// Part of the script that answers `number|||notes` for each slide, one line each.
pub const KEYNOTE_ALL_NOTES_TAIL: &'static str = r#""
                    set output to ""
                    repeat with i from 1 to (count slides)
                        set s to slide i
                        if skipped of s is false then
                            set sNum to slide number of s
                            set noteText to presenter notes of s
                            set output to output & (sNum as text) & "|||" & noteText & linefeed
                        end if
                    end repeat
                    return output
                end tell
            end tell"#;

/// Part of the script that answers the whole live status, fields separated by `|||`.
pub const KEYNOTE_LIVE_HEAD: &'static str = r#"tell application "Keynote"
                set isOpen to "false"
                set isPresenting to "false"
                set currentSlide to "0"
                set totalSlides to "0"
                set noteText to ""
                try
                    set doc to document ""#;

/// Part of the script that answers the whole live status, fields separated by `|||`.
pub const KEYNOTE_LIVE_TAIL: &'static str = r#""
                    set isOpen to "true"
                    set isPresenting to (playing) as text
                    if playing then
                        set currentSlide to (slide number of current slide of doc) as text
                        set totalSlides to (count (every slide of doc whose skipped is false)) as text
                        try
                            set noteText to presenter notes of current slide of doc
                            if noteText is missing value then set noteText to ""
                        end try
                    end if
                end try
                return isOpen & "|||" & isPresenting & "|||" & currentSlide & "|||" & totalSlides & "|||" & noteText
            end tell"#;

impl KeynoteAdapter {
    /// The script that answers `open,presenting`, for presentation `name`.
    pub fn state_script(name: &str) -> (r: String)
        ensures
            r@ == KEYNOTE_STATE_HEAD@ + name@ + KEYNOTE_STATE_TAIL@,
    {
        filled(KEYNOTE_STATE_HEAD, name, KEYNOTE_STATE_TAIL)
    }

    /// The script that answers `current,total`, for presentation `name`.
    pub fn slide_info_script(name: &str) -> (r: String)
        ensures
            r@ == KEYNOTE_SLIDE_INFO_HEAD@ + name@ + KEYNOTE_SLIDE_INFO_TAIL@,
    {
        filled(KEYNOTE_SLIDE_INFO_HEAD, name, KEYNOTE_SLIDE_INFO_TAIL)
    }

    /// The script that advances one slide unless at the last, and answers `OK|BOUNDARY,current,total`, for presentation `name`.
    pub fn next_slide_script(name: &str) -> (r: String)
        ensures
            r@ == KEYNOTE_NEXT_HEAD@ + name@ + KEYNOTE_NEXT_TAIL@,
    {
        filled(KEYNOTE_NEXT_HEAD, name, KEYNOTE_NEXT_TAIL)
    }

    /// The script that goes back one slide unless at the first, and answers `OK|BOUNDARY,current,total`, for presentation `name`.
    pub fn prev_slide_script(name: &str) -> (r: String)
        ensures
            r@ == KEYNOTE_PREV_HEAD@ + name@ + KEYNOTE_PREV_TAIL@,
    {
        filled(KEYNOTE_PREV_HEAD, name, KEYNOTE_PREV_TAIL)
    }

    /// The script that jumps to a slide number when it exists, and answers `OK|BOUNDARY,current,total`: document `name`, slide `slide`.
    pub fn goto_slide_script(name: &str, slide: i32) -> (r: String)
        ensures
            r@ == KEYNOTE_GOTO_HEAD@ + name@ + KEYNOTE_GOTO_BEFORE_SLIDE@ + signed_decimal(slide as int) + KEYNOTE_GOTO_BETWEEN_SLIDES@
                + signed_decimal(slide as int) + KEYNOTE_GOTO_AFTER_SLIDES@ + signed_decimal(slide as int) + KEYNOTE_GOTO_TAIL@,
    {
        let n = i64_to_decimal(slide as i64);
        let mut s = filled(KEYNOTE_GOTO_HEAD, name, KEYNOTE_GOTO_BEFORE_SLIDE);
        push_str(&mut s, n.as_str());
        push_str(&mut s, KEYNOTE_GOTO_BETWEEN_SLIDES);
        push_str(&mut s, n.as_str());
        push_str(&mut s, KEYNOTE_GOTO_AFTER_SLIDES);
        push_str(&mut s, n.as_str());
        push_str(&mut s, KEYNOTE_GOTO_TAIL);
        s
    }

    /// The script that answers the current slide's presenter notes, for presentation `name`.
    pub fn presenter_notes_script(name: &str) -> (r: String)
        ensures
            r@ == KEYNOTE_NOTES_HEAD@ + name@ + KEYNOTE_NOTES_TAIL@,
    {
        filled(KEYNOTE_NOTES_HEAD, name, KEYNOTE_NOTES_TAIL)
    }

    /// The script that answers `number|||notes` for each slide, one line each, for presentation `name`.
    pub fn all_notes_script(name: &str) -> (r: String)
        ensures
            r@ == KEYNOTE_ALL_NOTES_HEAD@ + name@ + KEYNOTE_ALL_NOTES_TAIL@,
    {
        filled(KEYNOTE_ALL_NOTES_HEAD, name, KEYNOTE_ALL_NOTES_TAIL)
    }

    /// The script that answers the whole live status, fields separated by `|||`, for presentation `name`.
    pub fn live_status_script(name: &str) -> (r: String)
        ensures
            r@ == KEYNOTE_LIVE_HEAD@ + name@ + KEYNOTE_LIVE_TAIL@,
    {
        filled(KEYNOTE_LIVE_HEAD, name, KEYNOTE_LIVE_TAIL)
    }
}

// ---------------------------------------------------------------------------
// PowerPoint
// ---------------------------------------------------------------------------

/// The script that lists the open presentations as `a, b, c`.
pub const POWERPOINT_LIST_SCRIPT: &'static str = r#"tell application "Microsoft PowerPoint" to get name of every presentation"#;

/// Part of the script that answers `open,presenting`.
pub const POWERPOINT_STATE_HEAD: &'static str = r#"tell application "Microsoft PowerPoint"
                set isOpen to false
                set isPresenting to false

                try
                    set pres to presentation ""#;

/// Part of the script that answers `open,presenting`.
pub const POWERPOINT_STATE_TAIL: &'static str = r#""
                    set isOpen to true

                    try
                        set ssw to slide show window of pres
                        if ssw is not missing value then
                            set pos to current show position of slide show view of ssw
                            set isPresenting to true
                        end if
                    end try
                end try

                return (isOpen as text) & "," & (isPresenting as text)
            end tell"#;

/// Part of the script that answers `current,total`.
pub const POWERPOINT_SLIDE_INFO_HEAD: &'static str = r#"tell application "Microsoft PowerPoint"
                set currentPos to current show position of slide show view of slide show window of presentation ""#;

/// Part of the script that answers `current,total`.
pub const POWERPOINT_SLIDE_INFO_MID: &'static str = r#""
                set totalSlides to count slides of presentation ""#;

/// Part of the script that answers `current,total`.
pub const POWERPOINT_SLIDE_INFO_TAIL: &'static str = r#""
                return (currentPos as text) & "," & (totalSlides as text)
            end tell"#;

/// Part of the script that advances one slide unless at the last, and answers `OK|BOUNDARY,current,total`.
pub const POWERPOINT_NEXT_HEAD: &'static str = r#"tell application "Microsoft PowerPoint"
                set ssView to slide show view of slide show window of presentation ""#;

/// Part of the script that advances one slide unless at the last, and answers `OK|BOUNDARY,current,total`.
pub const POWERPOINT_NEXT_MID: &'static str = r#""
                set pres to presentation ""#;

/// Part of the script that advances one slide unless at the last, and answers `OK|BOUNDARY,current,total`.
pub const POWERPOINT_NEXT_TAIL: &'static str = r#""
                set oldPos to current show position of ssView
                set totalSlides to count slides of pres
                if oldPos >= totalSlides then
                    return "BOUNDARY," & (oldPos as text) & "," & (totalSlides as text)
                end if
                go to next slide ssView
                set newPos to current show position of ssView
                return "OK," & (newPos as text) & "," & (totalSlides as text)
            end tell"#;

/// Part of the script that goes back one slide unless at the first, and answers `OK|BOUNDARY,current,total`.
pub const POWERPOINT_PREV_HEAD: &'static str = r#"tell application "Microsoft PowerPoint"
                set ssView to slide show view of slide show window of presentation ""#;

/// Part of the script that goes back one slide unless at the first, and answers `OK|BOUNDARY,current,total`.
pub const POWERPOINT_PREV_MID: &'static str = r#""
                set pres to presentation ""#;

/// Part of the script that goes back one slide unless at the first, and answers `OK|BOUNDARY,current,total`.
pub const POWERPOINT_PREV_TAIL: &'static str = r#""
                set oldPos to current show position of ssView
                set totalSlides to count slides of pres
                if oldPos <= 1 then
                    return "BOUNDARY," & (oldPos as text) & "," & (totalSlides as text)
                end if
                go to previous slide ssView
                set newPos to current show position of ssView
                return "OK," & (newPos as text) & "," & (totalSlides as text)
            end tell"#;

/// Part of the script that answers the current slide's presenter notes.
pub const POWERPOINT_NOTES_HEAD: &'static str = r#"tell application "Microsoft PowerPoint"
                set pres to presentation ""#;

/// Part of the script that answers the current slide's presenter notes.
pub const POWERPOINT_NOTES_TAIL: &'static str = r#""
                set idx to slide index of slide of view of slide show window of pres
                set noteText to ""
                set notesSlide to notes page of slide idx of pres
                repeat with s in shapes of notesSlide
                    try
                        if has text frame of s then
                            set t to content of text range of text frame of s
                            if t is not "" and t is not missing value then
                                set noteText to t
                            end if
                        end if
                    end try
                end repeat
                return noteText
            end tell"#;

/// Part of the script that answers `number|||notes` for each slide, one line each.
pub const POWERPOINT_ALL_NOTES_HEAD: &'static str = r#"tell application "Microsoft PowerPoint"
                set pres to presentation ""#;

/// Part of the script that answers `number|||notes` for each slide, one line each.
pub const POWERPOINT_ALL_NOTES_TAIL: &'static str = r#""
                set totalSlides to count slides of pres

                -- Discover notes body shape index from slide 1
                -- The notes page has a slide number placeholder (small text) and the
                -- notes body (large text). We pick the last shape with a text frame,
                -- which is the notes body rather than the slide number.
                set bodyIdx to -1
                try
                    set notesSlide to notes page of slide 1 of pres
                    set shapeCount to count shapes of notesSlide
                    repeat with j from 1 to shapeCount
                        try
                            if has text frame of shape j of notesSlide then
                                set bodyIdx to j
                            end if
                        end try
                    end repeat
                end try

                if bodyIdx = -1 then set bodyIdx to 2

                set output to ""
                repeat with i from 1 to totalSlides
                    set noteText to ""
                    try
                        set noteText to content of text range of text frame of shape bodyIdx of notes page of slide i of pres
                        if noteText is missing value then set noteText to ""
                    on error
                        set noteText to ""
                    end try
                    set output to output & (i as text) & "|||" & noteText & linefeed
                end repeat
                return output
            end tell"#;

/// The script that answers the presenter view notes zoom, or `ERROR:` and a message.
pub const POWERPOINT_ZOOM_SCRIPT: &'static str = r#"tell application "Microsoft PowerPoint"
            try
                set pvWindow to presenter view window 1
                set pTool to presenter tool of pvWindow
                set nZoom to notes zoom of pTool
                return (nZoom as text)
            on error errMsg
                return "ERROR:" & errMsg
            end try
        end tell"#;

/// Part of the script that sets the presenter view notes zoom, answering `OK` or `ERROR:` and a message.
pub const POWERPOINT_SET_ZOOM_HEAD: &'static str = r#"tell application "Microsoft PowerPoint"
                try
                    set pvWindow to presenter view window 1
                    set pTool to presenter tool of pvWindow
                    set notes zoom of pTool to "#;

/// Part of the script that sets the presenter view notes zoom, answering `OK` or `ERROR:` and a message.
pub const POWERPOINT_SET_ZOOM_TAIL: &'static str = r#"
                    return "OK"
                on error errMsg
                    return "ERROR:" & errMsg
                end try
            end tell"#;

/// Part of the script that answers the whole live status, fields separated by `|||`.
pub const POWERPOINT_LIVE_HEAD: &'static str = r#"tell application "Microsoft PowerPoint"
                set isOpen to "false"
                set isPresenting to "false"
                set currentSlide to "0"
                set totalSlides to "0"
                set noteText to ""
                set zoomVal to ""
                try
                    set pres to presentation ""#;

/// Part of the script that answers the whole live status, fields separated by `|||`.
pub const POWERPOINT_LIVE_TAIL: &'static str = r#""
                    set isOpen to "true"
                    try
                        set ssw to slide show window of pres
                        set ssView to slide show view of ssw
                        set isPresenting to "true"
                        set currentSlide to (current show position of ssView) as text
                        set totalSlides to (count slides of pres) as text
                        try
                            set idx to current show position of ssView
                            set notesSlide to notes page of slide idx of pres
                            repeat with s in shapes of notesSlide
                                try
                                    if has text frame of s then
                                        set t to content of text range of text frame of s
                                        if t is not "" and t is not missing value then
                                            set noteText to t
                                        end if
                                    end if
                                end try
                            end repeat
                        end try
                        try
                            set pvWindow to presenter view window 1
                            set pTool to presenter tool of pvWindow
                            set zoomVal to (notes zoom of pTool) as text
                        end try
                    end try
                end try
                return isOpen & "|||" & isPresenting & "|||" & currentSlide & "|||" & totalSlides & "|||" & zoomVal & "|||" & noteText
            end tell"#;

impl PowerPointAdapter {
    /// The script that answers `open,presenting`, for presentation `name`.
    pub fn state_script(name: &str) -> (r: String)
        ensures
            r@ == POWERPOINT_STATE_HEAD@ + name@ + POWERPOINT_STATE_TAIL@,
    {
        filled(POWERPOINT_STATE_HEAD, name, POWERPOINT_STATE_TAIL)
    }

    /// The script that answers `current,total`, for presentation `name`.
    pub fn slide_info_script(name: &str) -> (r: String)
        ensures
            r@ == POWERPOINT_SLIDE_INFO_HEAD@ + name@ + POWERPOINT_SLIDE_INFO_MID@ + name@ + POWERPOINT_SLIDE_INFO_TAIL@,
    {
        filled_twice(POWERPOINT_SLIDE_INFO_HEAD, name, POWERPOINT_SLIDE_INFO_MID, POWERPOINT_SLIDE_INFO_TAIL)
    }

    /// The script that advances one slide unless at the last, and answers `OK|BOUNDARY,current,total`, for presentation `name`.
    pub fn next_slide_script(name: &str) -> (r: String)
        ensures
            r@ == POWERPOINT_NEXT_HEAD@ + name@ + POWERPOINT_NEXT_MID@ + name@ + POWERPOINT_NEXT_TAIL@,
    {
        filled_twice(POWERPOINT_NEXT_HEAD, name, POWERPOINT_NEXT_MID, POWERPOINT_NEXT_TAIL)
    }

    /// The script that goes back one slide unless at the first, and answers `OK|BOUNDARY,current,total`, for presentation `name`.
    pub fn prev_slide_script(name: &str) -> (r: String)
        ensures
            r@ == POWERPOINT_PREV_HEAD@ + name@ + POWERPOINT_PREV_MID@ + name@ + POWERPOINT_PREV_TAIL@,
    {
        filled_twice(POWERPOINT_PREV_HEAD, name, POWERPOINT_PREV_MID, POWERPOINT_PREV_TAIL)
    }

    /// The script that answers the current slide's presenter notes, for presentation `name`.
    pub fn presenter_notes_script(name: &str) -> (r: String)
        ensures
            r@ == POWERPOINT_NOTES_HEAD@ + name@ + POWERPOINT_NOTES_TAIL@,
    {
        filled(POWERPOINT_NOTES_HEAD, name, POWERPOINT_NOTES_TAIL)
    }

    /// The script that answers `number|||notes` for each slide, one line each, for presentation `name`.
    pub fn all_notes_script(name: &str) -> (r: String)
        ensures
            r@ == POWERPOINT_ALL_NOTES_HEAD@ + name@ + POWERPOINT_ALL_NOTES_TAIL@,
    {
        filled(POWERPOINT_ALL_NOTES_HEAD, name, POWERPOINT_ALL_NOTES_TAIL)
    }

    /// The script that sets the presenter view notes zoom, answering `OK` or `ERROR:` and a message: zoom `level`.
    pub fn set_notes_zoom_script(level: i32) -> (r: String)
        ensures
            r@ == POWERPOINT_SET_ZOOM_HEAD@ + signed_decimal(level as int) + POWERPOINT_SET_ZOOM_TAIL@,
    {
        let n = i64_to_decimal(level as i64);
        filled(POWERPOINT_SET_ZOOM_HEAD, n.as_str(), POWERPOINT_SET_ZOOM_TAIL)
    }

    /// The script that answers the whole live status, fields separated by `|||`, for presentation `name`.
    pub fn live_status_script(name: &str) -> (r: String)
        ensures
            r@ == POWERPOINT_LIVE_HEAD@ + name@ + POWERPOINT_LIVE_TAIL@,
    {
        filled(POWERPOINT_LIVE_HEAD, name, POWERPOINT_LIVE_TAIL)
    }
}

} // verus!

//! The LibreOffice Impress Remote Protocol, as the desktop app speaks it.
//!
//! The server sends messages made of lines, each message ended by an empty
//! line; the first line names the message. This module holds the state those
//! messages build up, the rules by which each message changes it, and the
//! text the client sends back. The socket itself belongs to the caller.

use vstd::prelude::*;
use crate::adapters::{ConnectionStatus, PresentationState, SlideInfo};
use crate::num::{parse_i32, spec_parse_i32};
use crate::split::chars_of;
use vstd::string::*;
use crate::text::{
    join, join_from, push_char, push_str, str_eq, to_owned_string, trim, trim_str, views,
    u64_to_decimal, decimal,
};

verus! {

/// TCP port of the Impress remote server.
pub const IMPRESS_REMOTE_PORT: u16 = 1599;

/// The name the client pairs under.
pub open spec fn client_name() -> Seq<char> {
    seq!['S', 'h', 'e', 'r', 'P', 'r', 'e', 's', 'e', 'n', 't']
}

/// What the server has told us so far.
#[derive(Debug, Clone)]
pub struct ImpressState {
    pub paired: bool,
    pub slideshow_running: bool,
    /// 0-indexed, as the protocol counts.
    pub current_slide: i32,
    pub total_slides: i32,
    pub presenter_notes: Option<String>,
}

/// The state as values: the notes as characters.
pub struct ImpressView {
    pub paired: bool,
    pub slideshow_running: bool,
    pub current_slide: i32,
    pub total_slides: i32,
    pub presenter_notes: Option<Seq<char>>,
}

impl View for ImpressState {
    type V = ImpressView;

    open spec fn view(&self) -> ImpressView {
        ImpressView {
            paired: self.paired,
            slideshow_running: self.slideshow_running,
            current_slide: self.current_slide,
            total_slides: self.total_slides,
            presenter_notes: match self.presenter_notes {
                Some(n) => Some(n@),
                None => None,
            },
        }
    }
}

/// The state before anything was received.
pub open spec fn initial_impress() -> ImpressView {
    ImpressView {
        paired: false,
        slideshow_running: false,
        current_slide: 0,
        total_slides: 0,
        presenter_notes: None,
    }
}

impl Default for ImpressState {
    fn default() -> (r: Self)
        ensures
            r@ == initial_impress(),
    {
        ImpressState {
            paired: false,
            slideshow_running: false,
            current_slide: 0,
            total_slides: 0,
            presenter_notes: None,
        }
    }
}

/// `text.parse::<i32>().unwrap_or(fallback)`.
pub open spec fn parse_i32_or(text: Seq<char>, fallback: int) -> int {
    match spec_parse_i32(text) {
        Some(v) => v,
        None => fallback,
    }
}

/// `html` without its tags, scanning from a position where `in_tag` says
/// whether a `<` is still open: everything from `<` to the next `>` goes.
pub open spec fn strip_tags_from(html: Seq<char>, in_tag: bool) -> Seq<char>
    decreases html.len(),
{
    if html.len() == 0 {
        Seq::<char>::empty()
    } else {
        let c = html[0];
        let rest = html.drop_first();
        if c == '<' {
            strip_tags_from(rest, true)
        } else if c == '>' {
            strip_tags_from(rest, false)
        } else if !in_tag {
            seq![c] + strip_tags_from(rest, false)
        } else {
            strip_tags_from(rest, true)
        }
    }
}

/// `html` without its tags.
pub open spec fn strip_tags(html: Seq<char>) -> Seq<char> {
    strip_tags_from(html, false)
}

/// The notes text a `slide_notes` message carries: its lines after the
/// first, joined by newlines, without tags and surrounding whitespace;
/// `None` when nothing is left.
pub open spec fn notes_of(lines: Seq<Seq<char>>) -> Option<Seq<char>> {
    let text = trim(strip_tags(join(lines.drop_first(), seq!['\n'])));
    if text.len() == 0 {
        None
    } else {
        Some(text)
    }
}

/// How one complete message changes the state. Unknown messages, pin
/// validation and slide previews change nothing.
pub open spec fn apply_message(s: ImpressView, lines: Seq<Seq<char>>) -> ImpressView {
    if lines.len() == 0 {
        s
    } else {
        let kind = lines[0];
        if kind == "LO_SERVER_SERVER_PAIRED"@ || kind == "LO_SERVER_PAIRED"@ {
            ImpressView { paired: true, ..s }
        } else if kind == "slideshow_started"@ {
            if lines.len() >= 3 {
                ImpressView {
                    paired: true,
                    slideshow_running: true,
                    total_slides: parse_i32_or(lines[1], 0) as i32,
                    current_slide: parse_i32_or(lines[2], 0) as i32,
                    ..s
                }
            } else {
                ImpressView { paired: true, slideshow_running: true, ..s }
            }
        } else if kind == "slideshow_finished"@ {
            ImpressView { slideshow_running: false, ..s }
        } else if kind == "slide_updated"@ {
            if lines.len() >= 2 {
                ImpressView {
                    current_slide: parse_i32_or(lines[1], s.current_slide as int) as i32,
                    ..s
                }
            } else {
                s
            }
        } else if kind == "slide_notes"@ {
            if lines.len() > 1 {
                ImpressView { presenter_notes: notes_of(lines), ..s }
            } else {
                s
            }
        } else {
            s
        }
    }
}

/// Removes HTML tags from `html`, keeping the text between them.
pub fn strip_html_tags(html: &str) -> (r: String)
    ensures
        r@ == strip_tags(html@),
{
    let v = chars_of(html);
    let mut result = String::new();
    let mut in_tag = false;
    let mut i: usize = 0;
    proof {
        assert(v@.skip(0) =~= v@);
        assert(result@ + strip_tags_from(v@, false) =~= strip_tags_from(v@, false));
    }
    while i < v.len()
        invariant
            i <= v.len(),
            v@ == html@,
            result@ + strip_tags_from(v@.skip(i as int), in_tag) == strip_tags(html@),
        decreases v.len() - i,
    {
        let ch = v[i];
        let ghost rest = v@.skip(i as int);
        proof {
            assert(rest.drop_first() =~= v@.skip(i + 1));
            assert(rest[0] == ch);
        }
        if ch == '<' {
            in_tag = true;
        } else if ch == '>' {
            in_tag = false;
        } else if !in_tag {
            let ghost before = result@;
            push_char(&mut result, ch);
            assert(before + (seq![ch] + strip_tags_from(v@.skip(i + 1), false)) =~= result@
                + strip_tags_from(v@.skip(i + 1), false));
        }
        i = i + 1;
    }
    proof {
        assert(v@.skip(v.len() as int) =~= Seq::<char>::empty());
        assert(result@ + Seq::<char>::empty() =~= result@);
    }
    result
}

fn parse_i32_or_else(text: &str, fallback: i32) -> (r: i32)
    ensures
        r as int == parse_i32_or(text@, fallback as int),
{
    match parse_i32(text) {
        Some(v) => v,
        None => fallback,
    }
}

impl ImpressState {
    /// Applies one complete message (its lines, without the empty line that
    /// ended it).
    pub fn handle_message(&mut self, lines: &[String])
        ensures
            final(self)@ == apply_message(old(self)@, views(lines@)),
    {
        let ghost ls = views(lines@);
        if lines.len() == 0 {
            return;
        }
        let kind = lines[0].as_str();
        assert(ls[0] == kind@);
        if str_eq(kind, "LO_SERVER_SERVER_PAIRED") || str_eq(kind, "LO_SERVER_PAIRED") {
            self.paired = true;
        } else if str_eq(kind, "slideshow_started") {
            self.slideshow_running = true;
            self.paired = true;
            if lines.len() >= 3 {
                assert(ls[1] == lines@[1]@ && ls[2] == lines@[2]@);
                self.total_slides = parse_i32_or_else(lines[1].as_str(), 0);
                self.current_slide = parse_i32_or_else(lines[2].as_str(), 0);
            }
        } else if str_eq(kind, "slideshow_finished") {
            self.slideshow_running = false;
        } else if str_eq(kind, "slide_updated") {
            if lines.len() >= 2 {
                assert(ls[1] == lines@[1]@);
                self.current_slide = parse_i32_or_else(lines[1].as_str(), self.current_slide);
            }
        } else if str_eq(kind, "slide_notes") {
            if lines.len() > 1 {
                let html = join_from(lines, 1, "\n");
                proof {
                    assert(views(lines@.skip(1)) =~= ls.drop_first());
                    reveal_strlit("\n");
                    assert("\n"@ =~= seq!['\n']);
                }
                let plain = strip_html_tags(html.as_str());
                let trimmed = trim_str(plain.as_str());
                if trimmed.unicode_len() == 0 {
                    self.presenter_notes = None;
                } else {
                    self.presenter_notes = Some(to_owned_string(trimmed));
                }
            }
        }
    }
}

/// The LibreOffice adapter's state apart from its socket: where it connects,
/// whether a connection is open, and what the server has said.
#[derive(Debug)]
pub struct LibreOfficeAdapter {
    pub host: String,
    pub port: u16,
    pub state: ImpressState,
    pub connected: bool,
}

/// The message every operation returns while no slideshow runs.
pub open spec fn no_slideshow_message() -> Seq<char> {
    "No slideshow is currently running"@
}

impl Default for LibreOfficeAdapter {
    fn default() -> (r: Self)
        ensures
            r.host@ == "127.0.0.1"@,
            r.port == IMPRESS_REMOTE_PORT,
            r.state@ == initial_impress(),
            !r.connected,
    {
        LibreOfficeAdapter::new(to_owned_string("127.0.0.1"), IMPRESS_REMOTE_PORT)
    }
}

impl LibreOfficeAdapter {
    /// An adapter for `host:port`, not yet connected.
    pub fn new(host: String, port: u16) -> (r: Self)
        ensures
            r.host == host,
            r.port == port,
            r.state@ == initial_impress(),
            !r.connected,
    {
        LibreOfficeAdapter { host, port, state: ImpressState::default(), connected: false }
    }

    /// Whether a connection is open.
    pub fn is_connected(&self) -> (r: bool)
        ensures
            r == self.connected,
    {
        self.connected
    }

    /// Records that a connection was opened.
    pub fn set_connected(&mut self)
        ensures
            final(self).connected,
            final(self).host == old(self).host,
            final(self).port == old(self).port,
            final(self).state@ == old(self).state@,
    {
        self.connected = true;
    }

    /// Drops the connection and forgets everything the server said.
    pub fn disconnect(&mut self)
        ensures
            !final(self).connected,
            final(self).state@ == initial_impress(),
            final(self).host == old(self).host,
            final(self).port == old(self).port,
    {
        self.connected = false;
        self.state = ImpressState::default();
    }

    /// Applies one complete server message.
    pub fn handle_message(&mut self, lines: &[String])
        ensures
            final(self).state@ == apply_message(old(self).state@, views(lines@)),
            final(self).connected == old(self).connected,
            final(self).host == old(self).host,
            final(self).port == old(self).port,
    {
        self.state.handle_message(lines);
    }

    /// Takes one line as read from the socket (with its line ending). A
    /// non-empty line joins `pending`; an empty one ends the message in
    /// `pending`, which is then applied and cleared.
    pub fn receive_line(&mut self, pending: &mut Vec<String>, raw: &str)
        ensures
            ({
                let line = strip_newlines(raw@);
                if line.len() == 0 {
                    &&& final(pending)@.len() == 0
                    &&& final(self).state@ == (if old(pending)@.len() > 0 {
                        apply_message(old(self).state@, views(old(pending)@))
                    } else {
                        old(self).state@
                    })
                } else {
                    &&& views(final(pending)@) == views(old(pending)@).push(line)
                    &&& final(self).state@ == old(self).state@
                }
            }),
            final(self).connected == old(self).connected,
            final(self).host == old(self).host,
            final(self).port == old(self).port,
    {
        let line = trim_trailing_newlines(raw);
        if line.unicode_len() == 0 {
            if pending.len() > 0 {
                self.handle_message(pending.as_slice());
                *pending = Vec::new();
            }
        } else {
            let ghost before = views(pending@);
            pending.push(to_owned_string(line));
            assert(views(pending@) =~= before.push(line@));
        }
    }

    /// What the app reports as its connection status.
    pub fn connection_status(&self) -> (r: ConnectionStatus)
        ensures
            match r {
                ConnectionStatus::Connected => self.connected && self.state.paired,
                ConnectionStatus::Connecting => self.connected && !self.state.paired,
                ConnectionStatus::Disconnected => !self.connected,
                ConnectionStatus::Error(_) => false,
            },
    {
        if self.connected {
            if self.state.paired {
                ConnectionStatus::Connected
            } else {
                ConnectionStatus::Connecting
            }
        } else {
            ConnectionStatus::Disconnected
        }
    }

    /// Open when paired, presenting while the slideshow runs.
    pub fn get_presentation_state(&self) -> (r: PresentationState)
        ensures
            r.is_open == self.state.paired,
            r.is_presenting == self.state.slideshow_running,
    {
        PresentationState {
            is_open: self.state.paired,
            is_presenting: self.state.slideshow_running,
        }
    }

    /// The slide position, 1-indexed; an error while no slideshow runs.
    pub fn get_slide_info(&self) -> (r: Result<SlideInfo, String>)
        requires
            self.state.current_slide < i32::MAX,
        ensures
            match r {
                Ok(info) => self.state.slideshow_running && info.current == self.state.current_slide
                    + 1 && info.total == self.state.total_slides,
                Err(e) => !self.state.slideshow_running && e@ == no_slideshow_message(),
            },
    {
        if !self.state.slideshow_running {
            return Err(to_owned_string("No slideshow is currently running"));
        }
        Ok(SlideInfo { current: self.state.current_slide + 1, total: self.state.total_slides })
    }

    /// The notes of the current slide, as last sent.
    pub fn get_presenter_notes(&self) -> (r: Option<String>)
        ensures
            match r {
                Some(n) => self.state.presenter_notes matches Some(m) && n@ == m@,
                None => self.state.presenter_notes is None,
            },
    {
        match &self.state.presenter_notes {
            Some(n) => Some(n.clone()),
            None => None,
        }
    }

    /// The open presentations: one generic name when connected, none else.
    pub fn get_open_presentations(&self) -> (r: Vec<String>)
        ensures
            self.connected ==> views(r@) == seq!["LibreOffice Impress"@],
            !self.connected ==> r@.len() == 0,
    {
        let mut v: Vec<String> = Vec::new();
        if self.connected {
            v.push(to_owned_string("LibreOffice Impress"));
            assert(views(v@) =~= seq!["LibreOffice Impress"@]);
        }
        v
    }

    /// The command to send to step the slideshow forward or back, or the
    /// error returned while no slideshow runs.
    pub fn step_command(&self, forward: bool) -> (r: Result<String, String>)
        ensures
            match r {
                Ok(m) => self.state.slideshow_running && m@ == command_message(
                    if forward {
                        "transition_next"@
                    } else {
                        "transition_previous"@
                    },
                ),
                Err(e) => !self.state.slideshow_running && e@ == no_slideshow_message(),
            },
    {
        if !self.state.slideshow_running {
            return Err(to_owned_string("No slideshow is currently running"));
        }
        if forward {
            Ok(command("transition_next"))
        } else {
            Ok(command("transition_previous"))
        }
    }
}

/// `s` without the newlines at its end (`trim_end_matches('\n')`).
pub open spec fn strip_newlines(s: Seq<char>) -> Seq<char>
    decreases s.len(),
{
    if s.len() > 0 && s.last() == '\n' {
        strip_newlines(s.drop_last())
    } else {
        s
    }
}

fn trim_trailing_newlines(s: &str) -> (r: &str)
    ensures
        r@ == strip_newlines(s@),
{
    let n = s.unicode_len();
    let mut j: usize = n;
    proof {
        assert(s@.take(n as int) =~= s@);
    }
    while j > 0 && s.get_char(j - 1) == '\n'
        invariant
            j <= n,
            n == s@.len(),
            strip_newlines(s@.take(j as int)) == strip_newlines(s@),
        decreases j,
    {
        assert(s@.take(j - 1) =~= s@.take(j as int).drop_last());
        j = j - 1;
    }
    proof {
        assert(s@.take(n as int) =~= s@);
    }
    s.substring_char(0, j)
}

/// A command as sent: the text and an empty line.
pub open spec fn command_message(cmd: Seq<char>) -> Seq<char> {
    cmd + seq!['\n', '\n']
}

/// Frames a command for sending.
pub fn command(cmd: &str) -> (r: String)
    ensures
        r@ == command_message(cmd@),
{
    let mut r = to_owned_string(cmd);
    push_char(&mut r, '\n');
    push_char(&mut r, '\n');
    assert(r@ =~= command_message(cmd@));
    r
}

/// `pin` written with at least four digits, zeros in front (`{:04}`).
pub open spec fn pin_text(pin: nat) -> Seq<char> {
    let d = decimal(pin);
    if d.len() < 4 {
        Seq::new((4 - d.len()) as nat, |i: int| '0') + d
    } else {
        d
    }
}

/// The pairing request for `pin`.
pub open spec fn pairing_text(pin: nat) -> Seq<char> {
    "LO_SERVER_CLIENT_PAIR"@ + seq!['\n'] + client_name() + seq!['\n'] + pin_text(pin) + seq![
        '\n',
        '\n',
    ]
}

/// The pairing request the client sends first.
pub fn pairing_message(pin: u16) -> (r: String)
    ensures
        r@ == pairing_text(pin as nat),
{
    let mut r = to_owned_string("LO_SERVER_CLIENT_PAIR");
    push_char(&mut r, '\n');
    push_str(&mut r, "SherPresent");
    push_char(&mut r, '\n');
    let digits = u64_to_decimal(pin as u64);
    let n = digits.as_str().unicode_len();
    let mut k: usize = n;
    let ghost pad_start = r@;
    while k < 4
        invariant
            n <= k,
            k <= 4 || k == n,
            r@ == pad_start + Seq::new((k - n) as nat, |i: int| '0'),
        decreases 4 - k,
    {
        push_char(&mut r, '0');
        assert(Seq::new((k + 1 - n) as nat, |i: int| '0') =~= Seq::new(
            (k - n) as nat,
            |i: int| '0',
        ).push('0'));
        k = k + 1;
    }
    push_str(&mut r, digits.as_str());
    push_char(&mut r, '\n');
    push_char(&mut r, '\n');
    proof {
        reveal_strlit("SherPresent");
        if n >= 4 {
            assert(Seq::new(0, |i: int| '0') =~= Seq::<char>::empty());
        }
        assert(r@ =~= pairing_text(pin as nat));
    }
    r
}

/// The pin drawn from the sub-second part of the clock, `nanos`.
pub fn pin_from_nanos(nanos: u32) -> (r: u16)
    ensures
        r == 1000 + nanos % 9000,
        1000 <= r <= 9999,
{
    (1000 + nanos % 9000) as u16
}

/// Nanoseconds past the current second of the system clock
/// (`SystemTime::now().duration_since(UNIX_EPOCH)` then `subsec_nanos`).
/// Verus learns nothing of the value: it changes with the clock.
#[verifier::external_body]
fn clock_subsec_nanos() -> (r: u32) {
    match std::time::SystemTime::now().duration_since(std::time::UNIX_EPOCH) {
        Ok(d) => d.subsec_nanos(),
        Err(e) => e.duration().subsec_nanos(),
    }
}

/// A 4-digit pairing pin drawn from the clock.
pub fn rand_pin() -> (r: u16)
    ensures
        1000 <= r <= 9999,
{
    pin_from_nanos(clock_subsec_nanos())
}

/// A message whose first line is none of the kinds the protocol defines
/// (or an empty message) leaves the state as it was.
pub proof fn unknown_message_changes_nothing(s: ImpressView, lines: Seq<Seq<char>>)
    requires
        lines.len() == 0 || (lines[0] != "LO_SERVER_SERVER_PAIRED"@ && lines[0] != "LO_SERVER_PAIRED"@
            && lines[0] != "slideshow_started"@ && lines[0] != "slideshow_finished"@ && lines[0]
            != "slide_updated"@ && lines[0] != "slide_notes"@),
    ensures
        apply_message(s, lines) == s,
{
}

/// After `slideshow_started` the client is paired and the slideshow runs;
/// after `slideshow_finished` it does not run and pairing is kept; a
/// `slide_updated` whose number does not parse keeps the current slide.
pub proof fn slideshow_lifecycle(s: ImpressView, lines: Seq<Seq<char>>)
    requires
        lines.len() > 0,
    ensures
        lines[0] == "slideshow_started"@ ==> apply_message(s, lines).paired && apply_message(
            s,
            lines,
        ).slideshow_running,
        lines[0] == "slideshow_finished"@ ==> !apply_message(s, lines).slideshow_running
            && apply_message(s, lines).paired == s.paired,
        lines[0] == "slide_updated"@ && lines.len() >= 2 && spec_parse_i32(lines[1]) is None
            ==> apply_message(s, lines).current_slide == s.current_slide,
{
    reveal_strlit("slideshow_started");
    reveal_strlit("slideshow_finished");
    reveal_strlit("slide_updated");
    reveal_strlit("LO_SERVER_SERVER_PAIRED");
    reveal_strlit("LO_SERVER_PAIRED");
    assert("slideshow_started"@.len() == 17 && "slideshow_finished"@.len() == 18
        && "slide_updated"@.len() == 13 && "LO_SERVER_SERVER_PAIRED"@.len() == 23
        && "LO_SERVER_PAIRED"@.len() == 16);
}

/// A `slide_updated` report of slide `n` makes `n` the current slide and
/// changes nothing else; a started slideshow reports its total and its
/// current slide.
pub proof fn reported_slide_is_current(s: ImpressView, lines: Seq<Seq<char>>)
    requires
        lines.len() >= 2,
    ensures
        lines[0] == "slide_updated"@ && spec_parse_i32(lines[1]) is Some ==> apply_message(s, lines)
            == (ImpressView { current_slide: spec_parse_i32(lines[1])->0 as i32, ..s }),
        lines[0] == "slideshow_started"@ && lines.len() >= 3 && spec_parse_i32(lines[1]) is Some
            && spec_parse_i32(lines[2]) is Some ==> apply_message(s, lines).total_slides
            == spec_parse_i32(lines[1])->0 && apply_message(s, lines).current_slide == spec_parse_i32(
            lines[2],
        )->0,
{
    reveal_strlit("slideshow_started");
    reveal_strlit("slideshow_finished");
    reveal_strlit("slide_updated");
    reveal_strlit("LO_SERVER_SERVER_PAIRED");
    reveal_strlit("LO_SERVER_PAIRED");
    assert("slideshow_started"@.len() == 17 && "slideshow_finished"@.len() == 18
        && "slide_updated"@.len() == 13 && "LO_SERVER_SERVER_PAIRED"@.len() == 23
        && "LO_SERVER_PAIRED"@.len() == 16);
}

/// `a` is `b` at the strictly increasing positions `idx`.
pub open spec fn subseq_at(a: Seq<char>, b: Seq<char>, idx: Seq<int>) -> bool {
    &&& idx.len() == a.len()
    &&& forall|k: int| 0 <= k < a.len() ==> 0 <= #[trigger] idx[k] < b.len() && a[k] == b[idx[k]]
    &&& forall|k: int, l: int| 0 <= k < l < a.len() ==> #[trigger] idx[k] < #[trigger] idx[l]
}

proof fn lemma_strip_positions(html: Seq<char>, in_tag: bool) -> (idx: Seq<int>)
    ensures
        subseq_at(strip_tags_from(html, in_tag), html, idx),
    decreases html.len(),
{
    if html.len() == 0 {
        Seq::empty()
    } else {
        let rest = html.drop_first();
        let c = html[0];
        let next = if c == '<' {
            true
        } else if c == '>' {
            false
        } else {
            in_tag
        };
        let r = lemma_strip_positions(rest, next);
        let out_r = strip_tags_from(rest, next);
        let shifted = r.map_values(|x: int| x + 1);
        assert forall|k: int| 0 <= k < out_r.len() implies 0 <= #[trigger] shifted[k] < html.len()
            && out_r[k] == html[shifted[k]] by {
            assert(html[shifted[k]] == rest[r[k]]);
        }
        if c != '<' && c != '>' && !in_tag {
            let idx = seq![0int] + shifted;
            let out = strip_tags_from(html, in_tag);
            assert(out == seq![c] + out_r);
            assert forall|k: int| 0 <= k < out.len() implies 0 <= #[trigger] idx[k] < html.len() && out[k]
                == html[idx[k]] by {
                if k > 0 {
                    assert(idx[k] == shifted[k - 1]);
                    assert(out[k] == out_r[k - 1]);
                }
            }
            assert forall|k: int, l: int| 0 <= k < l < out.len() implies #[trigger] idx[k] < #[trigger] idx[l] by {
                assert(idx[l] == shifted[l - 1]);
                if k > 0 {
                    assert(idx[k] == shifted[k - 1]);
                    assert(r[k - 1] < r[l - 1]);
                } else {
                    assert(0 <= r[l - 1]);
                }
            }
            idx
        } else {
            assert(strip_tags_from(html, in_tag) == out_r);
            assert forall|k: int, l: int| 0 <= k < l < out_r.len() implies #[trigger] shifted[k]
                < #[trigger] shifted[l] by {
                assert(r[k] < r[l]);
            }
            shifted
        }
    }
}

proof fn lemma_strip_plain(html: Seq<char>)
    requires
        forall|i: int| 0 <= i < html.len() ==> #[trigger] html[i] != '<' && html[i] != '>',
    ensures
        strip_tags_from(html, false) == html,
    decreases html.len(),
{
    if html.len() > 0 {
        let rest = html.drop_first();
        assert forall|i: int| 0 <= i < rest.len() implies #[trigger] rest[i] != '<' && rest[i] != '>' by {
            assert(rest[i] == html[i + 1]);
        }
        lemma_strip_plain(rest);
        assert(seq![html[0]] + rest =~= html);
    }
}

/// Whether position `i` of `html` lies inside a tag: the nearest `<` or `>`
/// before it is a `<`.
pub open spec fn inside_tag(html: Seq<char>, i: int) -> bool
    decreases i,
{
    if i <= 0 || i > html.len() {
        false
    } else if html[i - 1] == '<' {
        true
    } else if html[i - 1] == '>' {
        false
    } else {
        inside_tag(html, i - 1)
    }
}

/// The characters of `html` from position `j` on that are no bracket and lie
/// outside every tag, in order.
pub open spec fn text_from(html: Seq<char>, j: int) -> Seq<char>
    decreases html.len() - j,
{
    if j < 0 || j >= html.len() {
        Seq::empty()
    } else if html[j] != '<' && html[j] != '>' && !inside_tag(html, j) {
        seq![html[j]] + text_from(html, j + 1)
    } else {
        text_from(html, j + 1)
    }
}

proof fn lemma_strip_is_text_from(html: Seq<char>, j: int)
    requires
        0 <= j <= html.len(),
    ensures
        strip_tags_from(html.skip(j), inside_tag(html, j)) == text_from(html, j),
    decreases html.len() - j,
{
    if j < html.len() {
        lemma_strip_is_text_from(html, j + 1);
        assert(html.skip(j).drop_first() =~= html.skip(j + 1));
        assert(html.skip(j)[0] == html[j]);
    }
}

/// Stripping tags keeps exactly the characters that are no bracket and whose
/// nearest `<` or `>` before them, if any, is a `>`, in their order.
pub proof fn strip_tags_keeps_text_outside_tags(html: Seq<char>)
    ensures
        strip_tags(html) == text_from(html, 0),
{
    lemma_strip_is_text_from(html, 0);
    assert(html.skip(0) =~= html);
}

/// Stripping tags keeps the other characters in their order: the result is
/// a subsequence of the input, and text holding neither `<` nor `>` comes
/// out unchanged.
pub proof fn strip_tags_keeps_text(html: Seq<char>)
    ensures
        exists|idx: Seq<int>| subseq_at(strip_tags(html), html, idx),
        (forall|i: int| 0 <= i < html.len() ==> #[trigger] html[i] != '<' && html[i] != '>') ==> strip_tags(html)
            == html,
{
    let idx = lemma_strip_positions(html, false);
    assert(subseq_at(strip_tags(html), html, idx));
    if forall|i: int| 0 <= i < html.len() ==> #[trigger] html[i] != '<' && html[i] != '>' {
        lemma_strip_plain(html);
    }
}


/// Text without tags holds no angle brackets.
pub proof fn strip_tags_removes_brackets(html: Seq<char>, in_tag: bool)
    ensures
        forall|i: int|
            0 <= i < strip_tags_from(html, in_tag).len() ==> #[trigger] strip_tags_from(html, in_tag)[i]
                != '<' && strip_tags_from(html, in_tag)[i] != '>',
    decreases html.len(),
{
    if html.len() > 0 {
        let rest = html.drop_first();
        strip_tags_removes_brackets(rest, true);
        strip_tags_removes_brackets(rest, false);
        let c = html[0];
        let out = strip_tags_from(html, in_tag);
        if c == '<' {
            assert(out == strip_tags_from(rest, true));
        } else if c == '>' {
            assert(out == strip_tags_from(rest, false));
        } else if !in_tag {
            let r = strip_tags_from(rest, false);
            assert(out == seq![c] + r);
            assert forall|i: int| 0 <= i < out.len() implies #[trigger] out[i] != '<' && out[i]
                != '>' by {
                if i > 0 {
                    assert(out[i] == r[i - 1]);
                }
            }
        } else {
            assert(out == strip_tags_from(rest, true));
        }
    }
}

} // verus!

//! The oscpoint OSC schema the bridge speaks: the commands it sends to
//! desktops, and the feedback it caches from them.
//!
//! | Bridge → Desktop        | Args    |
//! |-------------------------|---------|
//! | `/oscpoint/next`        | (none)  |
//! | `/oscpoint/previous`    | (none)  |
//! | `/oscpoint/goto/slide`  | int (n) |
//!
//! Feedback (desktop → bridge): `/oscpoint/slideshow/currentslide` (int),
//! `/oscpoint/slideshow/slidecount` (int), `/oscpoint/presentation/name`
//! (string), `/oscpoint/slideshow/notes` (string), `/oscpoint/v2/event`
//! (string) and the `/oscpoint/state/...` family (bool).

use vstd::prelude::*;
use crate::split::{last_piece, last_piece_of};
use crate::text::{has_prefix, starts_with, str_eq};
use vstd::string::*;

verus! {

pub const NEXT: &'static str = "/oscpoint/next";

pub const PREVIOUS: &'static str = "/oscpoint/previous";

pub const GOTO_SLIDE: &'static str = "/oscpoint/goto/slide";

pub const CURRENT_SLIDE: &'static str = "/oscpoint/slideshow/currentslide";

pub const SLIDE_COUNT: &'static str = "/oscpoint/slideshow/slidecount";

pub const PRESENTATION_NAME: &'static str = "/oscpoint/presentation/name";

pub const SLIDESHOW_NOTES: &'static str = "/oscpoint/slideshow/notes";

/// Lifecycle event address (oscpoint v2).
pub const V2_EVENT: &'static str = "/oscpoint/v2/event";

/// State broadcast prefix (oscpoint v2).
pub const V2_STATE_PREFIX: &'static str = "/oscpoint/state/";

/// `address` is one of the feedback paths the bridge consumes.
pub open spec fn known_address(address: Seq<char>) -> bool {
    ||| address == CURRENT_SLIDE@
    ||| address == SLIDE_COUNT@
    ||| address == PRESENTATION_NAME@
    ||| address == SLIDESHOW_NOTES@
    ||| address == V2_EVENT@
    ||| has_prefix(address, V2_STATE_PREFIX@)
}

/// Whether `address` belongs to the oscpoint feedback paths we consume.
pub fn is_known(address: &str) -> (r: bool)
    ensures
        r == known_address(address@),
{
    str_eq(address, CURRENT_SLIDE) || str_eq(address, SLIDE_COUNT) || str_eq(
        address,
        PRESENTATION_NAME,
    ) || str_eq(address, SLIDESHOW_NOTES) || str_eq(address, V2_EVENT) || starts_with(
        address,
        V2_STATE_PREFIX,
    )
}

// ---------------------------------------------------------------------------
// Messages
// ---------------------------------------------------------------------------

/// One OSC argument, as far as the feedback cache reads it. `Real` stands
/// for a float or double and carries its value converted to `i32`.
#[derive(Debug)]
pub enum OscArg {
    Int(i32),
    Long(i64),
    Real(i32),
    Str(String),
    Bool(bool),
    Other,
}

/// An OSC message: an address and its arguments.
#[derive(Debug)]
pub struct OscMessage {
    pub addr: String,
    pub args: Vec<OscArg>,
}

/// An OSC packet: a message, or a bundle of packets.
#[derive(Debug)]
pub enum OscPacket {
    Message(OscMessage),
    Bundle(Vec<OscPacket>),
}

/// The argument read as an integer.
pub open spec fn arg_int(a: OscArg) -> Option<i32> {
    match a {
        OscArg::Int(v) => Some(v),
        OscArg::Long(v) => Some(v as i32),
        OscArg::Real(v) => Some(v),
        _ => None,
    }
}

/// The argument read as a boolean (a non-zero int is true).
pub open spec fn arg_bool(a: OscArg) -> Option<bool> {
    match a {
        OscArg::Bool(b) => Some(b),
        OscArg::Int(v) => Some(v != 0),
        _ => None,
    }
}

/// The argument read as text.
pub open spec fn arg_text(a: OscArg) -> Option<Seq<char>> {
    match a {
        OscArg::Str(s) => Some(s@),
        _ => None,
    }
}

pub open spec fn first_int(args: Seq<OscArg>) -> Option<i32> {
    if args.len() > 0 {
        arg_int(args[0])
    } else {
        None
    }
}

pub open spec fn first_bool(args: Seq<OscArg>) -> Option<bool> {
    if args.len() > 0 {
        arg_bool(args[0])
    } else {
        None
    }
}

pub open spec fn first_text(args: Seq<OscArg>) -> Option<Seq<char>> {
    if args.len() > 0 {
        arg_text(args[0])
    } else {
        None
    }
}

impl OscArg {
    /// The argument as an integer, if it is numeric.
    pub fn as_int(&self) -> (r: Option<i32>)
        ensures
            r == arg_int(*self),
    {
        match self {
            OscArg::Int(v) => Some(*v),
            OscArg::Long(v) => Some(*v as i32),
            OscArg::Real(v) => Some(*v),
            _ => None,
        }
    }

    /// The argument as a boolean.
    pub fn as_bool(&self) -> (r: Option<bool>)
        ensures
            r == arg_bool(*self),
    {
        match self {
            OscArg::Bool(b) => Some(*b),
            OscArg::Int(v) => Some(*v != 0),
            _ => None,
        }
    }

    /// The argument as text.
    pub fn as_string(&self) -> (r: Option<String>)
        ensures
            match r {
                Some(s) => arg_text(*self) == Some(s@),
                None => arg_text(*self) is None,
            },
    {
        match self {
            OscArg::Str(s) => Some(s.clone()),
            _ => None,
        }
    }
}

/// The messages a packet holds, bundles opened in order.
pub open spec fn packet_messages(p: OscPacket) -> Seq<OscMessage>
    decreases p,
{
    match p {
        OscPacket::Message(m) => seq![m],
        OscPacket::Bundle(v) => packets_messages(v@),
    }
}

/// The messages of several packets, in order.
pub open spec fn packets_messages(ps: Seq<OscPacket>) -> Seq<OscMessage>
    decreases ps,
{
    if ps.len() == 0 {
        Seq::empty()
    } else {
        packets_messages(ps.drop_last()) + packet_messages(ps.last())
    }
}

/// The messages of `packet`, bundles opened recursively, in order.
pub fn packet_into_messages(packet: OscPacket) -> (r: Vec<OscMessage>)
    ensures
        r@ == packet_messages(packet),
    decreases packet,
{
    match packet {
        OscPacket::Message(m) => {
            let mut v = Vec::new();
            v.push(m);
            assert(v@ =~= seq![m]);
            v
        },
        OscPacket::Bundle(ps) => {
            let ghost whole = ps@;
            let mut ps = ps;
            let mut tail: Vec<Vec<OscMessage>> = Vec::new();
            while ps.len() > 0
                invariant
                    ps@.len() <= whole.len(),
                    ps@ == whole.take(ps@.len() as int),
                    forall|j: int| 0 <= j < ps@.len() ==> decreases_to!(packet => #[trigger] ps@[j]),
                    packets_messages(whole) == packets_messages(ps@) + flatten_rev(tail@),
                decreases ps@.len(),
            {
                let ghost before = ps@;
                let last = ps.pop().unwrap();
                assert(before.drop_last() =~= ps@);
                assert(ps@ =~= whole.take(ps@.len() as int));
                let msgs = packet_into_messages(last);
                let ghost old_tail = tail@;
                tail.push(msgs);
                assert(flatten_rev(tail@) =~= packet_messages(last) + flatten_rev(old_tail)) by {
                    assert(tail@.drop_last() =~= old_tail);
                }
            }
            let mut out: Vec<OscMessage> = Vec::new();
            let mut tail = tail;
            while tail.len() > 0
                invariant
                    packets_messages(whole) == out@ + flatten_rev(tail@),
                decreases tail@.len(),
            {
                let ghost before = tail@;
                let mut chunk = tail.pop().unwrap();
                assert(before.drop_last() =~= tail@);
                let ghost prev_out = out@;
                out.append(&mut chunk);
                assert(out@ + flatten_rev(tail@) =~= prev_out + flatten_rev(before));
            }
            assert(out@ + flatten_rev(tail@) =~= out@);
            out
        },
    }
}

/// The chunks joined from the last to the first.
pub open spec fn flatten_rev(chunks: Seq<Vec<OscMessage>>) -> Seq<OscMessage>
    decreases chunks.len(),
{
    if chunks.len() == 0 {
        Seq::empty()
    } else {
        chunks.last()@ + flatten_rev(chunks.drop_last())
    }
}

// ---------------------------------------------------------------------------
// Feedback cache
// ---------------------------------------------------------------------------

/// The latest feedback received from any desktop. Times are milliseconds
/// since the Unix epoch, UTC.
#[derive(Debug)]
pub struct FeedbackState {
    pub presenting: Option<bool>,
    pub open: Option<bool>,
    /// 1-indexed visible slide.
    pub current_slide: Option<i32>,
    pub slide_count: Option<i32>,
    pub presentation_name: Option<String>,
    pub slide_notes: Option<String>,
    pub last_updated: Option<i64>,
    /// Short name of the last command sent.
    pub last_command: Option<String>,
    pub last_command_time: Option<i64>,
}

/// Optional text by its view.
pub open spec fn opt_text(o: Option<String>) -> Option<Seq<char>> {
    match o {
        Some(s) => Some(s@),
        None => None,
    }
}

/// The tail of a `/oscpoint/state/...` address.
pub open spec fn state_tail(address: Seq<char>) -> Seq<char> {
    address.skip(V2_STATE_PREFIX@.len() as int)
}

/// The feedback addresses that change the cache.
pub open spec fn updating_address(address: Seq<char>) -> bool {
    ||| address == CURRENT_SLIDE@
    ||| address == SLIDE_COUNT@
    ||| address == PRESENTATION_NAME@
    ||| address == SLIDESHOW_NOTES@
    ||| (has_prefix(address, V2_STATE_PREFIX@) && (state_tail(address) == "presenting"@
        || state_tail(address) == "open"@))
}

/// How a message changes the cache at time `now`: the addressed field takes
/// the first argument (or nothing), and the update time is stamped; other
/// messages change nothing.
pub open spec fn applied(
    old: FeedbackState,
    new: FeedbackState,
    msg: OscMessage,
    now: i64,
    changed: bool,
) -> bool {
    let a = msg.addr@;
    let args = msg.args@;
    &&& changed == updating_address(a)
    &&& new.current_slide == (if a == CURRENT_SLIDE@ {
        first_int(args)
    } else {
        old.current_slide
    })
    &&& new.slide_count == (if a == SLIDE_COUNT@ {
        first_int(args)
    } else {
        old.slide_count
    })
    &&& opt_text(new.presentation_name) == (if a == PRESENTATION_NAME@ {
        first_text(args)
    } else {
        opt_text(old.presentation_name)
    })
    &&& opt_text(new.slide_notes) == (if a == SLIDESHOW_NOTES@ {
        first_text(args)
    } else {
        opt_text(old.slide_notes)
    })
    &&& new.presenting == (if has_prefix(a, V2_STATE_PREFIX@) && state_tail(a) == "presenting"@ {
        first_bool(args)
    } else {
        old.presenting
    })
    &&& new.open == (if has_prefix(a, V2_STATE_PREFIX@) && state_tail(a) == "open"@ {
        first_bool(args)
    } else {
        old.open
    })
    &&& new.last_updated == (if changed {
        Some(now)
    } else {
        old.last_updated
    })
    &&& opt_text(new.last_command) == opt_text(old.last_command)
    &&& new.last_command_time == old.last_command_time
}

fn first_arg_int(args: &Vec<OscArg>) -> (r: Option<i32>)
    ensures
        r == first_int(args@),
{
    if args.len() > 0 {
        args[0].as_int()
    } else {
        None
    }
}

fn first_arg_bool(args: &Vec<OscArg>) -> (r: Option<bool>)
    ensures
        r == first_bool(args@),
{
    if args.len() > 0 {
        args[0].as_bool()
    } else {
        None
    }
}

fn first_arg_text(args: &Vec<OscArg>) -> (r: Option<String>)
    ensures
        opt_text(r) == first_text(args@),
{
    if args.len() > 0 {
        args[0].as_string()
    } else {
        None
    }
}

/// Milliseconds since the Unix epoch by the system clock, UTC, as chrono
/// counts them (`DateTime::from_timestamp(..).timestamp_millis()` of
/// `SystemTime::now()`); 0 when the clock is set before the epoch or beyond
/// chrono's range. Nothing is claimed of the value: it is the time.
#[verifier::external_body]
pub(crate) fn utc_now_millis() -> (r: i64) {
    let now = match std::time::SystemTime::now().duration_since(std::time::UNIX_EPOCH) {
        Ok(d) => chrono::DateTime::from_timestamp(d.as_secs() as i64, d.subsec_nanos()),
        Err(_) => None,
    };
    match now {
        Some(t) => t.timestamp_millis(),
        None => 0,
    }
}

/// The fixed feedback addresses differ from each other and none of them
/// lies under the state prefix.
pub proof fn lemma_feedback_addresses()
    ensures
        !has_prefix(CURRENT_SLIDE@, V2_STATE_PREFIX@),
        !has_prefix(SLIDE_COUNT@, V2_STATE_PREFIX@),
        !has_prefix(PRESENTATION_NAME@, V2_STATE_PREFIX@),
        !has_prefix(SLIDESHOW_NOTES@, V2_STATE_PREFIX@),
        CURRENT_SLIDE@ != SLIDE_COUNT@,
        CURRENT_SLIDE@ != PRESENTATION_NAME@,
        CURRENT_SLIDE@ != SLIDESHOW_NOTES@,
        SLIDE_COUNT@ != PRESENTATION_NAME@,
        SLIDE_COUNT@ != SLIDESHOW_NOTES@,
        PRESENTATION_NAME@ != SLIDESHOW_NOTES@,
        "presenting"@ != "open"@,
{
    reveal_strlit("/oscpoint/state/");
    reveal_strlit("/oscpoint/slideshow/currentslide");
    reveal_strlit("/oscpoint/slideshow/slidecount");
    reveal_strlit("/oscpoint/presentation/name");
    reveal_strlit("/oscpoint/slideshow/notes");
    reveal_strlit("presenting");
    reveal_strlit("open");
    let p = V2_STATE_PREFIX@;
    assert(CURRENT_SLIDE@.take(16)[11] != p[11]);
    assert(SLIDE_COUNT@.take(16)[11] != p[11]);
    assert(PRESENTATION_NAME@.take(16)[11] != p[11]);
    assert(SLIDESHOW_NOTES@.take(16)[11] != p[11]);
    assert(CURRENT_SLIDE@.len() != SLIDE_COUNT@.len());
    assert(CURRENT_SLIDE@.len() != PRESENTATION_NAME@.len());
    assert(CURRENT_SLIDE@.len() != SLIDESHOW_NOTES@.len());
    assert(SLIDE_COUNT@.len() != PRESENTATION_NAME@.len());
    assert(SLIDE_COUNT@.len() != SLIDESHOW_NOTES@.len());
    assert(PRESENTATION_NAME@.len() != SLIDESHOW_NOTES@.len());
    assert("presenting"@.len() != "open"@.len());
}

impl FeedbackState {
    /// The cache before any feedback.
    pub fn new() -> (r: Self)
        ensures
            r.presenting is None && r.open is None && r.current_slide is None && r.slide_count is None
                && r.presentation_name is None && r.slide_notes is None && r.last_updated is None
                && r.last_command is None && r.last_command_time is None,
    {
        FeedbackState {
            presenting: None,
            open: None,
            current_slide: None,
            slide_count: None,
            presentation_name: None,
            slide_notes: None,
            last_updated: None,
            last_command: None,
            last_command_time: None,
        }
    }

    /// Applies one inbound message at time `now`; returns whether the cache
    /// changed.
    pub fn apply_message_at(&mut self, msg: &OscMessage, now: i64) -> (changed: bool)
        ensures
            applied(*old(self), *final(self), *msg, now, changed),
    {
        proof {
            reveal_strlit("/oscpoint/state/");
            reveal_strlit("/oscpoint/slideshow/currentslide");
            reveal_strlit("/oscpoint/slideshow/slidecount");
            reveal_strlit("/oscpoint/presentation/name");
            reveal_strlit("/oscpoint/slideshow/notes");
            reveal_strlit("presenting");
            reveal_strlit("open");
            lemma_feedback_addresses();
        }
        let a = msg.addr.as_str();
        let changed = if str_eq(a, CURRENT_SLIDE) {
            self.current_slide = first_arg_int(&msg.args);
            true
        } else if str_eq(a, SLIDE_COUNT) {
            self.slide_count = first_arg_int(&msg.args);
            true
        } else if str_eq(a, PRESENTATION_NAME) {
            self.presentation_name = first_arg_text(&msg.args);
            true
        } else if str_eq(a, SLIDESHOW_NOTES) {
            self.slide_notes = first_arg_text(&msg.args);
            true
        } else if starts_with(a, V2_STATE_PREFIX) {
            let n = a.unicode_len();
            let prefix_len = V2_STATE_PREFIX.unicode_len();
            let tail = a.substring_char(prefix_len, n);
            assert(tail@ =~= state_tail(a@));
            if str_eq(tail, "presenting") {
                self.presenting = first_arg_bool(&msg.args);
                true
            } else if str_eq(tail, "open") {
                self.open = first_arg_bool(&msg.args);
                true
            } else {
                false
            }
        } else {
            false
        };
        if changed {
            self.last_updated = Some(now);
        }
        changed
    }

    /// Applies one inbound message, stamped with the current time.
    pub fn apply_message(&mut self, msg: &OscMessage) -> (changed: bool)
        ensures
            exists|now: i64| applied(*old(self), *final(self), *msg, now, changed),
    {
        let now = utc_now_millis();
        self.apply_message_at(msg, now)
    }

    /// Takes one received message at time `now`: a known feedback address is
    /// applied, others are ignored. Returns whether the cache changed, which
    /// is when an update is broadcast.
    pub fn receive_at(&mut self, msg: &OscMessage, now: i64) -> (changed: bool)
        ensures
            known_address(msg.addr@) ==> applied(*old(self), *final(self), *msg, now, changed),
            !known_address(msg.addr@) ==> !changed && *final(self) == *old(self),
    {
        if is_known(msg.addr.as_str()) {
            self.apply_message_at(msg, now)
        } else {
            false
        }
    }

    /// Records the command that just left the bridge at time `now`: its last
    /// path segment and the time.
    pub fn remember_outgoing_command_at(&mut self, address: &str, now: i64)
        ensures
            opt_text(final(self).last_command) == Some(last_piece(address@, '/', '/')),
            final(self).last_command_time == Some(now),
            final(self).presenting == old(self).presenting,
            final(self).open == old(self).open,
            final(self).current_slide == old(self).current_slide,
            final(self).slide_count == old(self).slide_count,
            opt_text(final(self).presentation_name) == opt_text(old(self).presentation_name),
            opt_text(final(self).slide_notes) == opt_text(old(self).slide_notes),
            final(self).last_updated == old(self).last_updated,
    {
        self.last_command = Some(last_piece_of(address, '/', '/'));
        self.last_command_time = Some(now);
    }

    /// Records the command that just left the bridge, stamped now.
    pub fn remember_outgoing_command(&mut self, address: &str)
        ensures
            opt_text(final(self).last_command) == Some(last_piece(address@, '/', '/')),
            final(self).last_command_time is Some,
            final(self).presenting == old(self).presenting,
            final(self).open == old(self).open,
            final(self).current_slide == old(self).current_slide,
            final(self).slide_count == old(self).slide_count,
            opt_text(final(self).presentation_name) == opt_text(old(self).presentation_name),
            opt_text(final(self).slide_notes) == opt_text(old(self).slide_notes),
            final(self).last_updated == old(self).last_updated,
    {
        let now = utc_now_millis();
        self.remember_outgoing_command_at(address, now)
    }
}

// ---------------------------------------------------------------------------
// Outgoing commands
// ---------------------------------------------------------------------------

/// A command the bridge sends to a desktop.
#[derive(Debug, Clone, Copy, PartialEq, Eq, Structural)]
pub enum OscCommand {
    Next,
    Previous,
    Goto(i32),
}

/// The address of a command.
pub open spec fn command_address(c: OscCommand) -> Seq<char> {
    match c {
        OscCommand::Next => NEXT@,
        OscCommand::Previous => PREVIOUS@,
        OscCommand::Goto(_) => GOTO_SLIDE@,
    }
}

/// The int arguments of a command.
pub open spec fn command_args(c: OscCommand) -> Seq<i32> {
    match c {
        OscCommand::Goto(n) => seq![n],
        _ => Seq::empty(),
    }
}

/// `b` followed by NUL bytes up to the next multiple of four, at least one
/// (an OSC string).
pub open spec fn nul_padded(b: Seq<u8>) -> Seq<u8> {
    let n: int = b.len() as int + 1;
    let padded: int = if n % 4 == 0 {
        n
    } else {
        n + (4 - n % 4)
    };
    b + Seq::new((padded - b.len()) as nat, |_i: int| 0u8)
}

/// The four big-endian bytes of `v` in two's complement.
pub open spec fn be_bytes(v: i32) -> Seq<u8> {
    let u: int = if v < 0 {
        v + 0x1_0000_0000
    } else {
        v as int
    };
    seq![(u / 0x100_0000) as u8, ((u / 0x1_0000) % 256) as u8, ((u / 256) % 256) as u8, (u % 256) as u8]
}

/// The big-endian bytes of each of `args`, in order.
pub open spec fn be_all(args: Seq<i32>) -> Seq<u8>
    decreases args.len(),
{
    if args.len() == 0 {
        Seq::empty()
    } else {
        be_all(args.drop_last()) + be_bytes(args.last())
    }
}

/// The bytes `rosc` encodes for a message with address `addr` and int
/// arguments `args`: the address in UTF-8 as an OSC string, the type tags
/// `,i..i` (one `i` per argument) as an OSC string, then each argument as
/// four big-endian bytes.
pub open spec fn osc_message_bytes(addr: Seq<char>, args: Seq<i32>) -> Seq<u8> {
    nul_padded(vstd::utf8::encode_utf8(addr)) + nul_padded(seq![44u8] + Seq::new(args.len(), |_i: int| 105u8))
        + be_all(args)
}

/// Encodes a message of int arguments with `rosc::encoder::encode`. The
/// crate's source shows that encoding into a `Vec` always succeeds.
#[verifier::external_body]
fn encode_int_message(addr: &str, args: &Vec<i32>) -> (r: Vec<u8>)
    ensures
        r@ == osc_message_bytes(addr@, args@),
{
    let packet = rosc::OscPacket::Message(rosc::OscMessage {
        addr: addr.to_string(),
        args: args.iter().map(|v| rosc::OscType::Int(*v)).collect(),
    });
    match rosc::encoder::encode(&packet) {
        Ok(bytes) => bytes,
        Err(_) => Vec::new(),
    }
}

/// The address of `cmd`.
pub fn command_address_of(cmd: OscCommand) -> (r: &'static str)
    ensures
        r@ == command_address(cmd),
{
    match cmd {
        OscCommand::Next => NEXT,
        OscCommand::Previous => PREVIOUS,
        OscCommand::Goto(_) => GOTO_SLIDE,
    }
}

/// The datagram that carries `cmd`.
pub fn encode_command(cmd: OscCommand) -> (r: Vec<u8>)
    ensures
        r@ == osc_message_bytes(command_address(cmd), command_args(cmd)),
{
    let mut args: Vec<i32> = Vec::new();
    match cmd {
        OscCommand::Goto(n) => {
            args.push(n);
        },
        _ => {},
    }
    assert(args@ =~= command_args(cmd));
    encode_int_message(command_address_of(cmd), &args)
}

/// How many times each command is transmitted.
pub const SEND_ATTEMPTS: u8 = 3;

/// Every numeric argument (int, long, or a float already taken to `i32`)
/// reads as an integer, a long cut to `i32`; no other argument does.
pub proof fn numeric_args_read_as_int(a: OscArg)
    ensures
        arg_int(a) is Some <==> (a is Int || a is Long || a is Real),
        a matches OscArg::Int(v) ==> arg_int(a) == Some(v),
        a matches OscArg::Real(v) ==> arg_int(a) == Some(v),
        a matches OscArg::Long(v) ==> arg_int(a) == Some(v as i32),
{
}

/// A current-slide or slide-count message whose first argument is a
/// number of any kind (int, long, or a float already taken to `i32`) stores
/// that number, a long cut to `i32`; with any other first argument, or none,
/// the field is cleared.
pub proof fn numeric_feedback_is_stored(
    old: FeedbackState,
    new: FeedbackState,
    msg: OscMessage,
    now: i64,
    changed: bool,
)
    requires
        applied(old, new, msg, now, changed),
        msg.addr@ == CURRENT_SLIDE@ || msg.addr@ == SLIDE_COUNT@,
    ensures
        ({
            let field = if msg.addr@ == CURRENT_SLIDE@ {
                new.current_slide
            } else {
                new.slide_count
            };
            &&& changed
            &&& msg.args@.len() > 0 ==> match msg.args@[0] {
                OscArg::Int(v) => field == Some(v),
                OscArg::Real(v) => field == Some(v),
                OscArg::Long(v) => field == Some(v as i32),
                _ => field is None,
            }
            &&& msg.args@.len() == 0 ==> field is None
        }),
{
    lemma_feedback_addresses();
}

/// `a` and `b` hold the same feedback and the same last command.
pub open spec fn same_feedback(a: FeedbackState, b: FeedbackState) -> bool {
    &&& a.presenting == b.presenting
    &&& a.open == b.open
    &&& a.current_slide == b.current_slide
    &&& a.slide_count == b.slide_count
    &&& opt_text(a.presentation_name) == opt_text(b.presentation_name)
    &&& opt_text(a.slide_notes) == opt_text(b.slide_notes)
    &&& a.last_updated == b.last_updated
    &&& opt_text(a.last_command) == opt_text(b.last_command)
    &&& a.last_command_time == b.last_command_time
}

proof fn lemma_state_address(a: Seq<char>, tail: Seq<char>)
    ensures
        (has_prefix(a, V2_STATE_PREFIX@) && state_tail(a) == tail) <==> a == V2_STATE_PREFIX@ + tail,
{
    let p = V2_STATE_PREFIX@;
    if has_prefix(a, p) && state_tail(a) == tail {
        assert(a =~= a.take(p.len() as int) + a.skip(p.len() as int));
    }
    if a == p + tail {
        assert(a.take(p.len() as int) =~= p);
        assert(a.skip(p.len() as int) =~= tail);
    }
}

/// A feedback message changes the cache exactly when it is addressed to the
/// current slide, the slide count, the presentation name, the notes, or the
/// `presenting` or `open` state. Then the update time is stamped and only
/// the field it addresses takes its first argument (nothing when that is
/// missing or of another type); any other message leaves the cache as it
/// was.
pub proof fn feedback_changes_only_the_addressed_field(
    old: FeedbackState,
    new: FeedbackState,
    msg: OscMessage,
    now: i64,
    changed: bool,
)
    requires
        applied(old, new, msg, now, changed),
    ensures
        ({
            let a = msg.addr@;
            &&& changed <==> (a == CURRENT_SLIDE@ || a == SLIDE_COUNT@ || a == PRESENTATION_NAME@ || a
                == SLIDESHOW_NOTES@ || a == "/oscpoint/state/presenting"@ || a == "/oscpoint/state/open"@)
            &&& !changed ==> same_feedback(old, new)
            &&& changed ==> new.last_updated == Some(now)
            &&& a == "/oscpoint/state/presenting"@ ==> new.presenting == first_bool(msg.args@) && new.open
                == old.open && new.current_slide == old.current_slide && new.slide_count == old.slide_count
            &&& a == "/oscpoint/state/open"@ ==> new.open == first_bool(msg.args@) && new.presenting
                == old.presenting && new.current_slide == old.current_slide && new.slide_count
                == old.slide_count
        }),
{
    reveal_strlit("/oscpoint/state/");
    reveal_strlit("/oscpoint/state/presenting");
    reveal_strlit("/oscpoint/state/open");
    reveal_strlit("presenting");
    reveal_strlit("open");
    lemma_feedback_addresses();
    let a = msg.addr@;
    lemma_state_address(a, "presenting"@);
    lemma_state_address(a, "open"@);
    assert(V2_STATE_PREFIX@ + "presenting"@ =~= "/oscpoint/state/presenting"@);
    assert(V2_STATE_PREFIX@ + "open"@ =~= "/oscpoint/state/open"@);
}

/// Applying the same message twice at the same time leaves the cache as
/// applying it once did.
pub proof fn apply_is_idempotent(
    s0: FeedbackState,
    s1: FeedbackState,
    s2: FeedbackState,
    msg: OscMessage,
    now: i64,
    c1: bool,
    c2: bool,
)
    requires
        applied(s0, s1, msg, now, c1),
        applied(s1, s2, msg, now, c2),
    ensures
        c1 == c2,
        s2.current_slide == s1.current_slide,
        s2.slide_count == s1.slide_count,
        opt_text(s2.presentation_name) == opt_text(s1.presentation_name),
        opt_text(s2.slide_notes) == opt_text(s1.slide_notes),
        s2.presenting == s1.presenting,
        s2.open == s1.open,
        s2.last_updated == s1.last_updated,
{
}

} // verus!

//! Live captions: the audio framing, the language settings of the speech
//! providers, the Apple speech helper's command line and line protocol, and
//! the accumulation of provider events into caption lines.

use vstd::prelude::*;
use vstd::string::*;
use vstd::utf8::encode_utf8;
use crate::adapters::opt_view;
use crate::num::{parse_u32, spec_parse_u32};
use crate::split::{contains_str, contains_text, lines_of, text_lines, first_piece, first_piece_of, split2, split_chars};
use crate::text::{
    join, push_char, utf8_len_is, push_str, str_eq, to_owned_string, trim, trim_str, u64_to_decimal, views,
    decimal, signed_decimal, i64_to_decimal,
};

verus! {

// ---------------------------------------------------------------------------
// Audio framing
// ---------------------------------------------------------------------------

/// Sample rate every provider receives.
pub const TARGET_SAMPLE_RATE: u32 = 16000;

/// Length of one audio chunk in milliseconds.
pub const CHUNK_MS: usize = 100;

/// Samples in one chunk: 100 ms at 16 kHz.
pub const CHUNK_SAMPLES: usize = 1600;

/// Chunks of backlog kept when a session is re-established (one second).
pub const MAX_BACKLOG_CHUNKS: usize = 10;

/// The low byte of a sample's two's-complement bits.
pub open spec fn low_byte(s: i16) -> u8 {
    ((s as u16) % 256) as u8
}

/// The high byte of a sample's two's-complement bits.
pub open spec fn high_byte(s: i16) -> u8 {
    ((s as u16) / 256) as u8
}

/// `samples` as little-endian bytes, two per sample.
pub open spec fn le_bytes(samples: Seq<i16>) -> Seq<u8>
    decreases samples.len(),
{
    if samples.len() == 0 {
        Seq::empty()
    } else {
        le_bytes(samples.drop_last()) + seq![low_byte(samples.last()), high_byte(samples.last())]
    }
}

/// Twice as many bytes as samples.
pub proof fn lemma_le_bytes_len(samples: Seq<i16>)
    ensures
        le_bytes(samples).len() == 2 * samples.len(),
    decreases samples.len(),
{
    if samples.len() > 0 {
        lemma_le_bytes_len(samples.drop_last());
    }
}

/// Encodes 16-bit samples as little-endian bytes for transmission.
pub fn samples_to_le_bytes(samples: &[i16]) -> (r: Vec<u8>)
    ensures
        r@ == le_bytes(samples@),
        r@.len() == 2 * samples@.len(),
{
    let mut bytes: Vec<u8> = Vec::new();
    let mut i: usize = 0;
    while i < samples.len()
        invariant
            i <= samples@.len(),
            bytes@ == le_bytes(samples@.take(i as int)),
        decreases samples.len() - i,
    {
        let s = samples[i];
        let u = s as u16;
        bytes.push((u % 256) as u8);
        bytes.push((u / 256) as u8);
        assert(samples@.take(i + 1).drop_last() =~= samples@.take(i as int));
        i = i + 1;
    }
    proof {
        assert(samples@.take(samples@.len() as int) =~= samples@);
        lemma_le_bytes_len(samples@);
    }
    bytes
}

/// The newest `MAX_BACKLOG_CHUNKS` of `pending` and how many older ones were
/// dropped.
pub fn keep_newest_chunks(pending: Vec<Vec<i16>>) -> (r: (Vec<Vec<i16>>, usize))
    ensures
        pending@.len() <= MAX_BACKLOG_CHUNKS ==> r.0@ == pending@ && r.1 == 0,
        pending@.len() > MAX_BACKLOG_CHUNKS ==> r.1 == pending@.len() - MAX_BACKLOG_CHUNKS
            && r.0@ == pending@.skip(r.1 as int),
{
    if pending.len() <= MAX_BACKLOG_CHUNKS {
        return (pending, 0);
    }
    let dropped = pending.len() - MAX_BACKLOG_CHUNKS;
    let mut pending = pending;
    let kept = pending.split_off(dropped);
    (kept, dropped)
}

// ---------------------------------------------------------------------------
// Language tags
// ---------------------------------------------------------------------------

/// What `str::to_lowercase` returns for `s` (Unicode lowercase mapping).
pub uninterp spec fn lowercase(s: Seq<char>) -> Seq<char>;

/// What `str::to_uppercase` returns for `s` (Unicode uppercase mapping).
pub uninterp spec fn uppercase(s: Seq<char>) -> Seq<char>;

/// What `char::to_uppercase` yields for `c`, collected into text.
pub uninterp spec fn char_uppercase(c: char) -> Seq<char>;

/// `str::to_lowercase`.
#[verifier::external_body]
pub(crate) fn to_lowercase(s: &str) -> (r: String)
    ensures
        r@ == lowercase(s@),
{
    s.to_lowercase()
}

/// `str::to_uppercase`.
#[verifier::external_body]
fn to_uppercase(s: &str) -> (r: String)
    ensures
        r@ == uppercase(s@),
{
    s.to_uppercase()
}

/// `char::to_uppercase`, collected into a `String`.
#[verifier::external_body]
fn char_to_uppercase(c: char) -> (r: String)
    ensures
        r@ == char_uppercase(c),
{
    c.to_uppercase().to_string()
}

/// The primary subtag of a language tag, lowercased: the trimmed tag up to
/// the first `-` or `_`.
pub open spec fn primary_subtag(tag: Seq<char>) -> Seq<char> {
    lowercase(first_piece(trim(tag), '-', '_'))
}

/// Two tags name the same language, ignoring region: equal non-empty
/// primary subtags.
pub open spec fn same_language_spec(a: Seq<char>, b: Seq<char>) -> bool {
    primary_subtag(a).len() > 0 && primary_subtag(a) == primary_subtag(b)
}

fn primary(tag: &str) -> (r: String)
    ensures
        r@ == primary_subtag(tag@),
{
    let head = first_piece_of(trim_str(tag), '-', '_');
    to_lowercase(head.as_str())
}

/// Whether two BCP-47 tags name the same language, ignoring region.
pub fn same_language(a: &str, b: &str) -> (r: bool)
    ensures
        r == same_language_spec(a@, b@),
{
    let pa = primary(a);
    let pb = primary(b);
    pa.as_str().unicode_len() > 0 && str_eq(pa.as_str(), pb.as_str())
}

/// The non-empty pieces of `s` split at `-` and `_`.
pub open spec fn subtags(s: Seq<char>) -> Seq<Seq<char>> {
    split2(s, '-', '_').filter(|p: Seq<char>| p.len() > 0)
}

/// One subtag after the primary, in conventional case: two UTF-8 bytes is a
/// region (upper case), four a script (first letter upper, rest lower),
/// anything else unchanged.
pub open spec fn normalize_subtag(part: Seq<char>) -> Seq<char> {
    if encode_utf8(part).len() == 2 {
        uppercase(part)
    } else if encode_utf8(part).len() == 4 {
        char_uppercase(part[0]) + lowercase(part.drop_first())
    } else {
        part
    }
}

/// The rest of a normalized tag: each later subtag after a `-`.
pub open spec fn normalized_rest(parts: Seq<Seq<char>>) -> Seq<char>
    decreases parts.len(),
{
    if parts.len() == 0 {
        Seq::empty()
    } else {
        normalized_rest(parts.drop_last()) + seq!['-'] + normalize_subtag(parts.last())
    }
}

/// A tag typed by an operator, in the casing Apple's frameworks expect:
/// lowercase language, then the later subtags joined by `-`.
pub open spec fn normalized_tag(raw: Seq<char>) -> Seq<char> {
    let parts = subtags(trim(raw));
    if parts.len() == 0 {
        Seq::empty()
    } else {
        lowercase(parts[0]) + normalized_rest(parts.drop_first())
    }
}

fn normalize_part(part: &str) -> (r: String)
    requires
        part@.len() > 0,
    ensures
        r@ == normalize_subtag(part@),
{
    if utf8_len_is(part, 2) {
        to_uppercase(part)
    } else if utf8_len_is(part, 4) {
        let n = part.unicode_len();
        let mut out = char_to_uppercase(part.get_char(0));
        let rest = to_lowercase(part.substring_char(1, n));
        assert(part@.subrange(1, n as int) =~= part@.drop_first());
        push_str(&mut out, rest.as_str());
        out
    } else {
        to_owned_string(part)
    }
}

/// Normalizes an operator-typed BCP-47 tag ("EN", " fr ", "en-us").
pub fn normalize_lang(raw: &str) -> (r: String)
    ensures
        r@ == normalized_tag(raw@),
{
    let trimmed = trim_str(raw);
    let pieces = split_chars(trimmed, '-', '_');
    let ghost all = pieces@.map_values(|x: String| x@);
    let ghost f = |p: Seq<char>| p.len() > 0;
    let mut out = String::new();
    let mut seen: usize = 0;
    let mut i: usize = 0;
    while i < pieces.len()
        invariant
            i <= pieces.len(),
            all == pieces@.map_values(|x: String| x@),
            all == split2(trimmed@, '-', '_'),
            f == (|p: Seq<char>| p.len() > 0),
            seen == all.take(i as int).filter(f).len(),
            seen == 0 ==> out@.len() == 0,
            seen > 0 ==> out@ == lowercase(all.take(i as int).filter(f)[0]) + normalized_rest(
                all.take(i as int).filter(f).drop_first(),
            ),
        decreases pieces.len() - i,
    {
        let ghost before = all.take(i as int).filter(f);
        let ghost after = all.take(i + 1).filter(f);
        proof {
            assert(all.take(i + 1).drop_last() =~= all.take(i as int));
            assert(all.take(i + 1).last() == all[i as int]);
            all.take(i as int).lemma_filter_push(all[i as int], f);
            assert(all.take(i as int).push(all[i as int]) =~= all.take(i + 1));
        }
        let part = pieces[i].as_str();
        assert(part@ == all[i as int]);
        if part.unicode_len() > 0 {
            assert(after == before.push(part@));
            if seen == 0 {
                out = to_lowercase(part);
                assert(after =~= seq![part@]);
                assert(after.drop_first() =~= Seq::<Seq<char>>::empty());
                assert(out@ =~= lowercase(after[0]) + normalized_rest(after.drop_first()));
            } else {
                push_char(&mut out, '-');
                let norm = normalize_part(part);
                push_str(&mut out, norm.as_str());
                assert(after.drop_first() =~= before.drop_first().push(part@));
                assert(after[0] == before[0]);
                assert(after.drop_first().drop_last() =~= before.drop_first());
            }
            seen = seen + 1;
        } else {
            assert(after == before);
        }
        i = i + 1;
    }
    proof {
        assert(all.take(pieces.len() as int) =~= all);
    }
    out
}

// ---------------------------------------------------------------------------
// Provider settings
// ---------------------------------------------------------------------------

/// Runtime settings handed to a provider.
#[derive(Debug, Clone)]
pub struct ProviderConfig {
    pub api_key: String,
    /// BCP-47 target language, e.g. "fr".
    pub target_language: String,
    /// BCP-47 source language, or `None` to let the provider auto-detect.
    pub source_language: Option<String>,
}

/// The source language of a config, `""` when unset.
pub open spec fn source_text(c: ProviderConfig) -> Seq<char> {
    match c.source_language {
        Some(s) => s@,
        None => Seq::empty(),
    }
}

pub open spec fn auto_detect_message() -> Seq<char> {
    "The Apple provider cannot auto-detect the spoken language. Set a Spoken Language (for example en-US) in Settings."@
}

pub open spec fn target_missing_message() -> Seq<char> {
    "Set a Target Language in Settings."@
}

/// Rejects an Apple config that cannot start: the source language must be
/// set (Apple cannot auto-detect), and the target too.
pub fn validate_apple_config(config: &ProviderConfig) -> (r: Result<(), String>)
    ensures
        match r {
            Ok(_) => trim(source_text(*config)).len() > 0 && trim(config.target_language@).len() > 0,
            Err(e) => if trim(source_text(*config)).len() == 0 {
                e@ == auto_detect_message()
            } else {
                trim(config.target_language@).len() == 0 && e@ == target_missing_message()
            },
        },
{
    let source = match &config.source_language {
        Some(s) => trim_str(s.as_str()),
        None => trim_str(""),
    };
    proof {
        reveal_strlit("");
    }
    if source.unicode_len() == 0 {
        return Err(
            to_owned_string(
                "The Apple provider cannot auto-detect the spoken language. Set a Spoken Language (for example en-US) in Settings.",
            ),
        );
    }
    if trim_str(config.target_language.as_str()).unicode_len() == 0 {
        return Err(to_owned_string("Set a Target Language in Settings."));
    }
    Ok(())
}

/// Wire protocol version of the speech helper.
pub const SPEECH_PROTOCOL_VERSION: u32 = 1;

/// The helper's arguments for a config.
pub open spec fn sidecar_args(source: Seq<char>, target: Seq<char>) -> Seq<Seq<char>> {
    let s = normalized_tag(source);
    let t = normalized_tag(target);
    let base = seq![
        "--protocol"@,
        "1"@,
        "--source"@,
        s,
        "--target"@,
        t,
        "--sample-rate"@,
        "16000"@,
        "--channels"@,
        "1"@,
        "--format"@,
        "s16le"@,
    ];
    if same_language_spec(s, t) {
        base.push("--no-translate"@)
    } else {
        base
    }
}

fn push_owned(v: &mut Vec<String>, s: &str)
    ensures
        views(final(v)@) == views(old(v)@).push(s@),
{
    let ghost before = views(v@);
    v.push(to_owned_string(s));
    assert(views(v@) =~= before.push(s@));
}

/// The speech helper's argument vector for a session.
pub fn build_args(config: &ProviderConfig) -> (r: Vec<String>)
    ensures
        views(r@) == sidecar_args(source_text(*config), config.target_language@),
{
    let source = match &config.source_language {
        Some(s) => normalize_lang(s.as_str()),
        None => normalize_lang(""),
    };
    proof {
        reveal_strlit("");
    }
    let target = normalize_lang(config.target_language.as_str());
    let mut args: Vec<String> = Vec::new();
    push_owned(&mut args, "--protocol");
    push_owned(&mut args, "1");
    push_owned(&mut args, "--source");
    push_owned(&mut args, source.as_str());
    push_owned(&mut args, "--target");
    push_owned(&mut args, target.as_str());
    push_owned(&mut args, "--sample-rate");
    push_owned(&mut args, "16000");
    push_owned(&mut args, "--channels");
    push_owned(&mut args, "1");
    push_owned(&mut args, "--format");
    push_owned(&mut args, "s16le");
    if same_language(source.as_str(), target.as_str()) {
        push_owned(&mut args, "--no-translate");
    }
    assert(views(args@) =~= sidecar_args(source_text(*config), config.target_language@));
    args
}

/// The arguments of a one-shot capability probe.
pub open spec fn probe_argv(source: Seq<char>, target: Seq<char>) -> Seq<Seq<char>> {
    seq![
        "--probe"@,
        "--protocol"@,
        "1"@,
        "--source"@,
        normalized_tag(source),
        "--target"@,
        normalized_tag(target),
    ]
}

/// Arguments for a one-shot capability probe.
pub fn probe_args(source: &str, target: &str) -> (r: Vec<String>)
    ensures
        views(r@) == probe_argv(source@, target@),
{
    let mut args: Vec<String> = Vec::new();
    push_owned(&mut args, "--probe");
    push_owned(&mut args, "--protocol");
    push_owned(&mut args, "1");
    push_owned(&mut args, "--source");
    let s = normalize_lang(source);
    push_owned(&mut args, s.as_str());
    push_owned(&mut args, "--target");
    let t = normalize_lang(target);
    push_owned(&mut args, t.as_str());
    assert(views(args@) =~= probe_argv(source@, target@));
    args
}

/// The major version in `sw_vers -productVersion` output ("26.1\n" is 26).
pub open spec fn macos_major(product_version: Seq<char>) -> Option<int> {
    spec_parse_u32(first_piece(trim(product_version), '.', '.'))
}

/// Reads the major version from `sw_vers -productVersion` output.
pub fn parse_macos_major(product_version: &str) -> (r: Option<u32>)
    ensures
        match r {
            Some(v) => macos_major(product_version@) == Some(v as int),
            None => macos_major(product_version@) is None,
        },
{
    let head = first_piece_of(trim_str(product_version), '.', '.');
    parse_u32(head.as_str())
}

// ---------------------------------------------------------------------------
// Speech helper sessions
// ---------------------------------------------------------------------------

/// Lines of helper stderr appended to a failure message.
pub const STDERR_TAIL_REPORTED: usize = 5;

/// `message`, followed by ` — ` and the last five stderr lines joined by
/// ` | ` when there are any.
pub open spec fn message_with_tail(message: Seq<char>, tail: Seq<Seq<char>>) -> Seq<char> {
    let start = if tail.len() > 5 {
        tail.len() - 5
    } else {
        0
    };
    let recent = tail.skip(start);
    if recent.len() == 0 {
        message
    } else {
        message + " — "@ + join(recent, " | "@)
    }
}

/// Appends the last few stderr lines so a failure can be diagnosed from a log.
pub fn with_stderr_tail(message: String, tail: &[String]) -> (r: String)
    ensures
        r@ == message_with_tail(message@, views(tail@)),
{
    let start = if tail.len() > STDERR_TAIL_REPORTED {
        tail.len() - STDERR_TAIL_REPORTED
    } else {
        0
    };
    if start == tail.len() {
        assert(views(tail@).skip(start as int).len() == 0);
        return message;
    }
    let mut out = message;
    push_str(&mut out, " — ");
    let joined = crate::text::join_from(tail, start, " | ");
    push_str(&mut out, joined.as_str());
    assert(views(tail@.skip(start as int)) =~= views(tail@).skip(start as int));
    out
}

/// Lines of helper stderr kept for diagnostics.
pub const STDERR_TAIL_LINES: usize = 20;

/// The newest non-blank stderr lines of the helper, at most 20.
#[derive(Debug)]
pub struct StderrTail {
    pub lines: Vec<String>,
}

/// The kept lines after `line` arrives.
pub open spec fn tail_after(lines: Seq<Seq<char>>, line: Seq<char>) -> Seq<Seq<char>> {
    if trim(line).len() == 0 {
        lines
    } else {
        let b = lines.push(line);
        if b.len() > STDERR_TAIL_LINES {
            b.skip(b.len() - STDERR_TAIL_LINES)
        } else {
            b
        }
    }
}

impl StderrTail {
    pub fn new() -> (r: Self)
        ensures
            r.lines@.len() == 0,
    {
        StderrTail { lines: Vec::new() }
    }

    /// Keeps `line` unless it is blank, dropping the oldest beyond 20.
    pub fn push(&mut self, line: String)
        requires
            old(self).lines@.len() <= STDERR_TAIL_LINES,
        ensures
            views(final(self).lines@) == tail_after(views(old(self).lines@), line@),
            final(self).lines@.len() <= STDERR_TAIL_LINES,
    {
        if trim_str(line.as_str()).unicode_len() == 0 {
            return;
        }
        let ghost before = views(self.lines@);
        let ghost l = line@;
        self.lines.push(line);
        assert(views(self.lines@) =~= before.push(l));
        if self.lines.len() > STDERR_TAIL_LINES {
            let ghost b = views(self.lines@);
            let extra = self.lines.len() - STDERR_TAIL_LINES;
            let kept = self.lines.split_off(extra);
            self.lines = kept;
            assert(views(self.lines@) =~= b.skip(extra as int));
        }
    }
}

/// What ended a helper session.
#[derive(Debug, PartialEq, Eq)]
pub enum SessionOutcome {
    Shutdown,
    Failed { reason: String, was_ready: bool },
    Fatal { message: String },
}

/// The exit code as shown in messages: the number, or `signal` without one.
pub open spec fn exit_code_text(code: Option<i32>) -> Seq<char> {
    match code {
        Some(c) => signed_decimal(c as int),
        None => "signal"@,
    }
}

pub open spec fn early_exit_message(code: Option<i32>) -> Seq<char> {
    "The Apple speech helper exited ("@ + exit_code_text(code)
        + ") before it was ready. Check that macOS 26 or later is installed and the translation language pack is present, or select Gemini in Settings."@
}

/// What a helper exit means. `code` is the exit code (`None` when there was
/// no status or a signal ended it) and `success` whether it exited 0. An exit
/// before `ready` is always fatal; after it, a retryable failure.
pub fn classify_exit(code: Option<i32>, success: bool, was_ready: bool, tail: &[String]) -> (r:
    SessionOutcome)
    ensures
        !was_ready ==> (r matches SessionOutcome::Fatal { message } && message@ == message_with_tail(
            early_exit_message(code),
            views(tail@),
        )),
        was_ready && success ==> (r matches SessionOutcome::Failed { reason, was_ready: w } && w
            && reason@ == "speech helper exited unexpectedly"@),
        was_ready && !success ==> (r matches SessionOutcome::Failed { reason, was_ready: w } && w
            && reason@ == message_with_tail(
            "speech helper exited ("@ + exit_code_text(code) + ")"@,
            views(tail@),
        )),
{
    let code_text = match code {
        Some(c) => i64_to_decimal(c as i64),
        None => to_owned_string("signal"),
    };
    if !was_ready {
        let mut m = to_owned_string("The Apple speech helper exited (");
        push_str(&mut m, code_text.as_str());
        push_str(
            &mut m,
            ") before it was ready. Check that macOS 26 or later is installed and the translation language pack is present, or select Gemini in Settings.",
        );
        return SessionOutcome::Fatal { message: with_stderr_tail(m, tail) };
    }
    if success {
        return SessionOutcome::Failed {
            reason: to_owned_string("speech helper exited unexpectedly"),
            was_ready,
        };
    }
    let mut m = to_owned_string("speech helper exited (");
    push_str(&mut m, code_text.as_str());
    push_str(&mut m, ")");
    SessionOutcome::Failed { reason: with_stderr_tail(m, tail), was_ready }
}

/// What the Apple helper's `--probe` reports.
#[derive(Debug, Clone)]
pub struct AppleCaptionSupport {
    pub os_supported: bool,
    pub os_version: Option<String>,
    pub arch_supported: bool,
    pub speech_locale_supported: bool,
    pub speech_model_installed: bool,
    pub supported_locales: Vec<String>,
    /// "installed" | "notInstalled" | "unsupported"
    pub translation_status: String,
    pub message: Option<String>,
}

impl AppleCaptionSupport {
    /// The answer when the helper cannot even be asked.
    pub fn unavailable(message: &str) -> (r: Self)
        ensures
            !r.os_supported && r.os_version is None && !r.arch_supported
                && !r.speech_locale_supported && !r.speech_model_installed
                && r.supported_locales@.len() == 0 && r.translation_status@ == "unsupported"@
                && (r.message matches Some(m) && m@ == message@),
    {
        AppleCaptionSupport {
            os_supported: false,
            os_version: None,
            arch_supported: false,
            speech_locale_supported: false,
            speech_model_installed: false,
            supported_locales: Vec::new(),
            translation_status: to_owned_string("unsupported"),
            message: Some(to_owned_string(message)),
        }
    }
}

/// `o`, or `fallback` when absent.
pub open spec fn bool_or(o: Option<bool>, fallback: bool) -> bool {
    match o {
        Some(b) => b,
        None => fallback,
    }
}

/// `r` is the probe answer the JSON text `t` gives: the flags default to
/// "no" (the architecture to "yes"), the locale list to empty and the
/// translation status to `unsupported`.
pub open spec fn support_from(t: Seq<char>, r: AppleCaptionSupport) -> bool {
    &&& r.os_supported == bool_or(json_bool_at(t, "/osSupported"@), false)
    &&& opt_view(r.os_version) == json_str_at(t, "/osVersion"@)
    &&& r.arch_supported == bool_or(json_bool_at(t, "/archSupported"@), true)
    &&& r.speech_locale_supported == bool_or(
        json_bool_at(t, "/speech/localeSupported"@),
        false,
    )
    &&& r.speech_model_installed == bool_or(json_bool_at(t, "/speech/modelInstalled"@), false)
    &&& views(r.supported_locales@) == match json_items_at(t, "/speech/supportedLocales"@) {
        Some(v) => strings_among(v),
        None => Seq::empty(),
    }
    &&& r.translation_status@ == match json_str_at(t, "/translation/status"@) {
        Some(v) => v,
        None => "unsupported"@,
    }
    &&& opt_view(r.message) == json_str_at(t, "/message"@)
}

fn bool_member(t: &str, pointer: &str, fallback: bool) -> (r: bool)
    ensures
        r == bool_or(json_bool_at(t@, pointer@), fallback),
{
    match json_bool_path(t, pointer) {
        Some(b) => b,
        None => fallback,
    }
}

/// Reads the single `availability` line of the helper's `--probe`. A line
/// that is no JSON, or no availability report, is an error.
pub fn parse_availability(line: &str) -> (r: Result<AppleCaptionSupport, String>)
    ensures
        ({
            let t = trim(line@);
            match json_error_of(t) {
                Some(e) => r matches Err(m) && m@ == "could not parse speech helper probe output: "@ + e,
                None => if json_str_at(t, "/type"@) == Some("availability"@) {
                    r matches Ok(s) && support_from(t, s)
                } else {
                    r matches Err(m) && m@ == "unexpected speech helper probe output: "@ + t
                },
            }
        }),
{
    let t = trim_str(line);
    match json_error(t) {
        Some(e) => {
            let mut m = to_owned_string("could not parse speech helper probe output: ");
            push_str(&mut m, e.as_str());
            return Err(m);
        },
        None => {},
    }
    let is_availability = match json_str_path(t, "/type") {
        Some(k) => str_eq(k.as_str(), "availability"),
        None => false,
    };
    if !is_availability {
        let mut m = to_owned_string("unexpected speech helper probe output: ");
        push_str(&mut m, t);
        return Err(m);
    }
    let supported_locales = match json_items_path(t, "/speech/supportedLocales") {
        Some(v) => keep_strings(v),
        None => {
            let v: Vec<String> = Vec::new();
            assert(views(v@) =~= Seq::<Seq<char>>::empty());
            v
        },
    };
    let translation_status = match json_str_path(t, "/translation/status") {
        Some(v) => v,
        None => to_owned_string("unsupported"),
    };
    Ok(
        AppleCaptionSupport {
            os_supported: bool_member(t, "/osSupported", false),
            os_version: json_str_path(t, "/osVersion"),
            arch_supported: bool_member(t, "/archSupported", true),
            speech_locale_supported: bool_member(t, "/speech/localeSupported", false),
            speech_model_installed: bool_member(t, "/speech/modelInstalled", false),
            supported_locales,
            translation_status,
            message: json_str_path(t, "/message"),
        },
    )
}

/// The first of `lines` from position `i` on that contains `p`, or the
/// empty line.
pub open spec fn first_line_with(lines: Seq<Seq<char>>, p: Seq<char>, i: int) -> Seq<char>
    decreases lines.len() - i,
{
    if i < 0 || i >= lines.len() {
        Seq::empty()
    } else if contains_text(lines[i], p) {
        lines[i]
    } else {
        first_line_with(lines, p, i + 1)
    }
}

/// The last line of the trimmed error output, or the empty line.
pub open spec fn stderr_detail(stderr: Seq<char>) -> Seq<char> {
    let ls = text_lines(trim(stderr));
    if ls.len() == 0 {
        Seq::empty()
    } else {
        ls.last()
    }
}

/// The error `parse_availability` gives for the trimmed line `t`, if any.
pub open spec fn availability_error(t: Seq<char>) -> Option<Seq<char>> {
    match json_error_of(t) {
        Some(e) => Some("could not parse speech helper probe output: "@ + e),
        None => if json_str_at(t, "/type"@) == Some("availability"@) {
            None
        } else {
            Some("unexpected speech helper probe output: "@ + t)
        },
    }
}

/// What the probe's output says: the first output line mentioning
/// `"availability"` is read; when it cannot be, the answer is "unavailable"
/// with the reading error and the last line of the error output.
pub fn probe_answer(stdout: &str, stderr: &str) -> (r: AppleCaptionSupport)
    ensures
        ({
            let t = trim(first_line_with(text_lines(stdout@), "\"availability\""@, 0));
            match availability_error(t) {
                None => support_from(t, r),
                Some(e) => {
                    let d = stderr_detail(stderr@);
                    let m = if d.len() == 0 {
                        e
                    } else {
                        e + " \u{2014} "@ + d
                    };
                    !r.os_supported && r.os_version is None && !r.arch_supported
                        && !r.speech_locale_supported && !r.speech_model_installed
                        && r.supported_locales@.len() == 0 && r.translation_status@ == "unsupported"@
                        && (r.message matches Some(x) && x@ == m)
                },
            }
        }),
{
    let lines = lines_of(stdout);
    let ghost ls = lines@.map_values(|x: String| x@);
    let mut line = String::new();
    let mut i: usize = 0;
    while i < lines.len()
        invariant_except_break
            line@.len() == 0,
        invariant
            i <= lines.len(),
            ls == lines@.map_values(|x: String| x@),
            first_line_with(ls, "\"availability\""@, 0) == first_line_with(
                ls,
                "\"availability\""@,
                i as int,
            ),
        ensures
            line@ == first_line_with(ls, "\"availability\""@, 0),
        decreases lines.len() - i,
    {
        assert(ls[i as int] == lines[i as int]@);
        if contains_str(lines[i].as_str(), "\"availability\"") {
            line = to_owned_string(lines[i].as_str());
            break;
        }
        i = i + 1;
    }
    assert(line@ == first_line_with(ls, "\"availability\""@, 0));
    match parse_availability(line.as_str()) {
        Ok(support) => support,
        Err(e) => {
            let err_lines = lines_of(trim_str(stderr));
            let n = err_lines.len();
            if n == 0 {
                AppleCaptionSupport::unavailable(e.as_str())
            } else {
                let detail = err_lines[n - 1].as_str();
                if detail.unicode_len() == 0 {
                    AppleCaptionSupport::unavailable(e.as_str())
                } else {
                    let mut m = e;
                    push_str(&mut m, " \u{2014} ");
                    push_str(&mut m, detail);
                    AppleCaptionSupport::unavailable(m.as_str())
                }
            }
        },
    }
}

// ---------------------------------------------------------------------------
// Input devices
// ---------------------------------------------------------------------------

/// An audio input device offered to the user.
#[derive(Debug)]
pub struct AudioDevice {
    pub name: String,
    pub is_default: bool,
    pub sample_rate: u32,
    pub channels: u16,
}

/// What the audio host reported of one input device: its name and its
/// default input configuration (sample rate, channels), each unless it
/// could not be read.
#[derive(Debug)]
pub struct DeviceProbe {
    pub name: Option<String>,
    pub config: Option<(u32, u16)>,
}

/// A device as plain values: name, default or not, rate, channels.
pub open spec fn device_view(d: AudioDevice) -> (Seq<char>, bool, u32, u16) {
    (d.name@, d.is_default, d.sample_rate, d.channels)
}

/// The usable devices among `probes`, in order: those whose name and
/// configuration could both be read; the one named `default_name` is the
/// default.
pub open spec fn usable_devices(probes: Seq<DeviceProbe>, default_name: Seq<char>) -> Seq<
    (Seq<char>, bool, u32, u16),
>
    decreases probes.len(),
{
    if probes.len() == 0 {
        Seq::empty()
    } else {
        let rest = usable_devices(probes.drop_last(), default_name);
        let p = probes.last();
        match (p.name, p.config) {
            (Some(n), Some((rate, ch))) => rest.push((n@, n@ == default_name, rate, ch)),
            _ => rest,
        }
    }
}

/// Lists the usable input devices: one that cannot report its name or its
/// configuration is skipped, not the whole listing.
pub fn input_devices_from(default_name: &str, probes: Vec<DeviceProbe>) -> (r: Vec<AudioDevice>)
    ensures
        r@.map_values(|d: AudioDevice| device_view(d)) == usable_devices(probes@, default_name@),
{
    let ghost all = probes@;
    let mut out: Vec<AudioDevice> = Vec::new();
    let mut rest = probes;
    let mut stack: Vec<DeviceProbe> = Vec::new();
    while rest.len() > 0
        invariant
            stack@.len() + rest@.len() == all.len(),
            rest@ == all.take(rest@.len() as int),
            forall|i: int| 0 <= i < stack@.len() ==> #[trigger] stack@[i] == all[all.len() - 1 - i],
        decreases rest.len(),
    {
        let p = rest.pop().unwrap();
        stack.push(p);
    }
    let mut k: usize = stack.len();
    while k > 0
        invariant
            k == stack@.len(),
            k <= all.len(),
            forall|i: int| 0 <= i < stack@.len() ==> #[trigger] stack@[i] == all[all.len() - 1 - i],
            out@.map_values(|d: AudioDevice| device_view(d)) == usable_devices(
                all.take(all.len() - k),
                default_name@,
            ),
        decreases k,
    {
        let p = stack.pop().unwrap();
        k = k - 1;
        let ghost n = all.len() - k;
        assert(p == all[n - 1]);
        assert(all.take(n).drop_last() =~= all.take(n - 1));
        let ghost before = out@;
        match (p.name, p.config) {
            (Some(name), Some((sample_rate, channels))) => {
                let is_default = str_eq(name.as_str(), default_name);
                out.push(AudioDevice { name, is_default, sample_rate, channels });
                assert(out@.map_values(|d: AudioDevice| device_view(d)) =~= before.map_values(
                    |d: AudioDevice| device_view(d),
                ).push(device_view(out@.last())));
            },
            _ => {},
        }
    }
    assert(all.take(all.len() as int) =~= all);
    out
}

/// Which input device capture opens.
#[derive(Debug, Clone, Copy, PartialEq, Eq, Structural)]
pub enum DeviceChoice {
    /// The device at this position of the host's list.
    Listed(usize),
    /// The host's default input device.
    Default,
}

/// The first position in `names` holding `wanted`, at or after `i`.
pub open spec fn first_named(names: Seq<Option<String>>, wanted: Seq<char>, i: int) -> Option<int>
    decreases names.len() - i,
{
    if i < 0 || i >= names.len() {
        None
    } else if names[i] matches Some(n) && n@ == wanted {
        Some(i)
    } else {
        first_named(names, wanted, i + 1)
    }
}

/// Picks the device to capture from: the first one listed under the
/// configured name, or the default device when none is configured.
/// `names` are the names of the host's input devices (`None` where a name
/// could not be read); `has_default` whether the host has a default input.
pub fn choose_input_device(wanted: Option<&str>, names: &Vec<Option<String>>, has_default: bool) -> (r:
    Result<DeviceChoice, String>)
    ensures
        match wanted {
            Some(w) => match first_named(names@, w@, 0) {
                Some(i) => r matches Ok(DeviceChoice::Listed(k)) && k == i,
                None => r matches Err(e) && e@ == "Audio input device '"@ + w@ + "' not found"@,
            },
            None => if has_default {
                r matches Ok(DeviceChoice::Default)
            } else {
                r matches Err(e) && e@ == "No default audio input device available"@
            },
        },
{
    match wanted {
        Some(w) => {
            let mut i: usize = 0;
            while i < names.len()
                invariant
                    i <= names@.len(),
                    wanted == Some(w),
                    first_named(names@, w@, 0) == first_named(names@, w@, i as int),
                decreases names@.len() - i,
            {
                match &names[i] {
                    Some(n) => {
                        if str_eq(n.as_str(), w) {
                            return Ok(DeviceChoice::Listed(i));
                        }
                    },
                    None => {},
                }
                i = i + 1;
            }
            let mut m = to_owned_string("Audio input device '");
            push_str(&mut m, w);
            push_str(&mut m, "' not found");
            Err(m)
        },
        None => if has_default {
            Ok(DeviceChoice::Default)
        } else {
            Err(to_owned_string("No default audio input device available"))
        },
    }
}

// ---------------------------------------------------------------------------
// Provider events and the speech helper's line protocol
// ---------------------------------------------------------------------------

/// What a provider reports to the caption engine.
#[derive(Debug, PartialEq, Eq)]
pub enum ProviderEvent {
    /// Streaming session established.
    Connected,
    /// Text to append to the line being spoken.
    Delta { source: String, translated: String },
    /// The complete current line, replacing what was there.
    Replace { source: String, translated: String },
    /// The current line is complete.
    TurnComplete,
    /// The session dropped and is being re-established.
    Reconnecting { reason: String },
    /// Unrecoverable failure.
    Fatal { message: String },
}

/// What `serde_json` finds in the JSON text `text` at the JSON pointer
/// `pointer` (`Value::pointer`, e.g. `/speech/modelInstalled`), read as a
/// string (`None` when the text is no JSON, nothing is there, or it is no
/// string).
pub uninterp spec fn json_str_at(text: Seq<char>, pointer: Seq<char>) -> Option<Seq<char>>;

/// The same, read as a boolean.
pub uninterp spec fn json_bool_at(text: Seq<char>, pointer: Seq<char>) -> Option<bool>;

/// Whether the text is JSON and has a value at `pointer` (any value, `null`
/// included; the empty pointer is the whole document).
pub uninterp spec fn json_has_at(text: Seq<char>, pointer: Seq<char>) -> bool;

/// The value at `pointer` read as an array: for each item, its text when it
/// is a string.
pub uninterp spec fn json_items_at(text: Seq<char>, pointer: Seq<char>) -> Option<Seq<Option<Seq<char>>>>;

/// The value at `pointer` written back as compact JSON text.
pub uninterp spec fn json_text_at(text: Seq<char>, pointer: Seq<char>) -> Option<Seq<char>>;

/// `serde_json`'s message for why `text` is no JSON (`None` when it is).
pub uninterp spec fn json_error_of(text: Seq<char>) -> Option<Seq<char>>;

/// The lower-case hexadecimal digit of `n` (below 16).
pub open spec fn hex_digit(n: int) -> char {
    "0123456789abcdef"@[n]
}

/// How `serde_json` writes one character inside a string literal: `"` and
/// `\` after a backslash; backspace, tab, line feed, form feed and carriage
/// return as `\b`, `\t`, `\n`, `\f`, `\r`; the other control characters
/// as `\u00` and two lower-case hex digits; every other character as it is.
pub open spec fn json_escape(c: char) -> Seq<char> {
    let n: int = c as u32 as int;
    if c == '"' {
        seq!['\\', '"']
    } else if c == '\\' {
        seq!['\\', '\\']
    } else if n == 8 {
        seq!['\\', 'b']
    } else if n == 9 {
        seq!['\\', 't']
    } else if n == 10 {
        seq!['\\', 'n']
    } else if n == 12 {
        seq!['\\', 'f']
    } else if n == 13 {
        seq!['\\', 'r']
    } else if n < 32 {
        seq!['\\', 'u', '0', '0', hex_digit(n / 16), hex_digit(n % 16)]
    } else {
        seq![c]
    }
}

/// The characters of `s`, each written as `json_escape` says.
pub open spec fn json_escaped(s: Seq<char>) -> Seq<char>
    decreases s.len(),
{
    if s.len() == 0 {
        Seq::empty()
    } else {
        json_escaped(s.drop_last()) + json_escape(s.last())
    }
}

/// `s` written as a JSON string literal by `serde_json`: in double quotes,
/// each character as `json_escape` says.
pub open spec fn json_quote(s: Seq<char>) -> Seq<char> {
    seq!['"'] + json_escaped(s) + seq!['"']
}

/// Optional strings by their views.
pub open spec fn opt_views(v: Seq<Option<String>>) -> Seq<Option<Seq<char>>> {
    v.map_values(|o: Option<String>| opt_view(o))
}

/// Parses `text` with `serde_json::from_str::<Value>` and reads the value at
/// `pointer` with `Value::pointer` and `Value::as_str`.
#[verifier::external_body]
pub(crate) fn json_str_path(text: &str, pointer: &str) -> (r: Option<String>)
    ensures
        opt_view(r) == json_str_at(text@, pointer@),
{
    let v = serde_json::from_str::<serde_json::Value>(text).ok();
    v.as_ref().and_then(|x| x.pointer(pointer)).and_then(|x| x.as_str()).map(|s| s.to_string())
}

/// The same with `Value::as_bool`.
#[verifier::external_body]
pub(crate) fn json_bool_path(text: &str, pointer: &str) -> (r: Option<bool>)
    ensures
        r == json_bool_at(text@, pointer@),
{
    let v = serde_json::from_str::<serde_json::Value>(text).ok();
    v.as_ref().and_then(|x| x.pointer(pointer)).and_then(|x| x.as_bool())
}

/// Whether `serde_json` parses `text` and `Value::pointer` finds a value.
#[verifier::external_body]
pub(crate) fn json_has_path(text: &str, pointer: &str) -> (r: bool)
    ensures
        r == json_has_at(text@, pointer@),
{
    let v = serde_json::from_str::<serde_json::Value>(text).ok();
    v.as_ref().and_then(|x| x.pointer(pointer)).is_some()
}

/// The value at `pointer` with `Value::as_array`, each item read with
/// `Value::as_str`.
#[verifier::external_body]
pub(crate) fn json_items_path(text: &str, pointer: &str) -> (r: Option<Vec<Option<String>>>)
    ensures
        match r {
            Some(v) => json_items_at(text@, pointer@) == Some(opt_views(v@)),
            None => json_items_at(text@, pointer@) is None,
        },
{
    let v = serde_json::from_str::<serde_json::Value>(text).ok();
    v.as_ref().and_then(|x| x.pointer(pointer)).and_then(|x| x.as_array()).map(|a| {
        a.iter().map(|i| i.as_str().map(|s| s.to_string())).collect()
    })
}

/// The value at `pointer` written with `Value`'s `Display` (compact JSON).
#[verifier::external_body]
pub(crate) fn json_text_path(text: &str, pointer: &str) -> (r: Option<String>)
    ensures
        opt_view(r) == json_text_at(text@, pointer@),
{
    let v = serde_json::from_str::<serde_json::Value>(text).ok();
    v.as_ref().and_then(|x| x.pointer(pointer)).map(|x| x.to_string())
}

/// The `Display` of the error of `serde_json::from_str::<Value>(text)`.
#[verifier::external_body]
pub(crate) fn json_error(text: &str) -> (r: Option<String>)
    ensures
        opt_view(r) == json_error_of(text@),
{
    match serde_json::from_str::<serde_json::Value>(text) {
        Ok(_) => None,
        Err(e) => Some(e.to_string()),
    }
}

/// `serde_json::to_string` of a string.
#[verifier::external_body]
pub(crate) fn json_quoted(s: &str) -> (r: String)
    ensures
        r@ == json_quote(s@),
{
    serde_json::to_string(s).unwrap_or_default()
}

/// The strings among `items`, in order.
pub open spec fn strings_among(items: Seq<Option<Seq<char>>>) -> Seq<Seq<char>>
    decreases items.len(),
{
    if items.len() == 0 {
        Seq::empty()
    } else {
        let rest = strings_among(items.drop_last());
        match items.last() {
            Some(s) => rest.push(s),
            None => rest,
        }
    }
}

/// The strings among `items`, in order.
fn keep_strings(items: Vec<Option<String>>) -> (r: Vec<String>)
    ensures
        views(r@) == strings_among(opt_views(items@)),
{
    let ghost all = opt_views(items@);
    let mut out: Vec<String> = Vec::new();
    let mut i: usize = 0;
    while i < items.len()
        invariant
            i <= items@.len(),
            all == opt_views(items@),
            views(out@) == strings_among(all.take(i as int)),
        decreases items@.len() - i,
    {
        assert(all.take(i + 1).drop_last() =~= all.take(i as int));
        assert(all.take(i + 1).last() == opt_view(items@[i as int]));
        match &items[i] {
            Some(s) => {
                let ghost before = views(out@);
                out.push(s.clone());
                assert(views(out@) =~= before.push(s@));
            },
            None => {},
        }
        i = i + 1;
    }
    assert(all.take(items@.len() as int) =~= all);
    out
}

/// What one stdout line of the helper means. (`Progress` carries the stage;
/// the helper's download fraction is only logged.)
#[derive(Debug, PartialEq, Eq)]
pub enum LineOutcome {
    Ready,
    Events(Vec<ProviderEvent>),
    Progress { stage: String },
    Fatal(String),
    Failed(String),
    Ignore,
}

/// The string at `pointer`, or `fallback` when there is none.
pub open spec fn member_or(text: Seq<char>, pointer: Seq<char>, fallback: Seq<char>) -> Seq<char> {
    match json_str_at(text, pointer) {
        Some(s) => s,
        None => fallback,
    }
}

pub open spec fn default_error_message() -> Seq<char> {
    "the Apple speech helper reported an error"@
}

/// What a helper line means: blank lines, malformed ones and unknown types
/// are ignored; `partial` and `final` replace the current line; an `error`
/// is fatal unless its `fatal` member is `false`.
pub open spec fn line_outcome(r: LineOutcome, line: Seq<char>) -> bool {
    let t = trim(line);
    let kind = json_str_at(t, "/type"@);
    if t.len() == 0 || kind is None {
        r is Ignore
    } else {
        let k = kind->0;
        if k == "ready"@ {
            r is Ready
        } else if k == "partial"@ || k == "final"@ {
            r matches LineOutcome::Events(v) && v@.len() == 1 && (v@[0] matches ProviderEvent::Replace {
                source,
                translated,
            } && source@ == member_or(t, "/source"@, Seq::empty()) && translated@ == member_or(
                t,
                "/translated"@,
                Seq::empty(),
            ))
        } else if k == "turnComplete"@ {
            r matches LineOutcome::Events(v) && v@.len() == 1 && v@[0] is TurnComplete
        } else if k == "assetProgress"@ {
            r matches LineOutcome::Progress { stage } && stage@ == member_or(t, "/stage"@, "model"@)
        } else if k == "error"@ {
            let message = member_or(t, "/message"@, default_error_message());
            let fatal = match json_bool_at(t, "/fatal"@) {
                Some(b) => b,
                None => true,
            };
            if fatal {
                r matches LineOutcome::Fatal(m) && m@ == message
            } else {
                r matches LineOutcome::Failed(m) && m@ == message
            }
        } else {
            r is Ignore
        }
    }
}

fn member_or_else(text: &str, pointer: &str, fallback: &str) -> (r: String)
    ensures
        r@ == member_or(text@, pointer@, fallback@),
{
    match json_str_path(text, pointer) {
        Some(s) => s,
        None => to_owned_string(fallback),
    }
}

/// Parses one NDJSON line from the speech helper. Unknown message types and
/// malformed lines are ignored rather than fatal.
pub fn parse_line(line: &str) -> (r: LineOutcome)
    ensures
        line_outcome(r, line@),
{
    proof {
        reveal_strlit("");
        reveal_strlit("ready");
        reveal_strlit("partial");
        reveal_strlit("final");
        reveal_strlit("turnComplete");
        reveal_strlit("assetProgress");
        reveal_strlit("error");
        assert("ready"@[0] != "final"@[0] && "ready"@[0] != "error"@[0] && "final"@[0]
            != "error"@[0]);
        assert("partial"@.len() == 7 && "turnComplete"@.len() == 12 && "assetProgress"@.len()
            == 13 && "ready"@.len() == 5 && "final"@.len() == 5 && "error"@.len() == 5);
    }
    let t = trim_str(line);
    if t.unicode_len() == 0 {
        return LineOutcome::Ignore;
    }
    let kind = match json_str_path(t, "/type") {
        Some(k) => k,
        None => return LineOutcome::Ignore,
    };
    let k = kind.as_str();
    if str_eq(k, "ready") {
        LineOutcome::Ready
    } else if str_eq(k, "partial") || str_eq(k, "final") {
        let source = member_or_else(t, "/source", "");
        let translated = member_or_else(t, "/translated", "");
        assert(""@ =~= Seq::<char>::empty());
        let ghost sv = source@;
        let ghost tv = translated@;
        let mut v = Vec::new();
        v.push(ProviderEvent::Replace { source, translated });
        assert(v@[0] matches ProviderEvent::Replace { source: s2, translated: t2 } && s2@ == sv
            && t2@ == tv);
        LineOutcome::Events(v)
    } else if str_eq(k, "turnComplete") {
        let mut v = Vec::new();
        v.push(ProviderEvent::TurnComplete);
        LineOutcome::Events(v)
    } else if str_eq(k, "assetProgress") {
        LineOutcome::Progress { stage: member_or_else(t, "/stage", "model") }
    } else if str_eq(k, "error") {
        let message = member_or_else(t, "/message", "the Apple speech helper reported an error");
        let fatal = match json_bool_path(t, "/fatal") {
            Some(b) => b,
            None => true,
        };
        if fatal {
            LineOutcome::Fatal(message)
        } else {
            LineOutcome::Failed(message)
        }
    } else {
        LineOutcome::Ignore
    }
}

// ---------------------------------------------------------------------------
// Provider selection
// ---------------------------------------------------------------------------

/// Which provider a session runs.
#[derive(Debug, Clone, Copy, PartialEq, Eq, Structural)]
pub enum ProviderKind {
    Gemini,
    Apple,
}

pub open spec fn no_gemini_key_message() -> Seq<char> {
    "No Gemini API key configured. Add one in Settings."@
}

pub open spec fn openai_message() -> Seq<char> {
    "The OpenAI caption provider is not implemented yet. Select Gemini in Settings."@
}

pub open spec fn apple_unsupported_message() -> Seq<char> {
    "The Apple on-device caption provider requires macOS 26 (Tahoe) or later. Select Gemini in Settings."@
}

/// Chooses the provider named in the settings, or says why it cannot run:
/// Gemini needs a key, OpenAI is not implemented, Apple needs macOS and a
/// valid language pair; any other name is unknown.
pub fn build_provider(provider: &str, config: &ProviderConfig, on_macos: bool) -> (r: Result<
    ProviderKind,
    String,
>)
    ensures
        provider@ == "gemini"@ ==> match r {
            Ok(k) => k == ProviderKind::Gemini && trim(config.api_key@).len() > 0,
            Err(e) => trim(config.api_key@).len() == 0 && e@ == no_gemini_key_message(),
        },
        provider@ == "openai"@ ==> (r matches Err(e) && e@ == openai_message()),
        provider@ == "apple"@ && on_macos ==> match r {
            Ok(k) => k == ProviderKind::Apple && trim(source_text(*config)).len() > 0 && trim(
                config.target_language@,
            ).len() > 0,
            Err(e) => if trim(source_text(*config)).len() == 0 {
                e@ == auto_detect_message()
            } else {
                trim(config.target_language@).len() == 0 && e@ == target_missing_message()
            },
        },
        provider@ == "apple"@ && !on_macos ==> (r matches Err(e) && e@ == apple_unsupported_message()),
        provider@ != "gemini"@ && provider@ != "openai"@ && provider@ != "apple"@ ==> (r matches Err(e)
            && e@ == "Unknown caption provider '"@ + provider@ + "'"@),
{
    proof {
        reveal_strlit("gemini");
        reveal_strlit("openai");
        reveal_strlit("apple");
        assert("gemini"@.len() == 6 && "openai"@.len() == 6 && "apple"@.len() == 5);
        assert("gemini"@[0] != "openai"@[0]);
    }
    if str_eq(provider, "gemini") {
        if trim_str(config.api_key.as_str()).unicode_len() == 0 {
            return Err(to_owned_string("No Gemini API key configured. Add one in Settings."));
        }
        Ok(ProviderKind::Gemini)
    } else if str_eq(provider, "openai") {
        Err(
            to_owned_string(
                "The OpenAI caption provider is not implemented yet. Select Gemini in Settings.",
            ),
        )
    } else if str_eq(provider, "apple") {
        if on_macos {
            match validate_apple_config(config) {
                Ok(_) => Ok(ProviderKind::Apple),
                Err(e) => Err(e),
            }
        } else {
            Err(
                to_owned_string(
                    "The Apple on-device caption provider requires macOS 26 (Tahoe) or later. Select Gemini in Settings.",
                ),
            )
        }
    } else {
        let mut m = to_owned_string("Unknown caption provider '");
        push_str(&mut m, provider);
        push_str(&mut m, "'");
        Err(m)
    }
}

/// The oldest macOS the Apple provider runs on.
pub const MIN_MACOS_MAJOR: u32 = 26;

pub open spec fn apple_silicon_message() -> Seq<char> {
    "The Apple on-device caption provider requires an Apple Silicon Mac. Select Gemini in Settings."@
}

pub open spec fn unknown_macos_message() -> Seq<char> {
    "Could not determine the macOS version. The Apple provider requires macOS 26 (Tahoe) or later."@
}

/// Whether this machine can run the Apple provider: it needs macOS on
/// Apple Silicon (`arch` is `aarch64`) at version 26 or later.
/// `macos_major` is the major version `sw_vers` reported, if any.
pub fn check_platform(on_macos: bool, arch: &str, macos_major: Option<u32>) -> (r: Result<(), String>)
    ensures
        !on_macos ==> (r matches Err(e) && e@ == apple_unsupported_message()),
        on_macos && arch@ != "aarch64"@ ==> (r matches Err(e) && e@ == apple_silicon_message()),
        on_macos && arch@ == "aarch64"@ ==> match macos_major {
            Some(m) => if m >= MIN_MACOS_MAJOR {
                r is Ok
            } else {
                r matches Err(e) && e@
                    == "The Apple on-device caption provider requires macOS 26 (Tahoe) or later; this Mac runs macOS "@
                    + decimal(m as nat) + ". Select Gemini in Settings."@
            },
            None => r matches Err(e) && e@ == unknown_macos_message(),
        },
{
    if !on_macos {
        return Err(
            to_owned_string(
                "The Apple on-device caption provider requires macOS 26 (Tahoe) or later. Select Gemini in Settings.",
            ),
        );
    }
    if !str_eq(arch, "aarch64") {
        return Err(
            to_owned_string(
                "The Apple on-device caption provider requires an Apple Silicon Mac. Select Gemini in Settings.",
            ),
        );
    }
    match macos_major {
        Some(major) => if major >= MIN_MACOS_MAJOR {
            Ok(())
        } else {
            let mut m = to_owned_string(
                "The Apple on-device caption provider requires macOS 26 (Tahoe) or later; this Mac runs macOS ",
            );
            let d = u64_to_decimal(major as u64);
            push_str(&mut m, d.as_str());
            push_str(&mut m, ". Select Gemini in Settings.");
            Err(m)
        },
        None => Err(
            to_owned_string(
                "Could not determine the macOS version. The Apple provider requires macOS 26 (Tahoe) or later.",
            ),
        ),
    }
}

// ---------------------------------------------------------------------------
// Caption lines
// ---------------------------------------------------------------------------

/// How many finalized lines the replay buffer keeps.
pub const BUFFER_CAPACITY: usize = 8;

/// One caption line. While spoken it is republished with the same `id` and
/// `is_final` false; on turn completion once more with `is_final` true.
#[derive(Debug)]
pub struct CaptionSegment {
    pub id: u64,
    /// Transcript in the speaker's language.
    pub source: String,
    /// Translation in the target language.
    pub translated: String,
    pub is_final: bool,
    /// Milliseconds since the Unix epoch.
    pub timestamp: u64,
}

/// Two segments hold the same values.
pub open spec fn same_segment(a: CaptionSegment, b: CaptionSegment) -> bool {
    a.id == b.id && a.source@ == b.source@ && a.translated@ == b.translated@ && a.is_final
        == b.is_final && a.timestamp == b.timestamp
}

impl CaptionSegment {
    /// An empty, unfinished line.
    pub fn empty(id: u64, now: u64) -> (r: Self)
        ensures
            r.id == id && r.source@.len() == 0 && r.translated@.len() == 0 && !r.is_final
                && r.timestamp == now,
    {
        CaptionSegment {
            id,
            source: String::new(),
            translated: String::new(),
            is_final: false,
            timestamp: now,
        }
    }

    /// A copy of the segment.
    pub fn copy(&self) -> (r: Self)
        ensures
            same_segment(r, *self),
    {
        CaptionSegment {
            id: self.id,
            source: self.source.clone(),
            translated: self.translated.clone(),
            is_final: self.is_final,
            timestamp: self.timestamp,
        }
    }
}

/// Builds caption lines out of provider events and keeps the replay buffer
/// of the newest finalized ones.
#[derive(Debug)]
pub struct CaptionAccumulator {
    pub next_id: u64,
    pub current: CaptionSegment,
    pub buffer: Vec<CaptionSegment>,
}

/// `buffer` after `seg` is added and the oldest dropped beyond capacity.
pub open spec fn buffer_after(buffer: Seq<CaptionSegment>, seg: CaptionSegment) -> Seq<
    CaptionSegment,
> {
    let b = buffer.push(seg);
    if b.len() > BUFFER_CAPACITY {
        b.skip(b.len() - BUFFER_CAPACITY)
    } else {
        b
    }
}

/// A line is empty when both its texts are blank.
pub open spec fn blank_line(seg: CaptionSegment) -> bool {
    trim(seg.source@).len() == 0 && trim(seg.translated@).len() == 0
}

impl CaptionAccumulator {
    /// The accumulator's invariant: the line being spoken is never final
    /// and carries the newest number, and the replay buffer is within its
    /// capacity.
    pub open spec fn wf(&self) -> bool {
        &&& !self.current.is_final
        &&& self.current.id == self.next_id
        &&& self.buffer@.len() <= BUFFER_CAPACITY
    }

    /// The first line is number 1, empty, stamped `now`.
    pub fn new(now: u64) -> (r: Self)
        ensures
            r.wf(),
            r.next_id == 1,
            r.current.id == 1 && r.current.source@.len() == 0 && r.current.translated@.len() == 0
                && !r.current.is_final && r.current.timestamp == now,
            r.buffer@.len() == 0,
    {
        CaptionAccumulator { next_id: 1, current: CaptionSegment::empty(1, now), buffer: Vec::new() }
    }

    /// Appends a delta to the current line; returns the line to publish.
    pub fn on_delta(&mut self, source: &str, translated: &str, now: u64) -> (r: CaptionSegment)
        ensures
            final(self).current.source@ == old(self).current.source@ + source@,
            final(self).current.translated@ == old(self).current.translated@ + translated@,
            final(self).current.timestamp == now,
            final(self).current.id == old(self).current.id,
            final(self).current.is_final == old(self).current.is_final,
            final(self).next_id == old(self).next_id,
            final(self).buffer@ == old(self).buffer@,
            same_segment(r, final(self).current),
    {
        push_str(&mut self.current.source, source);
        push_str(&mut self.current.translated, translated);
        self.current.timestamp = now;
        self.current.copy()
    }

    /// Replaces the current line's text; returns the line to publish.
    pub fn on_replace(&mut self, source: &str, translated: &str, now: u64) -> (r: CaptionSegment)
        ensures
            final(self).current.source@ == source@,
            final(self).current.translated@ == translated@,
            final(self).current.timestamp == now,
            final(self).current.id == old(self).current.id,
            final(self).current.is_final == old(self).current.is_final,
            final(self).next_id == old(self).next_id,
            final(self).buffer@ == old(self).buffer@,
            same_segment(r, final(self).current),
    {
        self.current.source = to_owned_string(source);
        self.current.translated = to_owned_string(translated);
        self.current.timestamp = now;
        self.current.copy()
    }

    /// Completes the current line: a blank one is dropped (`None`, nothing
    /// changes); otherwise it is marked final, stamped, added to the replay
    /// buffer and returned for publishing, and a new empty line begins.
    pub fn on_turn_complete(&mut self, now: u64) -> (r: Option<CaptionSegment>)
        requires
            old(self).next_id < u64::MAX,
            old(self).buffer@.len() <= BUFFER_CAPACITY,
        ensures
            blank_line(old(self).current) ==> r is None && final(self).next_id == old(self).next_id
                && same_segment(final(self).current, old(self).current) && final(self).buffer@
                == old(self).buffer@,
            !blank_line(old(self).current) ==> ({
                let done = CaptionSegment {
                    is_final: true,
                    timestamp: now,
                    ..old(self).current
                };
                &&& r matches Some(seg) && same_segment(seg, done)
                &&& final(self).buffer@.len() == buffer_after(old(self).buffer@, done).len()
                &&& forall|i: int|
                    0 <= i < final(self).buffer@.len() ==> same_segment(
                        #[trigger] final(self).buffer@[i],
                        buffer_after(old(self).buffer@, done)[i],
                    )
                &&& final(self).next_id == old(self).next_id + 1
                &&& final(self).current.id == old(self).next_id + 1
                &&& final(self).current.source@.len() == 0
                &&& final(self).current.translated@.len() == 0
                &&& !final(self).current.is_final
                &&& final(self).current.timestamp == now
            }),
            final(self).buffer@.len() <= BUFFER_CAPACITY,
    {
        if trim_str(self.current.source.as_str()).unicode_len() == 0 && trim_str(
            self.current.translated.as_str(),
        ).unicode_len() == 0 {
            return None;
        }
        self.current.is_final = true;
        self.current.timestamp = now;
        let ghost done = self.current;
        let ghost old_buf = self.buffer@;
        self.buffer.push(self.current.copy());
        if self.buffer.len() > BUFFER_CAPACITY {
            let extra = self.buffer.len() - BUFFER_CAPACITY;
            let kept = self.buffer.split_off(extra);
            self.buffer = kept;
        }
        let published = self.current.copy();
        self.next_id = self.next_id + 1;
        self.current = CaptionSegment::empty(self.next_id, now);
        Some(published)
    }
}

// ---------------------------------------------------------------------------
// Engine status and the consumption of provider events
// ---------------------------------------------------------------------------

/// Connection state of the caption engine.
#[derive(Debug, PartialEq, Eq)]
pub enum CaptionEngineState {
    Stopped,
    Starting,
    Running,
    Reconnecting,
    Error(String),
}

/// Status snapshot for the UI.
#[derive(Debug)]
pub struct CaptionStatus {
    pub state: CaptionEngineState,
    /// Seconds of audio streamed this session.
    pub elapsed_seconds: u64,
    pub reconnects: u32,
    pub provider: String,
}

impl Default for CaptionStatus {
    /// Stopped, nothing streamed, provider `gemini`.
    fn default() -> (r: Self)
        ensures
            r.state == CaptionEngineState::Stopped,
            r.elapsed_seconds == 0,
            r.reconnects == 0,
            r.provider@ == "gemini"@,
    {
        CaptionStatus {
            state: CaptionEngineState::Stopped,
            elapsed_seconds: 0,
            reconnects: 0,
            provider: to_owned_string("gemini"),
        }
    }
}

/// A message published to the overlay page and the monitor.
#[derive(Debug)]
pub enum CaptionUpdate {
    Segment { segment: CaptionSegment },
    Status { status: CaptionStatus },
}

/// The status published for `state`; without counters both are zero.
pub fn caption_status(state: CaptionEngineState, provider: &str, counters: Option<(u64, u32)>) -> (r:
    CaptionStatus)
    ensures
        r.state == state,
        r.provider@ == provider@,
        match counters {
            Some((e, n)) => r.elapsed_seconds == e && r.reconnects == n,
            None => r.elapsed_seconds == 0 && r.reconnects == 0,
        },
{
    let (elapsed_seconds, reconnects) = match counters {
        Some(c) => c,
        None => (0, 0),
    };
    CaptionStatus { state, elapsed_seconds, reconnects, provider: to_owned_string(provider) }
}

/// What the engine does with one provider event.
#[derive(Debug)]
pub enum ConsumeStep {
    /// Publish this update and go on.
    Publish(CaptionUpdate),
    /// Nothing to publish (a blank line was completed).
    Skip,
    /// Publish this update and stop consuming.
    Finish(CaptionUpdate),
}

/// The state of the loop that turns provider events into published lines
/// and statuses.
#[derive(Debug)]
pub struct CaptionConsumer {
    pub lines: CaptionAccumulator,
    pub reconnects: u32,
    pub provider: String,
}

/// `u` is the status update `state` with the given counters.
pub open spec fn is_status_update(u: CaptionUpdate, state: CaptionEngineState, provider: Seq<char>, elapsed: u64, reconnects: u32) -> bool {
    u matches CaptionUpdate::Status { status } && status.state == state && status.provider@ == provider
        && status.elapsed_seconds == elapsed && status.reconnects == reconnects
}

/// How one provider event moves the consumer from `o` to `n` and what it
/// returns (`r`), `elapsed` seconds into the session at time `now`.
pub open spec fn consumed(
    o: CaptionConsumer,
    n: CaptionConsumer,
    event: ProviderEvent,
    elapsed: u64,
    now: u64,
    r: ConsumeStep,
) -> bool {
    &&& n.provider == o.provider
    &&& n.lines.buffer@.len() <= BUFFER_CAPACITY
    &&& !(event is Reconnecting) ==> n.reconnects == o.reconnects
    &&& event is Connected ==> (r matches ConsumeStep::Publish(u) && is_status_update(
        u,
        CaptionEngineState::Running,
        o.provider@,
        elapsed,
        o.reconnects,
    )) && n.lines == o.lines
    &&& event matches ProviderEvent::Delta { source, translated } ==> {
        &&& n.lines.current.source@ == o.lines.current.source@ + source@
        &&& n.lines.current.translated@ == o.lines.current.translated@ + translated@
        &&& n.lines.current.timestamp == now
        &&& n.lines.current.id == o.lines.current.id
        &&& n.lines.current.is_final == o.lines.current.is_final
        &&& n.lines.next_id == o.lines.next_id
        &&& n.lines.buffer@ == o.lines.buffer@
        &&& r matches ConsumeStep::Publish(u) && u matches CaptionUpdate::Segment { segment }
            && same_segment(segment, n.lines.current)
    }
    &&& event matches ProviderEvent::Replace { source, translated } ==> {
        &&& n.lines.current.source@ == source@
        &&& n.lines.current.translated@ == translated@
        &&& n.lines.current.timestamp == now
        &&& n.lines.current.id == o.lines.current.id
        &&& n.lines.current.is_final == o.lines.current.is_final
        &&& n.lines.next_id == o.lines.next_id
        &&& n.lines.buffer@ == o.lines.buffer@
        &&& r matches ConsumeStep::Publish(u) && u matches CaptionUpdate::Segment { segment }
            && same_segment(segment, n.lines.current)
    }
    &&& event is TurnComplete && blank_line(o.lines.current) ==> r is Skip && n.lines.next_id
        == o.lines.next_id && same_segment(n.lines.current, o.lines.current) && n.lines.buffer@
        == o.lines.buffer@
    &&& event is TurnComplete && !blank_line(o.lines.current) ==> ({
        let done = CaptionSegment { is_final: true, timestamp: now, ..o.lines.current };
        &&& r matches ConsumeStep::Publish(u) && u matches CaptionUpdate::Segment { segment }
            && same_segment(segment, done)
        &&& n.lines.buffer@.len() == buffer_after(o.lines.buffer@, done).len()
        &&& forall|i: int|
            0 <= i < n.lines.buffer@.len() ==> same_segment(
                #[trigger] n.lines.buffer@[i],
                buffer_after(o.lines.buffer@, done)[i],
            )
        &&& n.lines.next_id == o.lines.next_id + 1
        &&& n.lines.current.id == o.lines.next_id + 1
        &&& n.lines.current.source@.len() == 0
        &&& n.lines.current.translated@.len() == 0
        &&& !n.lines.current.is_final
        &&& n.lines.current.timestamp == now
    })
    &&& event is Reconnecting ==> n.reconnects == o.reconnects + 1 && (r matches ConsumeStep::Publish(u)
        && is_status_update(
        u,
        CaptionEngineState::Reconnecting,
        o.provider@,
        elapsed,
        n.reconnects,
    )) && n.lines == o.lines
    &&& event matches ProviderEvent::Fatal { message } ==> (r matches ConsumeStep::Finish(u)
        && is_status_update(
        u,
        CaptionEngineState::Error(message),
        o.provider@,
        elapsed,
        o.reconnects,
    )) && n.lines == o.lines
}

/// A replacement replaces the whole line being spoken: after two
/// replacements the line published holds the second text under the number
/// of the line, unfinished (never the two texts joined); completing it then
/// publishes that text as final under the same number, unless it is blank.
pub proof fn replace_replaces_the_line(
    c0: CaptionConsumer,
    c1: CaptionConsumer,
    c2: CaptionConsumer,
    c3: CaptionConsumer,
    first: (String, String),
    second: (String, String),
    times: (u64, u64, u64, u64, u64, u64),
    r1: ConsumeStep,
    r2: ConsumeStep,
    r3: ConsumeStep,
)
    requires
        c0.wf(),
        consumed(c0, c1, ProviderEvent::Replace { source: first.0, translated: first.1 }, times.0, times.1, r1),
        consumed(c1, c2, ProviderEvent::Replace { source: second.0, translated: second.1 }, times.2, times.3, r2),
        consumed(c2, c3, ProviderEvent::TurnComplete, times.4, times.5, r3),
    ensures
        r2 matches ConsumeStep::Publish(u) && u matches CaptionUpdate::Segment { segment } && segment.id
            == c0.lines.current.id && segment.source@ == second.0@ && segment.translated@ == second.1@
            && !segment.is_final,
        trim(second.0@).len() == 0 && trim(second.1@).len() == 0 ==> r3 is Skip,
        !(trim(second.0@).len() == 0 && trim(second.1@).len() == 0) ==> (r3 matches ConsumeStep::Publish(u)
            && u matches CaptionUpdate::Segment { segment } && segment.id == c0.lines.current.id
            && segment.source@ == second.0@ && segment.translated@ == second.1@ && segment.is_final),
{
}

impl CaptionConsumer {
    /// The consumer's invariant: that of its lines.
    pub open spec fn wf(&self) -> bool {
        self.lines.wf()
    }

    /// No reconnects yet; the first line is number 1.
    pub fn new(provider: String, now: u64) -> (r: Self)
        ensures
            r.wf(),
            r.reconnects == 0,
            r.provider == provider,
            r.lines.next_id == 1,
            r.lines.current.id == 1 && r.lines.current.source@.len() == 0
                && r.lines.current.translated@.len() == 0 && !r.lines.current.is_final
                && r.lines.current.timestamp == now,
            r.lines.buffer@.len() == 0,
    {
        CaptionConsumer { lines: CaptionAccumulator::new(now), reconnects: 0, provider }
    }

    /// Takes one provider event, `elapsed` seconds into the session, at
    /// time `now`: a connect publishes the running status, text publishes
    /// the current line, a completed line is published final (a blank one
    /// is skipped), a reconnect is counted and published, and a fatal error
    /// is published as the error status, which ends consumption.
    pub fn on_event(&mut self, event: ProviderEvent, elapsed: u64, now: u64) -> (r: ConsumeStep)
        requires
            old(self).lines.next_id < u64::MAX,
            old(self).lines.buffer@.len() <= BUFFER_CAPACITY,
            event is Reconnecting ==> old(self).reconnects < u32::MAX,
        ensures
            consumed(*old(self), *final(self), event, elapsed, now, r),
            old(self).wf() ==> final(self).wf(),
    {
        match event {
            ProviderEvent::Connected => {
                let status = caption_status(
                    CaptionEngineState::Running,
                    self.provider.as_str(),
                    Some((elapsed, self.reconnects)),
                );
                ConsumeStep::Publish(CaptionUpdate::Status { status })
            },
            ProviderEvent::Delta { source, translated } => {
                let segment = self.lines.on_delta(source.as_str(), translated.as_str(), now);
                ConsumeStep::Publish(CaptionUpdate::Segment { segment })
            },
            ProviderEvent::Replace { source, translated } => {
                let segment = self.lines.on_replace(source.as_str(), translated.as_str(), now);
                ConsumeStep::Publish(CaptionUpdate::Segment { segment })
            },
            ProviderEvent::TurnComplete => match self.lines.on_turn_complete(now) {
                Some(segment) => ConsumeStep::Publish(CaptionUpdate::Segment { segment }),
                None => ConsumeStep::Skip,
            },
            ProviderEvent::Reconnecting { reason: _ } => {
                self.reconnects = self.reconnects + 1;
                let status = caption_status(
                    CaptionEngineState::Reconnecting,
                    self.provider.as_str(),
                    Some((elapsed, self.reconnects)),
                );
                ConsumeStep::Publish(CaptionUpdate::Status { status })
            },
            ProviderEvent::Fatal { message } => {
                let status = caption_status(
                    CaptionEngineState::Error(message),
                    self.provider.as_str(),
                    Some((elapsed, self.reconnects)),
                );
                ConsumeStep::Finish(CaptionUpdate::Status { status })
            },
        }
    }

    /// The status published when the provider's event stream closes.
    pub fn on_close(&self, elapsed: u64) -> (r: CaptionUpdate)
        ensures
            is_status_update(r, CaptionEngineState::Stopped, self.provider@, elapsed, self.reconnects),
    {
        let status = caption_status(
            CaptionEngineState::Stopped,
            self.provider.as_str(),
            Some((elapsed, self.reconnects)),
        );
        CaptionUpdate::Status { status }
    }
}

/// The Apple on-device speech provider and its settings.
#[derive(Debug)]
pub struct AppleProvider {
    pub config: ProviderConfig,
}

impl AppleProvider {
    pub fn new(config: ProviderConfig) -> (r: Self)
        ensures
            r.config == config,
    {
        AppleProvider { config }
    }

    /// The provider's name in settings and status.
    pub fn name(&self) -> (r: &'static str)
        ensures
            r@ == "apple"@,
    {
        "apple"
    }
}

/// The Gemini Live provider and its settings.
#[derive(Debug)]
pub struct GeminiProvider {
    pub config: ProviderConfig,
}

impl GeminiProvider {
    pub fn new(config: ProviderConfig) -> (r: Self)
        ensures
            r.config == config,
    {
        GeminiProvider { config }
    }

    /// The provider's name in settings and status.
    pub fn name(&self) -> (r: &'static str)
        ensures
            r@ == "gemini"@,
    {
        "gemini"
    }
}

/// Being the same language is symmetric.
pub proof fn same_language_is_symmetric(a: Seq<char>, b: Seq<char>)
    ensures
        same_language_spec(a, b) == same_language_spec(b, a),
{
}

/// The byte stream of several chunks is the chunks' streams in order.
pub proof fn le_bytes_concat(a: Seq<i16>, b: Seq<i16>)
    ensures
        le_bytes(a + b) == le_bytes(a) + le_bytes(b),
    decreases b.len(),
{
    if b.len() == 0 {
        assert(a + b =~= a);
        assert(le_bytes(a) + Seq::<u8>::empty() =~= le_bytes(a));
    } else {
        le_bytes_concat(a, b.drop_last());
        assert((a + b).drop_last() =~= a + b.drop_last());
        assert((a + b).last() == b.last());
        assert(le_bytes(a) + le_bytes(b) =~= le_bytes(a) + le_bytes(b.drop_last()) + seq![
            low_byte(b.last()),
            high_byte(b.last()),
        ]);
    }
}

// ---------------------------------------------------------------------------
// Session loops
// ---------------------------------------------------------------------------

/// First retry delay after a failed session (milliseconds).
pub const BACKOFF_START_MS: u64 = 250;

/// Longest retry delay (milliseconds).
pub const BACKOFF_MAX_MS: u64 = 10000;

/// The delay before the next retry: it starts at 250 ms and doubles after
/// each failure, up to 10 s.
#[derive(Debug)]
pub struct Backoff {
    pub delay_ms: u64,
}

impl Backoff {
    /// The delay stays between the first and the longest.
    pub open spec fn wf(&self) -> bool {
        BACKOFF_START_MS <= self.delay_ms <= BACKOFF_MAX_MS
    }

    pub fn new() -> (r: Self)
        ensures
            r.wf(),
            r.delay_ms == BACKOFF_START_MS,
    {
        Backoff { delay_ms: BACKOFF_START_MS }
    }

    /// Back to the first delay.
    pub fn reset(&mut self)
        ensures
            final(self).wf(),
            final(self).delay_ms == BACKOFF_START_MS,
    {
        self.delay_ms = BACKOFF_START_MS;
    }

    /// The delay to wait now; the next one doubles, up to the longest.
    pub fn next_delay(&mut self) -> (r: u64)
        requires
            old(self).wf(),
        ensures
            final(self).wf(),
            r == old(self).delay_ms,
            final(self).delay_ms == (if 2 * old(self).delay_ms < BACKOFF_MAX_MS {
                2 * old(self).delay_ms
            } else {
                BACKOFF_MAX_MS as int
            }),
    {
        let d = self.delay_ms;
        self.delay_ms = if 2 * d < BACKOFF_MAX_MS {
            2 * d
        } else {
            BACKOFF_MAX_MS
        };
        d
    }
}

/// What the provider loop does after a helper session ended.
#[derive(Debug, PartialEq, Eq)]
pub enum LoopAction {
    /// Shutdown: end the loop.
    Stop,
    /// Report the fatal message and end the loop.
    Fatal(String),
    /// Commit the pending line, report the reason, wait this long, retry.
    RetryAfter { reason: String, delay_ms: u64 },
}

/// What the Apple provider loop does after a session: stop, give up, or
/// commit the line and retry after the backoff delay (reset first when the
/// session had been ready).
pub fn after_apple_session(backoff: &mut Backoff, outcome: SessionOutcome) -> (r: LoopAction)
    requires
        old(backoff).wf(),
    ensures
        final(backoff).wf(),
        outcome is Shutdown ==> r == LoopAction::Stop && final(backoff).delay_ms == old(backoff).delay_ms,
        outcome matches SessionOutcome::Fatal { message } ==> (r matches LoopAction::Fatal(m)
            && m@ == message@) && final(backoff).delay_ms == old(backoff).delay_ms,
        outcome matches SessionOutcome::Failed { reason, was_ready } ==> ({
            let d = if was_ready {
                BACKOFF_START_MS
            } else {
                old(backoff).delay_ms
            };
            &&& r matches LoopAction::RetryAfter { reason: r2, delay_ms } && r2@ == reason@
                && delay_ms == d
            &&& final(backoff).delay_ms == (if 2 * d < BACKOFF_MAX_MS {
                2 * d
            } else {
                BACKOFF_MAX_MS as int
            })
        }),
{
    match outcome {
        SessionOutcome::Shutdown => LoopAction::Stop,
        SessionOutcome::Fatal { message } => LoopAction::Fatal(message),
        SessionOutcome::Failed { reason, was_ready } => {
            if was_ready {
                backoff.reset();
            }
            let delay_ms = backoff.next_delay();
            LoopAction::RetryAfter { reason, delay_ms }
        },
    }
}

/// What one helper stdout line does to a running session.
#[derive(Debug)]
pub enum LineAction {
    /// Keep going: send these events; `ready` says whether the session is
    /// now ready.
    Continue { events: Vec<ProviderEvent>, ready: bool },
    /// The session ends with this outcome.
    End(SessionOutcome),
}

/// The effect of one parsed helper line: `ready` sends `Connected` and
/// marks the session ready, events are passed on, a fatal or failed report
/// ends the session with the stderr tail appended, anything else continues.
pub fn on_helper_line(outcome: LineOutcome, was_ready: bool, tail: &[String]) -> (r: LineAction)
    ensures
        outcome is Ready ==> (r matches LineAction::Continue { events, ready } && ready
            && events@.len() == 1 && events@[0] is Connected),
        outcome matches LineOutcome::Events(v) ==> (r matches LineAction::Continue { events, ready }
            && ready == was_ready && events == v),
        (outcome is Progress || outcome is Ignore) ==> (r matches LineAction::Continue { events, ready }
            && ready == was_ready && events@.len() == 0),
        outcome matches LineOutcome::Fatal(m) ==> (r matches LineAction::End(SessionOutcome::Fatal { message })
            && message@ == message_with_tail(m@, views(tail@))),
        outcome matches LineOutcome::Failed(m) ==> (r matches LineAction::End(SessionOutcome::Failed { reason, was_ready: w })
            && w == was_ready && reason@ == message_with_tail(m@, views(tail@))),
{
    match outcome {
        LineOutcome::Ready => {
            let mut events = Vec::new();
            events.push(ProviderEvent::Connected);
            LineAction::Continue { events, ready: true }
        },
        LineOutcome::Events(list) => LineAction::Continue { events: list, ready: was_ready },
        LineOutcome::Progress { stage: _ } => LineAction::Continue { events: Vec::new(), ready: was_ready },
        LineOutcome::Ignore => LineAction::Continue { events: Vec::new(), ready: was_ready },
        LineOutcome::Fatal(m) => LineAction::End(
            SessionOutcome::Fatal { message: with_stderr_tail(m, tail) },
        ),
        LineOutcome::Failed(m) => LineAction::End(
            SessionOutcome::Failed { reason: with_stderr_tail(m, tail), was_ready },
        ),
    }
}

/// The fields of a Live API `serverContent` object that captions read.
#[derive(Debug)]
pub struct ServerContent {
    /// `inputTranscription.text`
    pub input_text: Option<String>,
    /// `outputTranscription.text`
    pub output_text: Option<String>,
    pub turn_complete: Option<bool>,
    pub generation_complete: Option<bool>,
}

pub open spec fn text_or_empty(o: Option<String>) -> Seq<char> {
    match o {
        Some(s) => s@,
        None => Seq::empty(),
    }
}

/// The events of one `serverContent`: a delta when either transcript has
/// text, then a turn boundary when the turn or the generation completed.
/// Generated audio is not read.
pub fn server_content_events(content: ServerContent) -> (r: Vec<ProviderEvent>)
    ensures
        ({
            let src = text_or_empty(content.input_text);
            let tr = text_or_empty(content.output_text);
            let has_delta = src.len() > 0 || tr.len() > 0;
            let done = content.turn_complete == Some(true) || content.generation_complete == Some(true);
            &&& r@.len() == (if has_delta { 1int } else { 0 }) + (if done { 1int } else { 0 })
            &&& has_delta ==> (r@[0] matches ProviderEvent::Delta { source, translated } && source@ == src
                && translated@ == tr)
            &&& done ==> r@.last() is TurnComplete
        }),
{
    let source = match content.input_text {
        Some(s) => s,
        None => String::new(),
    };
    let translated = match content.output_text {
        Some(s) => s,
        None => String::new(),
    };
    let mut events: Vec<ProviderEvent> = Vec::new();
    if source.as_str().unicode_len() > 0 || translated.as_str().unicode_len() > 0 {
        events.push(ProviderEvent::Delta { source, translated });
    }
    let turn = match content.turn_complete {
        Some(b) => b,
        None => false,
    };
    let generation = match content.generation_complete {
        Some(b) => b,
        None => false,
    };
    if turn || generation {
        events.push(ProviderEvent::TurnComplete);
    }
    events
}

/// The MIME type of the audio frames sent to the Live API.
pub fn audio_mime_type() -> (r: String)
    ensures
        r@ == "audio/pcm;rate=16000"@,
{
    to_owned_string("audio/pcm;rate=16000")
}

/// How a Gemini session ended.
#[derive(Debug, PartialEq, Eq)]
pub enum GeminiOutcome {
    Shutdown,
    /// Expected end (a scheduled handoff): reconnect straight away.
    Reconnect { handle: Option<String>, reason: String },
    /// Unexpected end: reconnect after the backoff delay.
    Failed { handle: Option<String>, reason: String },
    /// Do not retry (bad key, bad model).
    Fatal { message: String },
}

/// What the Gemini loop does next.
#[derive(Debug, PartialEq, Eq)]
pub enum GeminiAction {
    Stop,
    Fatal(String),
    /// Report the reason and reconnect, after `delay_ms` when given.
    Reconnect { reason: String, delay_ms: Option<u64> },
}

/// The Gemini provider loop's memory: the session to resume and the backoff.
#[derive(Debug)]
pub struct GeminiLoop {
    pub resume_handle: Option<String>,
    pub backoff: Backoff,
}

pub open spec fn newer_handle(handle: Option<String>, previous: Option<String>) -> Option<String> {
    match handle {
        Some(h) => Some(h),
        None => previous,
    }
}

impl GeminiLoop {
    pub fn new() -> (r: Self)
        ensures
            r.resume_handle is None,
            r.backoff.wf(),
            r.backoff.delay_ms == BACKOFF_START_MS,
    {
        GeminiLoop { resume_handle: None, backoff: Backoff::new() }
    }

    /// Takes the outcome of a session: a handoff reconnects at once with the
    /// backoff reset, a failure after the delay (which then doubles); both
    /// keep the newest resume handle.
    pub fn after_session(&mut self, outcome: GeminiOutcome) -> (r: GeminiAction)
        requires
            old(self).backoff.wf(),
        ensures
            final(self).backoff.wf(),
            outcome is Shutdown ==> r == GeminiAction::Stop,
            outcome matches GeminiOutcome::Fatal { message } ==> (r matches GeminiAction::Fatal(m)
                && m == message),
            outcome matches GeminiOutcome::Reconnect { handle, reason } ==> r == (GeminiAction::Reconnect {
                reason,
                delay_ms: None,
            }) && final(self).resume_handle == newer_handle(handle, old(self).resume_handle)
                && final(self).backoff.delay_ms == BACKOFF_START_MS,
            outcome matches GeminiOutcome::Failed { handle, reason } ==> r == (GeminiAction::Reconnect {
                reason,
                delay_ms: Some(old(self).backoff.delay_ms),
            }) && final(self).resume_handle == newer_handle(handle, old(self).resume_handle)
                && final(self).backoff.delay_ms == (if 2 * old(self).backoff.delay_ms < BACKOFF_MAX_MS {
                2 * old(self).backoff.delay_ms
            } else {
                BACKOFF_MAX_MS as int
            }),
    {
        match outcome {
            GeminiOutcome::Shutdown => GeminiAction::Stop,
            GeminiOutcome::Fatal { message } => GeminiAction::Fatal(message),
            GeminiOutcome::Reconnect { handle, reason } => {
                if handle.is_some() {
                    self.resume_handle = handle;
                }
                self.backoff.reset();
                GeminiAction::Reconnect { reason, delay_ms: None }
            },
            GeminiOutcome::Failed { handle, reason } => {
                if handle.is_some() {
                    self.resume_handle = handle;
                }
                let d = self.backoff.next_delay();
                GeminiAction::Reconnect { reason, delay_ms: Some(d) }
            },
        }
    }
}

/// The delay after a failure stays between 250 ms and 10 s.
pub proof fn backoff_stays_bounded(b: Backoff)
    requires
        b.wf(),
    ensures
        BACKOFF_START_MS <= (if 2 * b.delay_ms < BACKOFF_MAX_MS {
            2 * b.delay_ms
        } else {
            BACKOFF_MAX_MS as int
        }) <= BACKOFF_MAX_MS,
{
}


// ---------------------------------------------------------------------------
// Gemini Live sessions
// ---------------------------------------------------------------------------

/// The Live Translate model the provider asks for.
pub const GEMINI_MODEL: &'static str = "models/gemini-3.5-live-translate-preview";

/// The Live API's WebSocket endpoint.
pub const GEMINI_ENDPOINT: &'static str = "wss://generativelanguage.googleapis.com/ws/google.ai.generativelanguage.v1beta.GenerativeService.BidiGenerateContent";

/// `s` with the characters of `GEMINI_ENDPOINT`.
pub open spec fn endpoint_text() -> Seq<char> {
    "wss://generativelanguage.googleapis.com/ws/google.ai.generativelanguage.v1beta.GenerativeService.BidiGenerateContent"@
}

pub open spec fn model_text() -> Seq<char> {
    "models/gemini-3.5-live-translate-preview"@
}

/// The address a session connects to: the endpoint with the key.
pub fn session_url(api_key: &str) -> (r: String)
    ensures
        r@ == endpoint_text() + "?key="@ + api_key@,
{
    let mut s = to_owned_string(
        "wss://generativelanguage.googleapis.com/ws/google.ai.generativelanguage.v1beta.GenerativeService.BidiGenerateContent",
    );
    push_str(&mut s, "?key=");
    push_str(&mut s, api_key);
    s
}

/// The `setup` frame of a new or resumed session, as JSON text: the model,
/// audio responses with both transcriptions, the translation target (and
/// the source when pinned), sliding-window compression, and the handle of
/// the session to resume when there is one.
pub open spec fn setup_text(target: Seq<char>, source: Option<Seq<char>>, handle: Option<Seq<char>>) -> Seq<char> {
    let translation = "{\"targetLanguageCode\":"@ + json_quote(target) + ",\"echoTargetLanguage\":false"@
        + match source {
        Some(s) => ",\"sourceLanguageCode\":"@ + json_quote(s),
        None => Seq::empty(),
    } + "}"@;
    let resumption = match handle {
        Some(h) => "{\"handle\":"@ + json_quote(h) + "}"@,
        None => "{}"@,
    };
    "{\"setup\":{\"model\":"@ + json_quote(model_text())
        + ",\"generationConfig\":{\"responseModalities\":[\"AUDIO\"],\"inputAudioTranscription\":{},\"outputAudioTranscription\":{},\"translationConfig\":"@
        + translation + "},\"contextWindowCompression\":{\"slidingWindow\":{}},\"sessionResumption\":"@
        + resumption + "}}"@
}

/// Builds the `setup` frame for `config`, resuming `resume_handle` if given.
pub fn build_setup(config: &ProviderConfig, resume_handle: Option<&str>) -> (r: String)
    ensures
        r@ == setup_text(
            config.target_language@,
            opt_view(config.source_language),
            match resume_handle {
                Some(h) => Some(h@),
                None => None,
            },
        ),
{
    let mut s = to_owned_string("{\"setup\":{\"model\":");
    let model = json_quoted(GEMINI_MODEL);
    push_str(&mut s, model.as_str());
    push_str(
        &mut s,
        ",\"generationConfig\":{\"responseModalities\":[\"AUDIO\"],\"inputAudioTranscription\":{},\"outputAudioTranscription\":{},\"translationConfig\":",
    );
    push_str(&mut s, "{\"targetLanguageCode\":");
    let target = json_quoted(config.target_language.as_str());
    push_str(&mut s, target.as_str());
    push_str(&mut s, ",\"echoTargetLanguage\":false");
    match &config.source_language {
        Some(src) => {
            push_str(&mut s, ",\"sourceLanguageCode\":");
            let q = json_quoted(src.as_str());
            push_str(&mut s, q.as_str());
        },
        None => {},
    }
    push_str(&mut s, "}");
    push_str(&mut s, "},\"contextWindowCompression\":{\"slidingWindow\":{}},\"sessionResumption\":");
    match resume_handle {
        Some(h) => {
            push_str(&mut s, "{\"handle\":");
            let q = json_quoted(h);
            push_str(&mut s, q.as_str());
            push_str(&mut s, "}");
        },
        None => push_str(&mut s, "{}"),
    }
    push_str(&mut s, "}}");
    proof {
        let src = match opt_view(config.source_language) {
            Some(x) => ",\"sourceLanguageCode\":"@ + json_quote(x),
            None => Seq::empty(),
        };
        let res = match resume_handle {
            Some(h) => "{\"handle\":"@ + json_quote(h@) + "}"@,
            None => "{}"@,
        };
        assert(s@ =~= "{\"setup\":{\"model\":"@ + json_quote(model_text())
            + ",\"generationConfig\":{\"responseModalities\":[\"AUDIO\"],\"inputAudioTranscription\":{},\"outputAudioTranscription\":{},\"translationConfig\":"@
            + ("{\"targetLanguageCode\":"@ + json_quote(config.target_language@)
            + ",\"echoTargetLanguage\":false"@ + src + "}"@)
            + "},\"contextWindowCompression\":{\"slidingWindow\":{}},\"sessionResumption\":"@ + res
            + "}}"@);
    }
    s
}

/// The character of the standard base64 alphabet for the 6-bit value `n`.
pub open spec fn base64_char(n: int) -> char {
    "ABCDEFGHIJKLMNOPQRSTUVWXYZabcdefghijklmnopqrstuvwxyz0123456789+/"@[n]
}

/// What the `base64` crate's standard engine writes for `bytes`: each group
/// of three bytes as four characters of the standard alphabet, a last group
/// of one or two bytes padded with `=` to four characters.
pub open spec fn base64_text(bytes: Seq<u8>) -> Seq<char>
    decreases bytes.len(),
{
    if bytes.len() == 0 {
        Seq::empty()
    } else if bytes.len() == 1 {
        let a = bytes[0] as int;
        seq![base64_char(a / 4), base64_char((a % 4) * 16), '=', '=']
    } else if bytes.len() == 2 {
        let (a, b) = (bytes[0] as int, bytes[1] as int);
        seq![base64_char(a / 4), base64_char((a % 4) * 16 + b / 16), base64_char((b % 16) * 4), '=']
    } else {
        let (a, b, c) = (bytes[0] as int, bytes[1] as int, bytes[2] as int);
        seq![base64_char(a / 4), base64_char((a % 4) * 16 + b / 16), base64_char((b % 16) * 4 + c / 64), base64_char(c % 64)]
            + base64_text(bytes.skip(3))
    }
}

/// `base64::engine::general_purpose::STANDARD.encode(bytes)`.
#[verifier::external_body]
fn base64_standard(bytes: &[u8]) -> (r: String)
    requires
        bytes@.len() <= usize::MAX / 2,
    ensures
        r@ == base64_text(bytes@),
{
    base64::Engine::encode(&base64::engine::general_purpose::STANDARD, bytes)
}

/// One audio chunk as a `realtimeInput` frame: the samples as
/// little-endian 16-bit PCM in base64, with their MIME type.
pub open spec fn audio_frame_text(chunk: Seq<i16>) -> Seq<char> {
    "{\"realtimeInput\":{\"audio\":{\"data\":"@ + json_quote(base64_text(le_bytes(chunk)))
        + ",\"mimeType\":\"audio/pcm;rate=16000\"}}}"@
}

/// Encodes one PCM chunk as a Live API frame.
pub fn audio_frame(chunk: &[i16]) -> (r: String)
    requires
        chunk@.len() <= usize::MAX / 4,
    ensures
        r@ == audio_frame_text(chunk@),
{
    let bytes = samples_to_le_bytes(chunk);
    let b64 = base64_standard(bytes.as_slice());
    let mut s = to_owned_string("{\"realtimeInput\":{\"audio\":{\"data\":");
    let q = json_quoted(b64.as_str());
    push_str(&mut s, q.as_str());
    push_str(&mut s, ",\"mimeType\":\"audio/pcm;rate=16000\"}}}");
    s
}

/// What a server frame holds, member by member, as read from its JSON.
#[derive(Debug)]
pub struct LiveFrame {
    /// The `error` member, written back as JSON text.
    pub error: Option<String>,
    /// A `setupComplete` member is present.
    pub setup_complete: bool,
    /// The `sessionResumptionUpdate` member: its `resumable` flag (absent
    /// means false) and its `newHandle`.
    pub resumption: Option<(bool, Option<String>)>,
    /// A `goAway` member is present.
    pub go_away: bool,
    /// The `serverContent` member.
    pub content: Option<ServerContent>,
}

/// Reads the members of a server frame. `None` when the text is no JSON
/// (such a frame is ignored).
pub fn read_live_frame(text: &str) -> (r: Option<LiveFrame>)
    ensures
        json_has_at(text@, ""@) ==> (r matches Some(f) && {
            &&& opt_view(f.error) == json_text_at(text@, "/error"@)
            &&& f.setup_complete == json_has_at(text@, "/setupComplete"@)
            &&& json_has_at(text@, "/sessionResumptionUpdate"@) ==> (f.resumption matches Some(
                (res, h),
            ) && res == bool_or(json_bool_at(text@, "/sessionResumptionUpdate/resumable"@), false)
                && opt_view(h) == json_str_at(text@, "/sessionResumptionUpdate/newHandle"@))
            &&& !json_has_at(text@, "/sessionResumptionUpdate"@) ==> f.resumption is None
            &&& f.go_away == json_has_at(text@, "/goAway"@)
            &&& json_has_at(text@, "/serverContent"@) ==> (f.content matches Some(c) && {
                &&& opt_view(c.input_text) == json_str_at(text@, "/serverContent/inputTranscription/text"@)
                &&& opt_view(c.output_text) == json_str_at(text@, "/serverContent/outputTranscription/text"@)
                &&& c.turn_complete == json_bool_at(text@, "/serverContent/turnComplete"@)
                &&& c.generation_complete == json_bool_at(text@, "/serverContent/generationComplete"@)
            })
            &&& !json_has_at(text@, "/serverContent"@) ==> f.content is None
        }),
        !json_has_at(text@, ""@) ==> r is None,
{
    if !json_has_path(text, "") {
        return None;
    }
    let resumption = if json_has_path(text, "/sessionResumptionUpdate") {
        Some((bool_member(text, "/sessionResumptionUpdate/resumable", false), json_str_path(text, "/sessionResumptionUpdate/newHandle")))
    } else {
        None
    };
    let content = if json_has_path(text, "/serverContent") {
        Some(
            ServerContent {
                input_text: json_str_path(text, "/serverContent/inputTranscription/text"),
                output_text: json_str_path(text, "/serverContent/outputTranscription/text"),
                turn_complete: json_bool_path(text, "/serverContent/turnComplete"),
                generation_complete: json_bool_path(text, "/serverContent/generationComplete"),
            },
        )
    } else {
        None
    };
    Some(
        LiveFrame {
            error: json_text_path(text, "/error"),
            setup_complete: json_has_path(text, "/setupComplete"),
            resumption,
            go_away: json_has_path(text, "/goAway"),
            content,
        },
    )
}

/// A session's memory: the handle to resume with and whether the server
/// confirmed the setup.
#[derive(Debug)]
pub struct GeminiSession {
    pub handle: Option<String>,
    pub setup_complete: bool,
}

/// What the session does after a frame.
#[derive(Debug)]
pub enum SessionStep {
    /// Report these events and read on.
    Continue(Vec<ProviderEvent>),
    /// The session is over.
    End(GeminiOutcome),
}

pub open spec fn rejected_message(reason: Seq<char>) -> Seq<char> {
    "Gemini rejected the session ("@ + reason
        + "). Check the API key and that the Live Translate preview is enabled for your project."@
}

impl GeminiSession {
    /// A session resuming `handle`, not yet set up.
    pub fn new(handle: Option<String>) -> (r: Self)
        ensures
            r.handle == handle,
            !r.setup_complete,
    {
        GeminiSession { handle, setup_complete: false }
    }

    /// Takes a server frame: an error ends the session as fatal; the setup
    /// confirmation reports the connection; a resumption update keeps a
    /// new handle when it is resumable; `goAway` ends the session for a
    /// handoff; content yields its transcript events. The first of these
    /// members present decides.
    pub fn on_frame(&mut self, frame: LiveFrame) -> (r: SessionStep)
        ensures
            frame.error matches Some(e) ==> (r matches SessionStep::End(GeminiOutcome::Fatal { message })
                && message@ == "Gemini API error: "@ + e@) && *final(self) == *old(self),
            frame.error is None && frame.setup_complete ==> (r matches SessionStep::Continue(v)
                && v@ == seq![ProviderEvent::Connected]) && final(self).setup_complete
                && final(self).handle == old(self).handle,
            (frame.error is None && !frame.setup_complete && frame.resumption is Some) ==> ({
                let (res, h) = frame.resumption->0;
                &&& r matches SessionStep::Continue(v) && v@.len() == 0
                &&& final(self).setup_complete == old(self).setup_complete
                &&& final(self).handle == (if res && h is Some { h } else { old(self).handle })
            }),
            frame.error is None && !frame.setup_complete && frame.resumption is None && frame.go_away
                ==> (r matches SessionStep::End(GeminiOutcome::Reconnect { handle, reason })
                && handle == old(self).handle && reason@ == "scheduled session handoff"@)
                && final(self).handle is None && final(self).setup_complete == old(self).setup_complete,
            frame.error is None && !frame.setup_complete && frame.resumption is None && !frame.go_away
                ==> *final(self) == *old(self) && match frame.content {
                Some(c) => {
                    let src = text_or_empty(c.input_text);
                    let tr = text_or_empty(c.output_text);
                    let has_delta = src.len() > 0 || tr.len() > 0;
                    let done = c.turn_complete == Some(true) || c.generation_complete == Some(true);
                    r matches SessionStep::Continue(v) && v@.len() == (if has_delta { 1int } else { 0 })
                        + (if done { 1int } else { 0 }) && (has_delta ==> (v@[0] matches ProviderEvent::Delta {
                        source,
                        translated,
                    } && source@ == src && translated@ == tr)) && (done ==> v@.last() is TurnComplete)
                },
                None => r matches SessionStep::Continue(v) && v@.len() == 0,
            },
    {
        match frame.error {
            Some(e) => {
                let mut m = to_owned_string("Gemini API error: ");
                push_str(&mut m, e.as_str());
                return SessionStep::End(GeminiOutcome::Fatal { message: m });
            },
            None => {},
        }
        if frame.setup_complete {
            self.setup_complete = true;
            let mut v = Vec::new();
            v.push(ProviderEvent::Connected);
            assert(v@ =~= seq![ProviderEvent::Connected]);
            return SessionStep::Continue(v);
        }
        match frame.resumption {
            Some((resumable, new_handle)) => {
                if resumable && new_handle.is_some() {
                    self.handle = new_handle;
                }
                return SessionStep::Continue(Vec::new());
            },
            None => {},
        }
        if frame.go_away {
            let handle = self.handle.take();
            return SessionStep::End(
                GeminiOutcome::Reconnect {
                    handle,
                    reason: to_owned_string("scheduled session handoff"),
                },
            );
        }
        match frame.content {
            Some(c) => SessionStep::Continue(server_content_events(c)),
            None => SessionStep::Continue(Vec::new()),
        }
    }
    /// The server closed the socket, with the code and reason of its close
    /// frame when it sent one. After setup that is a handoff; before it the
    /// key or the model was rejected, which retrying cannot fix.
    pub fn on_close(&mut self, frame: Option<(u16, String)>) -> (r: GeminiOutcome)
        ensures
            ({
                let reason = match frame {
                    Some((code, why)) => "server closed: "@ + decimal(code as nat) + " "@ + why@,
                    None => "server closed"@,
                };
                if old(self).setup_complete {
                    r matches GeminiOutcome::Reconnect { handle, reason: m } && handle == old(self).handle
                        && m@ == reason
                } else {
                    r matches GeminiOutcome::Fatal { message } && message@ == rejected_message(reason)
                }
            }),
    {
        let reason = match frame {
            Some((code, why)) => {
                let mut m = to_owned_string("server closed: ");
                let d = u64_to_decimal(code as u64);
                push_str(&mut m, d.as_str());
                push_str(&mut m, " ");
                push_str(&mut m, why.as_str());
                m
            },
            None => to_owned_string("server closed"),
        };
        if self.setup_complete {
            GeminiOutcome::Reconnect { handle: self.handle.take(), reason }
        } else {
            let mut m = to_owned_string("Gemini rejected the session (");
            push_str(&mut m, reason.as_str());
            push_str(
                &mut m,
                "). Check the API key and that the Live Translate preview is enabled for your project.",
            );
            GeminiOutcome::Fatal { message: m }
        }
    }

    /// The socket failed (`error`) or the server ended the stream: a
    /// failure to retry, resuming the same session.
    pub fn on_stream_end(&mut self, error: Option<&str>) -> (r: GeminiOutcome)
        ensures
            r matches GeminiOutcome::Failed { handle, reason } && handle == old(self).handle
                && reason@ == match error {
                Some(e) => "websocket error: "@ + e@,
                None => "connection closed by server"@,
            },
    {
        let reason = match error {
            Some(e) => {
                let mut m = to_owned_string("websocket error: ");
                push_str(&mut m, e);
                m
            },
            None => to_owned_string("connection closed by server"),
        };
        GeminiOutcome::Failed { handle: self.handle.take(), reason }
    }

    /// A frame could not be sent: a failure to retry, resuming the same
    /// session.
    pub fn on_send_failure(&mut self, what: SendStage, error: &str) -> (r: GeminiOutcome)
        ensures
            r matches GeminiOutcome::Failed { handle, reason } && handle == old(self).handle
                && reason@ == "failed to send "@ + send_stage_text(what) + ": "@ + error@,
    {
        let mut m = to_owned_string("failed to send ");
        match what {
            SendStage::Setup => push_str(&mut m, "setup"),
            SendStage::Carryover => push_str(&mut m, "carryover audio"),
            SendStage::Audio => push_str(&mut m, "audio"),
        }
        push_str(&mut m, ": ");
        push_str(&mut m, error);
        GeminiOutcome::Failed { handle: self.handle.take(), reason: m }
    }
}

/// What was being sent when sending failed.
#[derive(Debug, Clone, Copy, PartialEq, Eq, Structural)]
pub enum SendStage {
    Setup,
    Carryover,
    Audio,
}

pub open spec fn send_stage_text(s: SendStage) -> Seq<char> {
    match s {
        SendStage::Setup => "setup"@,
        SendStage::Carryover => "carryover audio"@,
        SendStage::Audio => "audio"@,
    }
}

/// Whether a failed connection is worth retrying: a rejected key (HTTP 401
/// or 403) or a missing model (404) is fatal; anything else is retried.
/// `status` is the HTTP status of a refused upgrade, `status_text` how it
/// reads, `error` the connection error's text.
pub fn classify_connect_error(status: Option<u16>, status_text: &str, error: &str) -> (r: GeminiOutcome)
    ensures
        (status == Some(401u16) || status == Some(403u16)) ==> (r matches GeminiOutcome::Fatal { message }
            && message@ == "Gemini rejected the API key (HTTP "@ + status_text@
            + "). Check the key in Settings."@),
        status == Some(404u16) ==> (r matches GeminiOutcome::Fatal { message } && message@
            == "Gemini model '"@ + model_text()
            + "' is unavailable (HTTP 404). The Live Translate preview may not be enabled for this key."@),
        !(status == Some(401u16) || status == Some(403u16) || status == Some(404u16)) ==> (
        r matches GeminiOutcome::Failed { handle, reason } && handle is None && reason@
            == "connect failed: "@ + error@),
{
    match status {
        Some(code) => {
            if code == 401 || code == 403 {
                let mut m = to_owned_string("Gemini rejected the API key (HTTP ");
                push_str(&mut m, status_text);
                push_str(&mut m, "). Check the key in Settings.");
                return GeminiOutcome::Fatal { message: m };
            }
            if code == 404 {
                let mut m = to_owned_string("Gemini model '");
                push_str(&mut m, GEMINI_MODEL);
                push_str(
                    &mut m,
                    "' is unavailable (HTTP 404). The Live Translate preview may not be enabled for this key.",
                );
                return GeminiOutcome::Fatal { message: m };
            }
        },
        None => {},
    }
    let mut m = to_owned_string("connect failed: ");
    push_str(&mut m, error);
    GeminiOutcome::Failed { handle: None, reason: m }
}


} // verus!

//! Recognizing USB clickers among Linux input devices, from what sysfs says
//! about them: the `PHYS=` line of their `uevent`, and their key capability
//! bitmap. Also the bridge's command line. The file reads belong to the
//! caller.

use vstd::prelude::*;
use vstd::string::*;
use crate::canva::{hex_body, is_hex, hex_digits_value};
use crate::captions::{lowercase, to_lowercase};
use crate::split::{contains_str, contains_text, chars_of, split1, split_chars};
use crate::text::{has_prefix, is_ws, is_whitespace, starts_with, str_eq, to_owned_string, trim, trim_str};

verus! {

/// A device counts as a USB clicker by its `PHYS` field: it is set, starts
/// with `usb` and does not mention `hdmi` (HDMI CEC), ignoring case.
pub open spec fn usb_phys(phys: Seq<char>) -> bool {
    phys.len() > 0 && has_prefix(lowercase(phys), "usb"@) && !contains_text(lowercase(phys), "hdmi"@)
}

/// Whether `PHYS` marks a real USB HID device.
pub fn is_usb_phys(phys: &str) -> (r: bool)
    ensures
        r == usb_phys(phys@),
{
    if phys.unicode_len() == 0 {
        return false;
    }
    let lower = to_lowercase(phys);
    if !starts_with(lower.as_str(), "usb") {
        return false;
    }
    !contains_str(lower.as_str(), "hdmi")
}

/// `s` without the `c` characters at either end (`trim_matches(c)`).
pub open spec fn trim_char(s: Seq<char>, c: char) -> Seq<char>
    decreases s.len(),
{
    if s.len() > 0 && s[0] == c {
        trim_char(s.drop_first(), c)
    } else if s.len() > 0 && s.last() == c {
        trim_char(s.drop_last(), c)
    } else {
        s
    }
}

fn trim_quotes(s: &str) -> (r: String)
    ensures
        r@ == trim_char(s@, '"'),
    decreases s@.len(),
{
    let n = s.unicode_len();
    if n > 0 && s.get_char(0) == '"' {
        assert(s@.subrange(1, n as int) =~= s@.drop_first());
        trim_quotes(s.substring_char(1, n))
    } else if n > 0 && s.get_char(n - 1) == '"' {
        assert(s@.subrange(0, n - 1) =~= s@.drop_last());
        trim_quotes(s.substring_char(0, n - 1))
    } else {
        to_owned_string(s)
    }
}

/// The `PHYS` value of the first line that starts with `PHYS=`: trimmed,
/// then without surrounding quotes.
pub open spec fn uevent_phys_from(lines: Seq<Seq<char>>) -> Option<Seq<char>>
    decreases lines.len(),
{
    if lines.len() == 0 {
        None
    } else if has_prefix(lines[0], "PHYS="@) {
        Some(trim_char(trim(lines[0].skip(5)), '"'))
    } else {
        uevent_phys_from(lines.drop_first())
    }
}

/// The PHYS field of a device's sysfs `uevent` text.
pub fn phys_from_uevent(contents: &str) -> (r: Option<String>)
    ensures
        match r {
            Some(p) => uevent_phys_from(split1(contents@, '\n')) == Some(p@),
            None => uevent_phys_from(split1(contents@, '\n')) is None,
        },
{
    let lines = split_chars(contents, '\n', '\n');
    let ghost ls = lines@.map_values(|x: String| x@);
    let mut i: usize = 0;
    proof {
        assert(ls.skip(0) =~= ls);
        reveal_strlit("PHYS=");
    }
    while i < lines.len()
        invariant
            i <= lines@.len(),
            ls == lines@.map_values(|x: String| x@),
            ls == split1(contents@, '\n'),
            uevent_phys_from(ls) == uevent_phys_from(ls.skip(i as int)),
        decreases lines.len() - i,
    {
        proof {
            assert(ls.skip(i as int).drop_first() =~= ls.skip(i + 1));
            assert(ls.skip(i as int)[0] == lines@[i as int]@);
        }
        let line = lines[i].as_str();
        proof {
            reveal_strlit("PHYS=");
        }
        if starts_with(line, "PHYS=") {
            let n = line.unicode_len();
            let value = trim_str(line.substring_char(5, n));
            assert(line@.subrange(5, n as int) =~= line@.skip(5));
            return Some(trim_quotes(value));
        }
        i = i + 1;
    }
    None
}

/// `u64::from_str_radix(s, 16)`: an optional `+`, then one or more hex
/// digits, the value fitting in 64 bits.
pub open spec fn hex_u64(s: Seq<char>) -> Option<nat> {
    let d = hex_body(s);
    if d.len() > 0 && (forall|i: int| 0 <= i < d.len() ==> is_hex(#[trigger] d[i]))
        && hex_digits_value(d) <= u64::MAX {
        Some(hex_digits_value(d))
    } else {
        None
    }
}

/// `s` is a hex number other than zero.
pub open spec fn nonzero_hex(s: Seq<char>) -> bool {
    hex_u64(s) matches Some(v) && v != 0
}

proof fn lemma_hex_prefix(d: Seq<char>, k: int)
    requires
        0 <= k <= d.len(),
    ensures
        hex_digits_value(d.take(k)) <= hex_digits_value(d),
    decreases d.len() - k,
{
    if k < d.len() {
        lemma_hex_prefix(d, k + 1);
        assert(d.take(k + 1).drop_last() =~= d.take(k));
    } else {
        assert(d.take(k) =~= d);
    }
}

/// Whether a word is a hex number other than zero.
fn nonzero_hex_word(w: &Vec<char>, from: usize, to: usize) -> (r: bool)
    requires
        from <= to <= w.len(),
    ensures
        r == nonzero_hex(w@.subrange(from as int, to as int)),
{
    let ghost s = w@.subrange(from as int, to as int);
    let start = if from < to && w[from] == '+' {
        from + 1
    } else {
        from
    };
    let ghost d = w@.subrange(start as int, to as int);
    proof {
        if from < to && w@[from as int] == '+' {
            assert(d =~= s.drop_first());
        } else {
            assert(d =~= s);
        }
    }
    if start == to {
        return false;
    }
    let mut acc: u64 = 0;
    let mut i: usize = start;
    while i < to
        invariant
            start <= i <= to <= w@.len(),
            s == w@.subrange(from as int, to as int),
            d == w@.subrange(start as int, to as int),
            d == hex_body(s),
            forall|j: int| 0 <= j < i - start ==> is_hex(#[trigger] d[j]),
            acc == hex_digits_value(d.take(i - start)),
        decreases to - i,
    {
        let c = w[i];
        let x: u64 = if '0' <= c && c <= '9' {
            (c as u64) - 48
        } else if 'a' <= c && c <= 'f' {
            (c as u64) - 87
        } else if 'A' <= c && c <= 'F' {
            (c as u64) - 55
        } else {
            assert(!is_hex(d[i - start]));
            return false;
        };
        proof {
            assert(d.take(i - start + 1).drop_last() =~= d.take(i - start));
            assert(d.take(i - start + 1).last() == c);
        }
        if acc > (u64::MAX - x) / 16 {
            proof {
                assert(acc * 16 + x > u64::MAX) by (nonlinear_arith)
                    requires
                        acc > (u64::MAX - x) / 16,
                        x < 16,
                ;
                lemma_hex_prefix(d, i - start + 1);
            }
            return false;
        }
        proof {
            assert(acc * 16 + x <= u64::MAX) by (nonlinear_arith)
                requires
                    acc <= (u64::MAX - x) / 16,
                    x < 16,
            ;
        }
        acc = acc * 16 + x;
        i = i + 1;
    }
    proof {
        assert(d.take(to - start) =~= d);
    }
    acc != 0
}

/// A maximal run `s[a..b]` of non-whitespace: a word of `split_whitespace`.
pub open spec fn is_word(s: Seq<char>, a: int, b: int) -> bool {
    &&& 0 <= a < b <= s.len()
    &&& a == 0 || is_ws(s[a - 1])
    &&& b == s.len() || is_ws(s[b])
    &&& forall|k: int| a <= k < b ==> !is_ws(#[trigger] s[k])
}

/// Some word of the capability bitmap is a non-zero hex number: the device
/// can emit keys.
pub open spec fn caps_have_keys(contents: Seq<char>) -> bool {
    exists|a: int, b: int|
        is_word(contents, a, b) && #[trigger] nonzero_hex(contents.subrange(a, b))
}

/// Whether a sysfs key capability bitmap (hex words separated by spaces)
/// has any key.
pub fn caps_report_keys(contents: &str) -> (r: bool)
    ensures
        r == caps_have_keys(contents@),
{
    let v = chars_of(contents);
    let n = v.len();
    let mut i: usize = 0;
    while i < n
        invariant
            i <= n,
            n == v@.len(),
            v@ == contents@,
            0 < i < n && !is_ws(v@[i - 1]) ==> is_ws(v@[i as int]),
            forall|a: int, b: int|
                #![trigger is_word(v@, a, b)]
                is_word(v@, a, b) && b <= i ==> !nonzero_hex(v@.subrange(a, b)),
        decreases n - i,
    {
        if is_whitespace(v[i]) {
            i = i + 1;
            proof {
                assert forall|a: int, b: int|
                    #![trigger is_word(v@, a, b)]
                    is_word(v@, a, b) && b <= i implies !nonzero_hex(v@.subrange(a, b)) by {
                    if b == i {
                        assert(!is_ws(v@[b - 1]));
                    }
                }
            }
        } else {
            let start = i;
            while i < n && !is_whitespace(v[i])
                invariant
                    start <= i <= n,
                    n == v@.len(),
                    forall|k: int| start <= k < i ==> !is_ws(#[trigger] v@[k]),
                decreases n - i,
            {
                i = i + 1;
            }
            proof {
                assert(is_word(v@, start as int, i as int));
            }
            if nonzero_hex_word(&v, start, i) {
                return true;
            }
            proof {
                assert forall|a: int, b: int|
                    #![trigger is_word(v@, a, b)]
                    is_word(v@, a, b) && b <= i implies !nonzero_hex(v@.subrange(a, b)) by {
                    if b > start {
                        if a < start {
                            assert(!is_ws(v@[start as int - 1]));
                        }
                        if a > start {
                            assert(!is_ws(v@[a - 1]));
                        }
                        if b < i {
                            assert(!is_ws(v@[b]));
                        }
                        assert(a == start && b == i);
                    }
                }
            }
        }
    }
    false
}

/// The number of an input event node: the part of `event<N>` after
/// `event`, or `None` for other names.
pub open spec fn event_number(file_name: Seq<char>) -> Option<Seq<char>> {
    if has_prefix(file_name, "event"@) {
        Some(file_name.skip(5))
    } else {
        None
    }
}

/// What was found out about one `/dev/input` node: its file name, whether
/// opening it was refused for lack of permission, and its sysfs `uevent`
/// and key capability files where they could be read.
#[derive(Debug)]
pub struct NodeProbe {
    pub file_name: String,
    pub permission_denied: bool,
    pub uevent: Option<String>,
    pub key_caps: Option<String>,
}

/// A node that is a USB key device the bridge may not open: an event node
/// refused for lack of permission whose `PHYS` marks USB (not HDMI) and
/// whose capabilities include keys.
pub open spec fn inaccessible_node(p: NodeProbe) -> bool {
    let phys = match p.uevent {
        Some(u) => match uevent_phys_from(split1(u@, '\n')) {
            Some(x) => x,
            None => Seq::empty(),
        },
        None => Seq::empty(),
    };
    &&& event_number(p.file_name@) is Some
    &&& p.permission_denied
    &&& has_prefix(lowercase(phys), "usb"@) && !contains_text(lowercase(phys), "hdmi"@)
    &&& p.key_caps matches Some(c) && caps_have_keys(c@)
}

/// How many of `nodes` are inaccessible USB key devices.
pub open spec fn inaccessible_count(nodes: Seq<NodeProbe>) -> nat
    decreases nodes.len(),
{
    if nodes.len() == 0 {
        0
    } else {
        inaccessible_count(nodes.drop_last()) + if inaccessible_node(nodes.last()) {
            1nat
        } else {
            0nat
        }
    }
}

/// Whether one node is an inaccessible USB key device.
pub fn is_inaccessible_node(p: &NodeProbe) -> (r: bool)
    ensures
        r == inaccessible_node(*p),
{
    if event_number_of(p.file_name.as_str()).is_none() || !p.permission_denied {
        return false;
    }
    let phys = match &p.uevent {
        Some(u) => match phys_from_uevent(u.as_str()) {
            Some(x) => x,
            None => String::new(),
        },
        None => String::new(),
    };
    let lower = to_lowercase(phys.as_str());
    if !starts_with(lower.as_str(), "usb") || contains_str(lower.as_str(), "hdmi") {
        return false;
    }
    match &p.key_caps {
        Some(c) => caps_report_keys(c.as_str()),
        None => false,
    }
}

/// Counts the USB key devices present but not readable (the user lacks
/// permission on `/dev/input/event*`), from what sysfs says of each node.
pub fn count_inaccessible(nodes: &Vec<NodeProbe>) -> (r: usize)
    ensures
        r == inaccessible_count(nodes@),
{
    let mut count: usize = 0;
    let mut i: usize = 0;
    while i < nodes.len()
        invariant
            i <= nodes@.len(),
            count == inaccessible_count(nodes@.take(i as int)),
            count <= i,
        decreases nodes@.len() - i,
    {
        assert(nodes@.take(i + 1).drop_last() =~= nodes@.take(i as int));
        if is_inaccessible_node(&nodes[i]) {
            count = count + 1;
        }
        i = i + 1;
    }
    assert(nodes@.take(nodes@.len() as int) =~= nodes@);
    count
}

/// The number of an `/dev/input/event<N>` node name.
pub fn event_number_of(file_name: &str) -> (r: Option<String>)
    ensures
        match r {
            Some(n) => event_number(file_name@) == Some(n@),
            None => event_number(file_name@) is None,
        },
{
    proof {
        reveal_strlit("event");
    }
    if starts_with(file_name, "event") {
        let n = file_name.unicode_len();
        assert(file_name@.subrange(5, n as int) =~= file_name@.skip(5));
        Some(to_owned_string(file_name.substring_char(5, n)))
    } else {
        None
    }
}

/// Key events report a value: 0 on release, 1 on press, 2 on repeat. The
/// bridge acts on releases only.
pub fn is_key_release(value: i32) -> (r: bool)
    ensures
        r == (value == 0),
{
    value == 0
}

/// Tracks the count of USB key devices that exist but cannot be read, and
/// reports it when it changes.
#[derive(Debug)]
pub struct AccessWatch {
    pub denied: usize,
}

impl AccessWatch {
    pub fn new() -> (r: Self)
        ensures
            r.denied == 0,
    {
        AccessWatch { denied: 0 }
    }

    /// Takes a fresh count; returns it when it differs from the last one.
    pub fn update(&mut self, count: usize) -> (r: Option<usize>)
        ensures
            final(self).denied == count,
            r == (if count != old(self).denied {
                Some(count)
            } else {
                None
            }),
    {
        let prev = self.denied;
        self.denied = count;
        if count != prev {
            Some(count)
        } else {
            None
        }
    }
}

// ---------------------------------------------------------------------------
// Command line of the headless bridge
// ---------------------------------------------------------------------------

/// What the command line asks for.
#[derive(Debug, PartialEq, Eq)]
pub enum CliRequest {
    /// Run, with this configuration directory if given.
    Run { config_dir: Option<String> },
    /// Print the usage text and exit successfully.
    Help,
    /// This argument is not known: report it and exit with failure.
    Unknown(String),
}

/// The request a list of arguments (without the program name) makes: `-c`
/// or `--config-dir` takes the next argument as the directory (a later one
/// wins; a trailing flag without value is ignored), `-h` or `--help` stops
/// at once with help, and anything else stops with an error.
pub open spec fn cli_request(args: Seq<Seq<char>>, dir: Option<Seq<char>>) -> CliView
    decreases args.len(),
{
    if args.len() == 0 {
        CliView::Run(dir)
    } else {
        let a = args[0];
        if a == "--config-dir"@ || a == "-c"@ {
            if args.len() >= 2 {
                cli_request(args.skip(2), Some(args[1]))
            } else {
                CliView::Run(dir)
            }
        } else if a == "--help"@ || a == "-h"@ {
            CliView::Help
        } else {
            CliView::Unknown(a)
        }
    }
}

/// A command line request as values.
pub enum CliView {
    Run(Option<Seq<char>>),
    Help,
    Unknown(Seq<char>),
}

pub open spec fn cli_view(r: CliRequest) -> CliView {
    match r {
        CliRequest::Run { config_dir } => CliView::Run(
            match config_dir {
                Some(d) => Some(d@),
                None => None,
            },
        ),
        CliRequest::Help => CliView::Help,
        CliRequest::Unknown(a) => CliView::Unknown(a@),
    }
}

/// Reads the headless bridge's arguments.
pub fn parse_args(args: &[String]) -> (r: CliRequest)
    ensures
        cli_view(r) == cli_request(args@.map_values(|s: String| s@), None),
{
    let ghost all = args@.map_values(|s: String| s@);
    let mut config_dir: Option<String> = None;
    let mut i: usize = 0;
    proof {
        assert(all.skip(0) =~= all);
    }
    while i < args.len()
        invariant
            i <= args@.len(),
            all == args@.map_values(|s: String| s@),
            cli_request(all, None) == cli_request(all.skip(i as int), match config_dir {
                Some(d) => Some(d@),
                None => None,
            }),
        decreases args.len() - i,
    {
        let ghost rest = all.skip(i as int);
        assert(rest[0] == args@[i as int]@);
        let a = args[i].as_str();
        if str_eq(a, "--config-dir") || str_eq(a, "-c") {
            if i + 1 < args.len() {
                assert(rest[1] == args@[i + 1]@);
                assert(rest.skip(2) =~= all.skip(i + 2));
                config_dir = Some(args[i + 1].clone());
                i = i + 2;
            } else {
                assert(rest.len() < 2);
                i = args.len();
                assert(all.skip(i as int) =~= Seq::<Seq<char>>::empty());
            }
        } else if str_eq(a, "--help") || str_eq(a, "-h") {
            return CliRequest::Help;
        } else {
            return CliRequest::Unknown(args[i].clone());
        }
    }
    CliRequest::Run { config_dir }
}

} // verus!

//! What goes into and comes out of an AppleScript run: the quoting of the
//! script for `osascript -e`, the reading of its exit, and the presence
//! check of an application. Running the process is the caller's part.

use vstd::prelude::*;
use vstd::string::*;
use crate::split::chars_of;
use crate::text::{push_char, push_str, str_eq, to_owned_string, trim, trim_str};

verus! {

/// `s` with every `'` written as `'\''`.
pub open spec fn shell_quote(s: Seq<char>) -> Seq<char>
    decreases s.len(),
{
    if s.len() == 0 {
        Seq::empty()
    } else {
        shell_quote(s.drop_last()) + if s.last() == '\'' {
            seq!['\'', '\\', '\'', '\'']
        } else {
            seq![s.last()]
        }
    }
}

/// `script.replace('\'', "'\\''")`.
pub fn shell_quoted(script: &str) -> (r: String)
    ensures
        r@ == shell_quote(script@),
{
    let v = chars_of(script);
    let mut out = String::new();
    let mut i: usize = 0;
    while i < v.len()
        invariant
            i <= v.len(),
            v@ == script@,
            out@ == shell_quote(v@.take(i as int)),
        decreases v.len() - i,
    {
        let c = v[i];
        proof {
            assert(v@.take(i + 1).drop_last() =~= v@.take(i as int));
        }
        if c == '\'' {
            push_char(&mut out, '\'');
            push_char(&mut out, '\\');
            push_char(&mut out, '\'');
            push_char(&mut out, '\'');
        } else {
            push_char(&mut out, c);
        }
        i = i + 1;
    }
    proof {
        assert(v@.take(v.len() as int) =~= v@);
    }
    out
}

pub open spec fn silent_failure_message() -> Seq<char> {
    "AppleScript execution failed with no error message"@
}

/// What a finished `osascript` run gives: its trimmed output on success,
/// else its trimmed error output, or a fixed message when that is empty.
pub fn osascript_outcome(success: bool, stdout: &str, stderr: &str) -> (r: Result<String, String>)
    ensures
        success ==> (r matches Ok(o) && o@ == trim(stdout@)),
        !success && trim(stderr@).len() == 0 ==> (r matches Err(e) && e@ == silent_failure_message()),
        !success && trim(stderr@).len() > 0 ==> (r matches Err(e) && e@ == trim(stderr@)),
{
    if success {
        Ok(to_owned_string(trim_str(stdout)))
    } else {
        let t = trim_str(stderr);
        if t.unicode_len() == 0 {
            Err(to_owned_string("AppleScript execution failed with no error message"))
        } else {
            Err(to_owned_string(t))
        }
    }
}

/// The script that asks System Events whether a process runs, without
/// launching it.
pub open spec fn running_script_text(process_name: Seq<char>) -> Seq<char> {
    "tell application \"System Events\" to (exists process \""@ + process_name + "\")"@
}

/// `tell application "System Events" to (exists process "{name}")`.
pub fn app_running_script(process_name: &str) -> (r: String)
    ensures
        r@ == running_script_text(process_name@),
{
    let mut s = to_owned_string("tell application \"System Events\" to (exists process \"");
    push_str(&mut s, process_name);
    push_str(&mut s, "\")");
    s
}

/// The process runs when the check answered `true`.
pub fn is_running_reply(result: &Result<String, String>) -> (r: bool)
    ensures
        r == (result matches Ok(o) && trim(o@) == "true"@),
{
    match result {
        Ok(o) => str_eq(trim_str(o.as_str()), "true"),
        Err(_) => false,
    }
}

/// Nothing is cached between runs, so there is nothing to clear.
pub fn clear_compiled_cache() {
}

} // verus!

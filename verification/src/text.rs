//! The text of a command's output: bytes to characters, and trimming.

use vstd::prelude::*;
use vstd::utf8::{decode_utf8, valid_utf8};

verus! {

/// The characters that Unicode gives the property `White_Space`.
pub open spec fn is_whitespace(c: char) -> bool {
    let n: u32 = c as u32;
    ||| 0x09 <= n <= 0x0D
    ||| n == 0x20
    ||| n == 0x85
    ||| n == 0xA0
    ||| n == 0x1680
    ||| 0x2000 <= n <= 0x200A
    ||| n == 0x2028
    ||| n == 0x2029
    ||| n == 0x202F
    ||| n == 0x205F
    ||| n == 0x3000
}

/// `s` without the whitespace it begins with.
pub open spec fn trimmed_start(s: Seq<char>) -> Seq<char>
    decreases s.len(),
{
    if s.len() > 0 && is_whitespace(s.first()) {
        trimmed_start(s.drop_first())
    } else {
        s
    }
}

/// `s` without the whitespace it ends with.
pub open spec fn trimmed_end(s: Seq<char>) -> Seq<char>
    decreases s.len(),
{
    if s.len() > 0 && is_whitespace(s.last()) {
        trimmed_end(s.drop_last())
    } else {
        s
    }
}

/// `s` without the whitespace at either end.
pub open spec fn trimmed(s: Seq<char>) -> Seq<char> {
    trimmed_end(trimmed_start(s))
}

/// The text that `String::from_utf8_lossy` reads from `bytes`: their
/// decoding, with U+FFFD in place of what is not UTF-8.
pub uninterp spec fn lossy_decoded(bytes: Seq<u8>) -> Seq<char>;

/// Calls `String::from_utf8_lossy`. Trusted: the result is a function of
/// the bytes alone, and bytes that are valid UTF-8 are decoded as they are.
#[verifier::external_body]
fn from_utf8_lossy(bytes: &Vec<u8>) -> (text: String)
    ensures
        text@ == lossy_decoded(bytes@),
        valid_utf8(bytes@) ==> text@ == decode_utf8(bytes@),
{
    String::from_utf8_lossy(bytes).into_owned()
}

/// Calls `str::trim`. Trusted: the result is the text without its leading
/// and trailing characters of the Unicode property `White_Space`.
#[verifier::external_body]
fn trim(text: &str) -> (r: String)
    ensures
        r@ == trimmed(text@),
{
    text.trim().to_owned()
}

/// What the run of a command left as text: its standard output, decoded
/// leniently and trimmed, or the message of the failure to run it.
pub open spec fn raw_output_view(run: Result<Seq<u8>, Seq<char>>) -> Seq<char> {
    match run {
        Ok(stdout) => trimmed(lossy_decoded(stdout)),
        Err(message) => message,
    }
}

/// The text that a block shows for the run of its command: the standard
/// output, decoded leniently and trimmed, where the command ran; the
/// message of the failure where it could not be run.
pub fn raw_output(run: Result<Vec<u8>, String>) -> (text: String)
    ensures
        text@ == raw_output_view(
            match run {
                Ok(stdout) => Ok(stdout@),
                Err(message) => Err(message@),
            },
        ),
        run matches Ok(stdout) ==> (valid_utf8(stdout@) ==> text@ == trimmed(
            decode_utf8(stdout@),
        )),
{
    match run {
        Ok(stdout) => {
            let decoded = from_utf8_lossy(&stdout);
            trim(decoded.as_str())
        },
        Err(message) => message,
    }
}

} // verus!

//! The wire format shared by both peers, as spec functions, and the text
//! helpers that parsing it needs.

use vstd::prelude::*;

verus! {

/// The byte that ends every response: after a file's bytes, or alone when
/// the file could not be opened.
pub const SENTINEL: u8 = 0;

/// The command line that begins a file request.
pub open spec fn request_line() -> Seq<char> {
    seq!['R', 'E', 'Q', 'U', 'E', 'S', 'T', '\n']
}

/// The command line that ends a session.
pub open spec fn close_line() -> Seq<char> {
    seq!['C', 'L', 'O', 'S', 'E', '\n']
}

/// What a client writes to ask for the file named `filename`.
pub open spec fn request_message(filename: Seq<char>) -> Seq<char> {
    request_line() + filename + seq!['\n']
}

/// Characters with the Unicode White_Space property.
pub open spec fn is_white_space(c: char) -> bool {
    let u = c as u32;
    ||| 0x9 <= u <= 0xd
    ||| u == 0x20
    ||| u == 0x85
    ||| u == 0xa0
    ||| u == 0x1680
    ||| 0x2000 <= u <= 0x200a
    ||| u == 0x2028
    ||| u == 0x2029
    ||| u == 0x202f
    ||| u == 0x205f
    ||| u == 0x3000
}

/// `s` without its trailing white space.
pub open spec fn trimmed_end(s: Seq<char>) -> Seq<char>
    decreases s.len(),
{
    if s.len() > 0 && is_white_space(s.last()) {
        trimmed_end(s.drop_last())
    } else {
        s
    }
}

/// What the server writes for one request: the file's bytes when it could
/// be opened, then the sentinel.
pub open spec fn response(contents: Option<Seq<u8>>) -> Seq<u8> {
    match contents {
        Some(c) => c.push(SENTINEL),
        None => seq![SENTINEL],
    }
}

/// How many bytes of `s` come before its first sentinel (all of them if it
/// holds none).
pub open spec fn data_len(s: Seq<u8>) -> nat
    decreases s.len(),
{
    if s.len() == 0 || s[0] == SENTINEL {
        0
    } else {
        1 + data_len(s.drop_first())
    }
}

/// Whether a client reading `s` meets the sentinel.
pub open spec fn sentinel_seen(s: Seq<u8>) -> bool {
    data_len(s) < s.len()
}

/// The file data that a client reading `s` takes in: the bytes before the
/// first sentinel.
pub open spec fn received(s: Seq<u8>) -> Seq<u8> {
    s.take(data_len(s) as int)
}

/// How many bytes of `s` a client reads for one response: up to and
/// including the sentinel, or all of them while it has not come.
pub open spec fn consumed(s: Seq<u8>) -> nat {
    if sentinel_seen(s) {
        data_len(s) + 1
    } else {
        s.len()
    }
}

/// A prefix free of sentinels, ended by a sentinel or by the end of `s`,
/// is exactly the data that `data_len` counts.
pub proof fn lemma_data_len(s: Seq<u8>, k: int)
    requires
        0 <= k <= s.len(),
        forall|j: int| 0 <= j < k ==> s[j] != SENTINEL,
        k == s.len() || s[k] == SENTINEL,
    ensures
        data_len(s) == k,
    decreases k,
{
    if k > 0 {
        lemma_data_len(s.drop_first(), k - 1);
    }
}

/// Relies on `str::trim_end`: the slice without its trailing characters of
/// the Unicode White_Space property.
#[verifier::external_body]
pub(crate) fn trim_end(s: &str) -> (r: &str)
    ensures
        r@ == trimmed_end(s@),
{
    s.trim_end()
}

} // verus!

//! What holds of whole exchanges: the server's responses, read back by a
//! client, give each file's bytes in turn.

use vstd::prelude::*;
use crate::wire::{
    SENTINEL,
    request_line,
    request_message,
    is_white_space,
    trimmed_end,
    response,
    data_len,
    sentinel_seen,
    received,
    consumed,
    lemma_data_len,
};

verus! {

/// No byte of `c` is the sentinel.
pub open spec fn free_of_sentinel(c: Seq<u8>) -> bool {
    forall|i: int| 0 <= i < c.len() ==> c[i] != SENTINEL
}

/// Whether a client can tell the end of a response for `file` from its
/// data: true unless the file holds a zero byte.
pub open spec fn unambiguous(file: Option<Seq<u8>>) -> bool {
    file matches Some(c) ==> free_of_sentinel(c)
}

/// The bytes that a request for a file should give: its contents, or none
/// when it could not be opened.
pub open spec fn delivered(file: Option<Seq<u8>>) -> Seq<u8> {
    match file {
        Some(c) => c,
        None => Seq::empty(),
    }
}

/// What the server writes for a run of requests, one response after another.
pub open spec fn responses(files: Seq<Option<Seq<u8>>>) -> Seq<u8>
    decreases files.len(),
{
    if files.len() == 0 {
        Seq::empty()
    } else {
        response(files[0]) + responses(files.drop_first())
    }
}

/// The data of `n` responses that a client reads from `stream`, one after
/// another, each read starting where the last one stopped.
pub open spec fn replies(stream: Seq<u8>, n: nat) -> Seq<Seq<u8>>
    decreases n,
{
    if n == 0 {
        Seq::empty()
    } else {
        seq![received(stream)] + replies(stream.skip(consumed(stream) as int), (n - 1) as nat)
    }
}

/// The bytes counted by `data_len` are free of sentinels, and a sentinel
/// stands right after them unless the stream ends there.
proof fn lemma_data_len_bounds(s: Seq<u8>)
    ensures
        data_len(s) <= s.len(),
        forall|j: int| 0 <= j < data_len(s) ==> s[j] != SENTINEL,
        data_len(s) < s.len() ==> s[data_len(s) as int] == SENTINEL,
    decreases s.len(),
{
    if s.len() > 0 && s[0] != SENTINEL {
        lemma_data_len_bounds(s.drop_first());
        assert forall|j: int| 0 <= j < data_len(s) implies s[j] != SENTINEL by {
            if j > 0 {
                assert(s[j] == s.drop_first()[j - 1]);
            }
        }
    }
}

/// A reader of `s + rest` stops inside `s` when `s` holds a sentinel, and
/// otherwise reads all of `s` and goes on into `rest`.
proof fn lemma_data_len_append(s: Seq<u8>, rest: Seq<u8>)
    ensures
        data_len(s + rest) == if sentinel_seen(s) {
            data_len(s)
        } else {
            s.len() + data_len(rest)
        },
{
    lemma_data_len_bounds(s);
    lemma_data_len_bounds(rest);
    let t = s + rest;
    if sentinel_seen(s) {
        lemma_data_len(t, data_len(s) as int);
    } else {
        let k = s.len() + data_len(rest);
        assert forall|j: int| 0 <= j < k implies t[j] != SENTINEL by {
            if j >= s.len() {
                assert(t[j] == rest[j - s.len()]);
            }
        }
        if k < t.len() {
            assert(t[k as int] == rest[data_len(rest) as int]);
        }
        lemma_data_len(t, k as int);
    }
}

/// One response followed by anything: the client takes in exactly the
/// file's bytes, reads through the sentinel, and leaves what follows for the
/// next read.
proof fn lemma_response_then(file: Option<Seq<u8>>, rest: Seq<u8>)
    requires
        unambiguous(file),
    ensures
        sentinel_seen(response(file) + rest),
        received(response(file) + rest) == delivered(file),
        consumed(response(file) + rest) == response(file).len(),
        (response(file) + rest).skip(consumed(response(file) + rest) as int) == rest,
{
    let d = delivered(file);
    let r = response(file);
    assert(r =~= d + seq![SENTINEL]);
    lemma_data_len_append(d, seq![SENTINEL]);
    lemma_data_len_append(r, rest);
    assert(data_len(seq![SENTINEL]) == 0);
    lemma_data_len(d, d.len() as int);
    assert(received(r + rest) =~= d);
    assert((r + rest).skip(r.len() as int) =~= rest);
}

/// A request for an existing file gives its bytes in order, ended by the
/// sentinel. The client takes in the bytes before the file's own first zero
/// byte, if it has one; when it has none, it takes in the whole file and
/// reads exactly one byte more.
pub proof fn lemma_existing_file(contents: Seq<u8>)
    ensures
        sentinel_seen(response(Some(contents))),
        received(response(Some(contents))) == received(contents),
        free_of_sentinel(contents) ==> received(response(Some(contents))) == contents
            && consumed(response(Some(contents))) == contents.len() + 1,
{
    lemma_data_len_bounds(contents);
    lemma_data_len_append(contents, seq![SENTINEL]);
    assert(data_len(seq![SENTINEL]) == 0);
    assert(response(Some(contents)) =~= contents + seq![SENTINEL]);
    assert(received(response(Some(contents))) =~= received(contents));
    if free_of_sentinel(contents) {
        lemma_data_len(contents, contents.len() as int);
        assert(received(contents) =~= contents);
    }
}

/// A request for a file that does not exist gives the sentinel alone: the
/// client takes in nothing and reads one byte.
pub proof fn lemma_missing_file()
    ensures
        sentinel_seen(response(None)),
        received(response(None)) == Seq::<u8>::empty(),
        consumed(response(None)) == 1,
{
    assert(data_len(response(None)) == 0);
    assert(received(response(None)) =~= Seq::<u8>::empty());
}

/// Requests made one after another on one session: reading the server's
/// responses back, the client gets each file's bytes in turn, each cut off
/// by its own sentinel, with nothing of one response running into the next.
pub proof fn lemma_sequential_requests(files: Seq<Option<Seq<u8>>>)
    requires
        forall|k: int| 0 <= k < files.len() ==> unambiguous(#[trigger] files[k]),
    ensures
        replies(responses(files), files.len()) == files.map_values(|f: Option<Seq<u8>>| delivered(f)),
    decreases files.len(),
{
    if files.len() > 0 {
        let rest = files.drop_first();
        lemma_response_then(files[0], responses(rest));
        lemma_sequential_requests(rest);
        assert(replies(responses(files), files.len()) =~= files.map_values(
            |f: Option<Seq<u8>>| delivered(f),
        ));
    } else {
        assert(replies(responses(files), files.len()) =~= files.map_values(
            |f: Option<Seq<u8>>| delivered(f),
        ));
    }
}

/// A client's request is the request line followed by a line naming the
/// file; a name that is not empty and does not end in white space comes out
/// of that line unchanged.
pub proof fn lemma_request_names_file(filename: Seq<char>)
    requires
        filename.len() > 0,
        !is_white_space(filename.last()),
    ensures
        request_message(filename) == request_line() + filename.push('\n'),
        trimmed_end(filename.push('\n')) == filename,
{
    assert(request_message(filename) =~= request_line() + filename.push('\n'));
    assert(filename.push('\n').drop_last() =~= filename);
    assert(is_white_space('\n'));
    assert(trimmed_end(filename) == filename);
}

} // verus!

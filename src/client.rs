//! The client side of a session: ask for a file, read its bytes up to the
//! sentinel, ask again or close.

use vstd::prelude::*;
use vstd::string::StringExecFns;
use crate::wire::{
    close_line,
    request_message,
    received,
    consumed,
    sentinel_seen,
    lemma_data_len,
    SENTINEL,
};

verus! {

/// A client session in state `S`.
pub struct FileClient<S> {
    pub state: S,
}

/// No request is open; a file can be asked for, or the session closed.
pub struct Started;

/// A request was sent; the response is being read.
pub struct RequestingFile;

/// Whether the response is still coming after a byte was read.
pub enum RequestingFileResult {
    RequestingFile(FileClient<RequestingFile>),
    Started(FileClient<Started>),
}

impl FileClient<Started> {
    /// A fresh session on a newly opened connection.
    pub fn start() -> (r: FileClient<Started>) {
        FileClient { state: Started }
    }

    /// Asks for the file named `filename`: the result holds the session,
    /// now reading the response, and the text to write and flush.
    pub fn request(self, filename: &str) -> (r: (FileClient<RequestingFile>, String))
        ensures
            r.1@ == request_message(filename@),
    {
        proof {
            reveal_strlit("REQUEST\n");
            reveal_strlit("\n");
        }
        let mut message = "REQUEST\n".to_owned();
        message.append(filename);
        message.append("\n");
        assert(message@ =~= request_message(filename@));
        (FileClient { state: RequestingFile }, message)
    }

    /// Ends the session: the result is the text to write.
    pub fn close(self) -> (r: String)
        ensures
            r@ == close_line(),
    {
        proof {
            reveal_strlit("CLOSE\n");
        }
        let r = "CLOSE\n".to_owned();
        assert(r@ =~= close_line());
        r
    }
}

impl FileClient<RequestingFile> {
    /// Takes one byte of the response. The sentinel ends it; any other byte
    /// is file data, and more is to come.
    pub fn read_byte(self, byte: u8) -> (r: RequestingFileResult)
        ensures
            r is Started <==> byte == SENTINEL,
    {
        if byte == SENTINEL {
            RequestingFileResult::Started(FileClient { state: Started })
        } else {
            RequestingFileResult::RequestingFile(FileClient { state: RequestingFile })
        }
    }
}

/// Reads the response from `incoming`, the bytes that came on the connection,
/// one by one until the sentinel. The result holds the session after the
/// last byte read, the file data taken in, and how many bytes were read.
pub fn receive_response(client: FileClient<RequestingFile>, incoming: &[u8]) -> (r: (
    RequestingFileResult,
    Vec<u8>,
    usize,
))
    ensures
        r.0 is Started <==> sentinel_seen(incoming@),
        r.1@ == received(incoming@),
        r.2 == consumed(incoming@),
{
    let mut data: Vec<u8> = Vec::new();
    let mut session = client;
    let mut i: usize = 0;
    while i < incoming.len()
        invariant
            0 <= i <= incoming@.len(),
            forall|j: int| 0 <= j < i ==> incoming@[j] != SENTINEL,
            data@ == incoming@.take(i as int),
        decreases incoming@.len() - i,
    {
        let byte = incoming[i];
        match session.read_byte(byte) {
            RequestingFileResult::RequestingFile(s) => {
                session = s;
                data.push(byte);
                assert(data@ =~= incoming@.take(i + 1));
                i = i + 1;
            },
            RequestingFileResult::Started(s) => {
                proof {
                    lemma_data_len(incoming@, i as int);
                }
                return (RequestingFileResult::Started(s), data, i + 1);
            },
        }
    }
    proof {
        lemma_data_len(incoming@, i as int);
    }
    (RequestingFileResult::RequestingFile(session), data, i)
}

} // verus!

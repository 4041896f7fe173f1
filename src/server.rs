//! The server side of a session: wait for a command, read a file name, stream
//! the file's bytes, end with the sentinel, and start over until `CLOSE`.

use vstd::prelude::*;
use crate::wire::{request_line, close_line, trimmed_end, response, trim_end, SENTINEL};

verus! {

/// A server session in state `S`. `writer` holds the bytes written to the
/// connection that the next flush sends.
pub struct FileServer<S> {
    pub writer: Vec<u8>,
    pub state: S,
}

/// Waiting for a command line.
pub struct Started;

/// A request came; waiting for the line that names the file.
pub struct WaitingFilename;

/// The file name is known; the file store is to be asked for it.
pub struct SearchingFilename {
    pub filename: String,
}

/// The file is open; the bytes that are left are still to be sent.
pub struct SendingFile {
    bytes: FileBytes,
}

/// At least one byte of the file is left, and the next one is to be sent.
pub struct SendByte {
    bytes: FileBytes,
}

/// Only the sentinel is left to send.
pub struct SendZeroByte;

/// `CLOSE` came; the session ends.
pub struct Closing;

/// A cursor over the bytes of an open file, with one byte of lookahead.
pub struct FileBytes {
    data: Vec<u8>,
    pos: usize,
}

/// Where a command line leads a waiting session.
pub enum HasCommandResult {
    WaitingFilename(FileServer<WaitingFilename>),
    Closing(FileServer<Closing>),
    Started(FileServer<Started>),
}

/// Where a line read after a request leads.
pub enum WaitingFilenameResult {
    SearchingFilename(FileServer<SearchingFilename>),
    WaitingFilename(FileServer<WaitingFilename>),
}

/// Whether the file store gave the named file.
pub enum SearchingFilenameResult {
    SendingFile(FileServer<SendingFile>),
    SendZeroByte(FileServer<SendZeroByte>),
}

/// Whether a byte of the file is left to send.
pub enum SendingFileResult {
    SendZeroByte(FileServer<SendZeroByte>),
    SendByte(FileServer<SendByte>),
}

impl View for FileBytes {
    type V = Seq<u8>;

    /// The bytes not yet taken.
    closed spec fn view(&self) -> Seq<u8> {
        self.data@.subrange(self.pos as int, self.data@.len() as int)
    }
}

impl FileBytes {
    #[verifier::type_invariant]
    spec fn inv(self) -> bool {
        self.pos <= self.data@.len()
    }

    pub fn new(data: Vec<u8>) -> (r: FileBytes)
        ensures
            r@ == data@,
    {
        let r = FileBytes { data, pos: 0 };
        assert(r@ =~= r.data@);
        r
    }

    /// The next byte, without taking it.
    pub fn peek(&self) -> (r: Option<u8>)
        ensures
            r == (if self@.len() > 0 { Some(self@[0]) } else { None::<u8> }),
    {
        proof {
            use_type_invariant(self);
        }
        if self.pos < self.data.len() {
            Some(self.data[self.pos])
        } else {
            None
        }
    }

    /// Takes the next byte.
    pub fn next(&mut self) -> (r: Option<u8>)
        ensures
            old(self)@.len() > 0 ==> r == Some(old(self)@[0]) && final(self)@ == old(self)@.drop_first(),
            old(self)@.len() == 0 ==> r is None && final(self)@ == old(self)@,
    {
        proof {
            use_type_invariant(&*self);
        }
        if self.pos < self.data.len() {
            let b = self.data[self.pos];
            self.pos = self.pos + 1;
            assert(self@ =~= old(self)@.drop_first());
            Some(b)
        } else {
            None
        }
    }
}

impl View for SendingFile {
    type V = Seq<u8>;

    /// The bytes of the file still to be sent.
    closed spec fn view(&self) -> Seq<u8> {
        self.bytes@
    }
}

impl View for SendByte {
    type V = Seq<u8>;

    /// The bytes of the file still to be sent, the next one first.
    closed spec fn view(&self) -> Seq<u8> {
        self.bytes@
    }
}

impl SendByte {
    #[verifier::type_invariant]
    spec fn inv(self) -> bool {
        self.bytes@.len() > 0
    }
}

impl FileServer<Started> {
    /// A fresh session on a newly accepted connection.
    pub fn start() -> (r: FileServer<Started>)
        ensures
            r.writer@.len() == 0,
    {
        FileServer { writer: Vec::new(), state: Started }
    }

    /// Dispatches on the command line that was read, line end included: a
    /// request, a close, or anything else, which leaves the session waiting
    /// for the next command.
    pub fn has_command(self, command: &str) -> (r: HasCommandResult)
        ensures
            match r {
                HasCommandResult::WaitingFilename(s) => command@ == request_line() && s.writer
                    == self.writer,
                HasCommandResult::Closing(s) => command@ == close_line() && s.writer
                    == self.writer,
                HasCommandResult::Started(s) => command@ != request_line() && command@
                    != close_line() && s.writer == self.writer,
            },
    {
        proof {
            reveal_strlit("REQUEST\n");
            reveal_strlit("CLOSE\n");
        }
        let line = command.to_owned();
        let request = "REQUEST\n".to_owned();
        let close = "CLOSE\n".to_owned();
        assert(request@ =~= request_line());
        assert(close@ =~= close_line());
        if line == request {
            HasCommandResult::WaitingFilename(
                FileServer { writer: self.writer, state: WaitingFilename },
            )
        } else if line == close {
            HasCommandResult::Closing(FileServer { writer: self.writer, state: Closing })
        } else {
            HasCommandResult::Started(FileServer { writer: self.writer, state: Started })
        }
    }
}

impl FileServer<WaitingFilename> {
    /// Takes the line read after a request. An empty read leaves the session
    /// waiting; any other line, without its trailing white space, names the
    /// file.
    pub fn has_filename(self, line: &str) -> (r: WaitingFilenameResult)
        ensures
            match r {
                WaitingFilenameResult::WaitingFilename(s) => line@.len() == 0 && s.writer
                    == self.writer,
                WaitingFilenameResult::SearchingFilename(s) => line@.len() > 0
                    && s.state.filename@ == trimmed_end(line@) && s.writer == self.writer,
            },
    {
        if line.is_empty() {
            WaitingFilenameResult::WaitingFilename(
                FileServer { writer: self.writer, state: WaitingFilename },
            )
        } else {
            let filename = trim_end(line).to_owned();
            WaitingFilenameResult::SearchingFilename(
                FileServer { writer: self.writer, state: SearchingFilename { filename } },
            )
        }
    }
}

impl FileServer<SearchingFilename> {
    /// Takes what the file store gave for the file name: the file's bytes, or
    /// `None` when it could not be opened or read. A missing file and an
    /// unreadable one lead alike to the sentinel alone.
    pub fn filename_exists(self, contents: Option<Vec<u8>>) -> (r: SearchingFilenameResult)
        ensures
            match r {
                SearchingFilenameResult::SendingFile(s) => contents matches Some(c) && s.state@
                    == c@ && s.writer == self.writer,
                SearchingFilenameResult::SendZeroByte(s) => contents is None && s.writer
                    == self.writer,
            },
    {
        match contents {
            Some(c) => SearchingFilenameResult::SendingFile(
                FileServer { writer: self.writer, state: SendingFile { bytes: FileBytes::new(c) } },
            ),
            None => SearchingFilenameResult::SendZeroByte(
                FileServer { writer: self.writer, state: SendZeroByte },
            ),
        }
    }
}

impl FileServer<SendingFile> {
    /// Looks ahead: the sentinel is next once the file is exhausted, else its
    /// next byte.
    pub fn eof(self) -> (r: SendingFileResult)
        ensures
            match r {
                SendingFileResult::SendZeroByte(s) => self.state@.len() == 0 && s.writer
                    == self.writer,
                SendingFileResult::SendByte(s) => self.state@.len() > 0 && s.state@
                    == self.state@ && s.writer == self.writer,
            },
    {
        if self.state.bytes.peek().is_none() {
            SendingFileResult::SendZeroByte(FileServer { writer: self.writer, state: SendZeroByte })
        } else {
            SendingFileResult::SendByte(
                FileServer { writer: self.writer, state: SendByte { bytes: self.state.bytes } },
            )
        }
    }
}

impl FileServer<SendByte> {
    /// Takes one byte of the file and writes it.
    pub fn send_byte(self) -> (r: FileServer<SendingFile>)
        ensures
            self.state@.len() > 0,
            r.writer@ == self.writer@.push(self.state@[0]),
            r.state@ == self.state@.drop_first(),
    {
        proof {
            use_type_invariant(&self.state);
        }
        let FileServer { mut writer, state } = self;
        let SendByte { mut bytes } = state;
        let b = bytes.next().unwrap();
        writer.push(b);
        FileServer { writer, state: SendingFile { bytes } }
    }
}

impl FileServer<SendZeroByte> {
    /// Writes the sentinel and flushes: the result holds every byte written
    /// since the last flush, the session waits for the next command.
    pub fn send_zero_byte(self) -> (r: (FileServer<Started>, Vec<u8>))
        ensures
            r.1@ == self.writer@.push(SENTINEL),
            r.0.writer@.len() == 0,
    {
        let mut out = self.writer;
        out.push(SENTINEL);
        (FileServer { writer: Vec::new(), state: Started }, out)
    }
}

impl FileServer<Closing> {
    /// Ends the session; the connection goes with it.
    pub fn close(self) {
    }
}

/// Sends the rest of the file, byte by byte.
pub fn send_all_bytes(fs: FileServer<SendingFile>) -> (r: FileServer<SendZeroByte>)
    ensures
        r.writer@ == fs.writer@ + fs.state@,
{
    let ghost total = fs.writer@ + fs.state@;
    let mut cur = fs;
    loop
        invariant
            cur.writer@ + cur.state@ == total,
            total == fs.writer@ + fs.state@,
        decreases cur.state@.len(),
    {
        match cur.eof() {
            SendingFileResult::SendByte(s) => {
                let ghost before = s;
                cur = s.send_byte();
                assert(cur.writer@ + cur.state@ =~= before.writer@ + before.state@);
            },
            SendingFileResult::SendZeroByte(s) => {
                assert(s.writer@ =~= total);
                return s;
            },
        }
    }
}

/// Answers a request once the file name is known: the file's bytes when the
/// file store had it, then the sentinel, all flushed. The session then waits
/// for the next command.
pub fn serve_file(fs: FileServer<SearchingFilename>, contents: Option<Vec<u8>>) -> (r: (
    FileServer<Started>,
    Vec<u8>,
))
    ensures
        r.1@ == fs.writer@ + response(contents.deep_view()),
        r.0.writer@.len() == 0,
{
    let ghost opened = contents.deep_view();
    let ghost pending = fs.writer@;
    let last = match fs.filename_exists(contents) {
        SearchingFilenameResult::SendingFile(s) => send_all_bytes(s),
        SearchingFilenameResult::SendZeroByte(s) => s,
    };
    let r = last.send_zero_byte();
    assert(r.1@ =~= pending + response(opened));
    r
}

} // verus!

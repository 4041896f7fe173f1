use file_transfer::client::{receive_response, FileClient, RequestingFileResult};
use file_transfer::server::{serve_file, FileServer, HasCommandResult, WaitingFilenameResult};
use file_transfer::{client, server};

/// Runs one request through both peers: the client's message is split into
/// lines for the server, and the server's bytes are read back by the client.
/// Also gives how many of the server's bytes the client left unread.
fn exchange(
    client: FileClient<client::Started>,
    server: FileServer<server::Started>,
    name: &str,
    store: &dyn Fn(&str) -> Option<Vec<u8>>,
) -> (FileClient<client::Started>, FileServer<server::Started>, Vec<u8>, usize) {
    let (client, message) = client.request(name);
    let lines: Vec<String> = message.split_inclusive('\n').map(|l| l.to_string()).collect();
    assert_eq!(lines.len(), 2);
    let server = match server.has_command(&lines[0]) {
        HasCommandResult::WaitingFilename(s) => s,
        _ => panic!("the client's first line is a request"),
    };
    let server = match server.has_filename(&lines[1]) {
        WaitingFilenameResult::SearchingFilename(s) => s,
        _ => panic!("the client's second line names the file"),
    };
    let contents = store(&server.state.filename);
    let (server, wire) = serve_file(server, contents);
    let (state, data, used) = receive_response(client, &wire);
    match state {
        RequestingFileResult::Started(c) => (c, server, data, wire.len() - used),
        RequestingFileResult::RequestingFile(_) => panic!("the response must end with the sentinel"),
    }
}

fn store(name: &str) -> Option<Vec<u8>> {
    match name {
        "test1.txt" => Some(vec![0x41, 0x42, 0x43]),
        "test2.txt" => Some(b"hello world".to_vec()),
        "empty.txt" => Some(Vec::new()),
        "zero.txt" => Some(vec![1, 0, 2]),
        _ => None,
    }
}

#[test]
fn existing_file_arrives_whole() {
    let (_, _, data, left) = exchange(FileClient::start(), FileServer::start(), "test1.txt", &store);
    assert_eq!(data, vec![0x41, 0x42, 0x43]);
    assert_eq!(left, 0);
}

#[test]
fn missing_file_arrives_empty() {
    let (_, _, data, left) = exchange(FileClient::start(), FileServer::start(), "test9.txt", &store);
    assert!(data.is_empty());
    assert_eq!(left, 0);
}

#[test]
fn empty_file_arrives_empty() {
    let (_, _, data, _) = exchange(FileClient::start(), FileServer::start(), "empty.txt", &store);
    assert!(data.is_empty());
}

#[test]
fn zero_byte_cuts_the_file_short() {
    let (_, _, data, left) = exchange(FileClient::start(), FileServer::start(), "zero.txt", &store);
    assert_eq!(data, vec![1]);
    assert_eq!(left, 2);
}

#[test]
fn sequential_requests_on_one_session() {
    let (c, s) = (FileClient::start(), FileServer::start());
    let (c, s, first, _) = exchange(c, s, "test1.txt", &store);
    let (c, s, second, _) = exchange(c, s, "test2.txt", &store);
    let (c, s, third, _) = exchange(c, s, "test3.txt", &store);
    assert_eq!(first, vec![0x41, 0x42, 0x43]);
    assert_eq!(second, b"hello world".to_vec());
    assert!(third.is_empty());
    let close = c.close();
    match s.has_command(&close) {
        HasCommandResult::Closing(s) => s.close(),
        _ => panic!("the client's close must close the server"),
    }
}

#[test]
fn concatenated_responses_split_back() {
    let (_, a) = serve_file(
        FileServer { writer: Vec::new(), state: server::SearchingFilename { filename: "a".to_string() } },
        Some(vec![5, 6]),
    );
    let (_, b) = serve_file(
        FileServer { writer: Vec::new(), state: server::SearchingFilename { filename: "b".to_string() } },
        None,
    );
    let (_, c) = serve_file(
        FileServer { writer: Vec::new(), state: server::SearchingFilename { filename: "c".to_string() } },
        Some(vec![7]),
    );
    let stream: Vec<u8> = [a, b, c].concat();
    assert_eq!(stream, vec![5, 6, 0, 0, 7, 0]);
    let mut rest: &[u8] = &stream;
    let mut got = Vec::new();
    for _ in 0..3 {
        let (client, _) = FileClient::start().request("x");
        let (state, data, used) = receive_response(client, rest);
        assert!(matches!(state, RequestingFileResult::Started(_)));
        got.push(data);
        rest = &rest[used..];
    }
    assert!(rest.is_empty());
    assert_eq!(got, vec![vec![5, 6], vec![], vec![7]]);
}

use file_transfer::client::{receive_response, FileClient, RequestingFile, RequestingFileResult, Started};

fn requesting(name: &str) -> FileClient<RequestingFile> {
    FileClient::<Started>::start().request(name).0
}

#[test]
fn request_message_names_the_file() {
    let (_, message) = FileClient::<Started>::start().request("test1.txt");
    assert_eq!(message, "REQUEST\ntest1.txt\n");
}

#[test]
fn close_message() {
    assert_eq!(FileClient::<Started>::start().close(), "CLOSE\n");
}

#[test]
fn sentinel_ends_the_response() {
    assert!(matches!(requesting("f").read_byte(0), RequestingFileResult::Started(_)));
}

#[test]
fn other_bytes_are_data() {
    assert!(matches!(requesting("f").read_byte(0x41), RequestingFileResult::RequestingFile(_)));
    assert!(matches!(requesting("f").read_byte(0xff), RequestingFileResult::RequestingFile(_)));
}

#[test]
fn test1_response_is_read_back() {
    let (state, data, used) = receive_response(requesting("test1.txt"), &[0x41, 0x42, 0x43, 0x00]);
    assert!(matches!(state, RequestingFileResult::Started(_)));
    assert_eq!(data, vec![0x41, 0x42, 0x43]);
    assert_eq!(used, 4);
}

#[test]
fn sentinel_alone_gives_no_data() {
    let (state, data, used) = receive_response(requesting("missing.txt"), &[0x00]);
    assert!(matches!(state, RequestingFileResult::Started(_)));
    assert!(data.is_empty());
    assert_eq!(used, 1);
}

#[test]
fn reading_stops_at_the_sentinel() {
    let (state, data, used) = receive_response(requesting("a"), &[1, 2, 0, 3, 0]);
    assert!(matches!(state, RequestingFileResult::Started(_)));
    assert_eq!(data, vec![1, 2]);
    assert_eq!(used, 3);
}

#[test]
fn partial_response_keeps_requesting() {
    let (state, data, used) = receive_response(requesting("a"), &[1, 2]);
    assert_eq!(data, vec![1, 2]);
    assert_eq!(used, 2);
    let client = match state {
        RequestingFileResult::RequestingFile(c) => c,
        RequestingFileResult::Started(_) => panic!("no sentinel came yet"),
    };
    let (state, data, used) = receive_response(client, &[3, 0]);
    assert!(matches!(state, RequestingFileResult::Started(_)));
    assert_eq!(data, vec![3]);
    assert_eq!(used, 2);
}

#[test]
fn empty_input_reads_nothing() {
    let (state, data, used) = receive_response(requesting("a"), &[]);
    assert!(matches!(state, RequestingFileResult::RequestingFile(_)));
    assert!(data.is_empty());
    assert_eq!(used, 0);
}

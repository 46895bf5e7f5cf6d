use file_transfer::message::{parse_message, server_message, ParseError};

#[test]
fn hello_world_scenario() {
    // A 13-byte file crosses the wire as 0x0000000D followed by its bytes.
    let content: Vec<u8> = b"Hello, world!".to_vec();
    assert_eq!(content.len(), 13);

    let wire = server_message(Some(&content));
    assert_eq!(wire.len(), 4 + 13);
    assert_eq!(&wire[..4], &[0x00, 0x00, 0x00, 0x0d]);
    assert_eq!(&wire[4..], b"Hello, world!");

    let received = parse_message(&wire);
    assert_eq!(received, Ok(Some(content)));
}

#[test]
fn transfer_round_trips_for_all_sizes_tried() {
    for len in [1usize, 2, 255, 256, 1000] {
        let content: Vec<u8> = (0..len).map(|i| (i % 251) as u8).collect();
        let wire = server_message(Some(&content));
        assert_eq!(wire.len(), 4 + len);
        assert_eq!(parse_message(&wire), Ok(Some(content)));
    }
}

#[test]
fn absent_file_sends_sentinel() {
    let wire = server_message(None);
    assert_eq!(wire, vec![0, 0, 0, 0]);
}

#[test]
fn absent_file_parses_as_not_found() {
    let wire = server_message(None);
    assert_eq!(parse_message(&wire), Ok(None));
}

#[test]
fn empty_file_is_indistinguishable_from_absent() {
    let content: Vec<u8> = Vec::new();
    let wire = server_message(Some(&content));
    assert_eq!(wire, vec![0, 0, 0, 0]);
    assert_eq!(parse_message(&wire), Ok(None));
}

#[test]
fn truncated_header_is_an_error() {
    let content: Vec<u8> = b"Hello, world!".to_vec();
    let wire = server_message(Some(&content));
    for k in 0..4 {
        let cut: Vec<u8> = wire[..k].to_vec();
        assert_eq!(parse_message(&cut), Err(ParseError::TruncatedHeader));
    }
}

#[test]
fn truncated_payload_is_an_error() {
    let content: Vec<u8> = b"Hello, world!".to_vec();
    let wire = server_message(Some(&content));
    for k in 4..wire.len() {
        let cut: Vec<u8> = wire[..k].to_vec();
        assert_eq!(parse_message(&cut), Err(ParseError::TruncatedPayload));
    }
}

#[test]
fn bytes_past_the_payload_are_ignored() {
    let wire = vec![0, 0, 0, 1, 7, 8, 9];
    assert_eq!(parse_message(&wire), Ok(Some(vec![7])));
}

#[test]
fn sequential_connections_see_current_content() {
    // The server builds each connection's message from the contents current
    // at that connection, so a change between connections reaches the next
    // client.
    let first: Vec<u8> = b"first version".to_vec();
    let wire1 = server_message(Some(&first));
    assert_eq!(parse_message(&wire1), Ok(Some(first)));

    let second: Vec<u8> = b"second version, edited".to_vec();
    let wire2 = server_message(Some(&second));
    assert_eq!(parse_message(&wire2), Ok(Some(second)));
}

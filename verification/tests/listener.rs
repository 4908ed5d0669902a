use heartbeat::listener::{
    handle_datagram, read_payload, record, Receipt, DATAGRAM_CAPACITY, PORT, WIRE_LEN,
};
use heartbeat::registry::Registry;
use heartbeat::store::LivenessStore;
use heartbeat::sweeper::{Health, LivenessEntry};

const A: u128 = 0x11111111_1111_1111_1111_111111111111;
const B: u128 = 0x22222222_2222_2222_2222_222222222222;
const A_TEXT: &str = "11111111-1111-1111-1111-111111111111";
const B_TEXT: &str = "22222222-2222-2222-2222-222222222222";
const SECOND: u64 = 1_000_000_000;

fn store_with_a() -> LivenessStore {
    let mut registry = Registry::new();
    registry.insert(A, String::from("alpha"));
    LivenessStore::new(&registry, 0)
}

fn fresh() -> Option<LivenessEntry> {
    Some(LivenessEntry { last_seen: 0, health: Health::Up })
}

#[test]
fn port_and_wire_length_have_their_values() {
    assert_eq!(PORT, 28915);
    assert_eq!(WIRE_LEN, 36);
    assert_eq!(DATAGRAM_CAPACITY, 65_535);
}

#[test]
fn a_heartbeat_of_a_registered_server_is_recorded() {
    let mut store = store_with_a();
    assert_eq!(handle_datagram(&mut store, A_TEXT.as_bytes(), 4 * SECOND), Receipt::Heartbeat(A));
    assert_eq!(store.get(A), Some(LivenessEntry { last_seen: 4 * SECOND, health: Health::Up }));
}

#[test]
fn a_malformed_datagram_changes_nothing() {
    let mut store = store_with_a();
    assert_eq!(handle_datagram(&mut store, b"not-a-uuid", 4 * SECOND), Receipt::Malformed);
    assert_eq!(store.get(A), fresh());
    assert_eq!(store.len(), 1);
}

#[test]
fn the_datagram_after_a_malformed_one_is_still_processed() {
    let mut store = store_with_a();
    assert_eq!(handle_datagram(&mut store, b"not-a-uuid", 4 * SECOND), Receipt::Malformed);
    assert_eq!(handle_datagram(&mut store, A_TEXT.as_bytes(), 5 * SECOND), Receipt::Heartbeat(A));
    assert_eq!(store.get(A), Some(LivenessEntry { last_seen: 5 * SECOND, health: Health::Up }));
}

#[test]
fn an_unknown_sender_creates_no_entry() {
    let mut store = store_with_a();
    assert_eq!(
        handle_datagram(&mut store, B_TEXT.as_bytes(), 4 * SECOND),
        Receipt::UnknownSender(B)
    );
    assert_eq!(store.len(), 1);
    assert_eq!(store.get(B), None);
    assert_eq!(store.get(A), fresh());
}

#[test]
fn an_empty_datagram_is_malformed() {
    let mut store = store_with_a();
    assert_eq!(handle_datagram(&mut store, b"", SECOND), Receipt::Malformed);
    assert_eq!(store.get(A), fresh());
}

#[test]
fn bytes_that_are_no_text_are_malformed() {
    let mut store = store_with_a();
    let payload: Vec<u8> = vec![0xff, 0xfe, 0x00, 0x80, 0xc3];
    assert_eq!(handle_datagram(&mut store, &payload, SECOND), Receipt::Malformed);
    let mut broken = A_TEXT.as_bytes().to_vec();
    broken[35] = 0xff;
    assert_eq!(handle_datagram(&mut store, &broken, SECOND), Receipt::Malformed);
    assert_eq!(store.get(A), fresh());
}

#[test]
fn whitespace_around_the_canonical_text_is_trimmed() {
    let mut store = store_with_a();
    let payload = format!(" {}", A_TEXT);
    assert_eq!(payload.len(), 37);
    assert_eq!(handle_datagram(&mut store, payload.as_bytes(), SECOND), Receipt::Heartbeat(A));
    assert_eq!(store.get(A), Some(LivenessEntry { last_seen: SECOND, health: Health::Up }));

    let payload = format!("{}\n", A_TEXT);
    assert_eq!(payload.len(), 37);
    assert_eq!(handle_datagram(&mut store, payload.as_bytes(), 4 * SECOND), Receipt::Heartbeat(A));
    assert_eq!(store.get(A), Some(LivenessEntry { last_seen: 4 * SECOND, health: Health::Up }));

    let payload = format!("\t \r\n{}\u{a0}\u{3000} \r\n", A_TEXT);
    assert_eq!(handle_datagram(&mut store, payload.as_bytes(), 6 * SECOND), Receipt::Heartbeat(A));
    assert_eq!(store.get(A), Some(LivenessEntry { last_seen: 6 * SECOND, health: Health::Up }));
}

#[test]
fn a_long_run_of_whitespace_around_the_identifier_is_trimmed() {
    let mut payload = vec![b' '; 30_000];
    payload.extend_from_slice(A_TEXT.as_bytes());
    payload.extend(vec![b'\n'; 30_000]);
    assert!(payload.len() <= DATAGRAM_CAPACITY);
    assert_eq!(read_payload(&payload), Some(A));
}

#[test]
fn a_text_longer_than_an_identifier_is_malformed() {
    let mut store = store_with_a();
    let braced = format!("{{{}}}", A_TEXT);
    assert_eq!(handle_datagram(&mut store, braced.as_bytes(), SECOND), Receipt::Malformed);
    let urn = format!("urn:uuid:{}", A_TEXT);
    assert_eq!(handle_datagram(&mut store, urn.as_bytes(), SECOND), Receipt::Malformed);
    let followed = format!("{}x", A_TEXT);
    assert_eq!(handle_datagram(&mut store, followed.as_bytes(), SECOND), Receipt::Malformed);
    let followed = format!("{} {}", A_TEXT, A_TEXT);
    assert_eq!(handle_datagram(&mut store, followed.as_bytes(), SECOND), Receipt::Malformed);
    let padded = format!(" {{{}}} ", A_TEXT);
    assert_eq!(handle_datagram(&mut store, padded.as_bytes(), SECOND), Receipt::Malformed);
    assert_eq!(store.get(A), fresh());
}

#[test]
fn whitespace_around_the_identifier_is_trimmed() {
    assert_eq!(read_payload(b" 11111111111111111111111111111111 \r\n"), Some(A));
    assert_eq!(read_payload(b"\t11111111111111111111111111111111"), Some(A));
    assert_eq!(read_payload(b"1111111111111111 1111111111111111"), None);
    assert_eq!(read_payload("\u{a0}11111111111111111111111111111111\u{a0}".as_bytes()), Some(A));
}

#[test]
fn a_datagram_of_whitespace_is_malformed() {
    assert_eq!(read_payload(b" \r\n"), None);
    assert_eq!(read_payload(&[b' '; 36]), None);
    assert_eq!(read_payload(&[b' '; 100]), None);
}

#[test]
fn read_payload_reads_the_identifier() {
    assert_eq!(read_payload(A_TEXT.as_bytes()), Some(A));
    assert_eq!(read_payload(B_TEXT.as_bytes()), Some(B));
    assert_eq!(read_payload(b"not-a-uuid"), None);
    assert_eq!(read_payload(&[b'1'; 36]), None);
    assert_eq!(read_payload(&[b'1'; 32]), Some(A));
}

#[test]
fn record_applies_what_was_read() {
    let mut store = store_with_a();
    assert_eq!(record(&mut store, None, SECOND), Receipt::Malformed);
    assert_eq!(store.get(A), fresh());
    assert_eq!(record(&mut store, Some(B), SECOND), Receipt::UnknownSender(B));
    assert_eq!(store.get(A), fresh());
    assert_eq!(store.len(), 1);
    assert_eq!(record(&mut store, Some(A), SECOND), Receipt::Heartbeat(A));
    assert_eq!(store.get(A), Some(LivenessEntry { last_seen: SECOND, health: Health::Up }));
}

use rustmq::netopt::{Error, ErrorKind, MockConnector, MockStream};

#[test]
fn mock_connect_test() {
    let data = vec![0xFE, 0xFD];
    let connector = MockConnector::with_read_data(data);
    let host = url::Host::parse("172.0.0.1").unwrap();
    let addr = format!("{}:{}", host, 8432);
    let mut client = connector.connect(&addr);
    assert_eq!(client.peer_addr(), "172.0.0.1:8432");
    let mut buf = Vec::new();
    client.read_to_end(&mut buf);
    assert_eq!(buf, vec![0xFE, 0xFD]);
}

#[test]
fn write_take_test() {
    let mut mock = MockStream::new("localhost:1883");
    // write to mock stream
    mock.write(&[1, 2, 3]);
    assert_eq!(mock.drain_write_data(), vec![1, 2, 3]);
}

#[test]
fn read_with_vec_test() {
    let addr_str = "localhost:1883";
    let mut mock = MockStream::with_read_data(addr_str, vec![4, 5]);
    let mut vec = Vec::new();
    let addr = addr_str.to_string();
    assert_eq!(mock.peer_addr(), addr);
    mock.read_to_end(&mut vec);
    assert_eq!(vec, vec![4, 5]);
}

#[test]
fn clone_test() {
    let mut mock = MockStream::new("localhost:1883");
    mock.write(&[6, 7]);
    let mut cloned = mock.clone();
    assert_eq!(cloned.drain_write_data(), vec![6, 7]);
}

#[test]
fn swap_test() {
    let mut mock = MockStream::new("localhost:1883");
    let mut vec = Vec::new();
    mock.write(&[8, 9, 10]);
    mock.swap_data();
    mock.read_to_end(&mut vec);
    assert_eq!(vec, vec![8, 9, 10]);
}

#[test]
fn mock_reads_in_pieces() {
    let mut mock = MockStream::with_read_data("peer", vec![1, 2, 3, 4, 5]);
    assert_eq!(mock.read(2), vec![1, 2]);
    assert_eq!(mock.read(0), vec![]);
    assert_eq!(mock.read(9), vec![3, 4, 5]);
    assert_eq!(mock.read(1), vec![]);
    let old = mock.replace_read_data(vec![7]);
    assert_eq!(old, vec![1, 2, 3, 4, 5]);
    assert_eq!(mock.read(1), vec![7]);
    mock.feed(&[8, 9]);
    let mut rest = vec![0];
    assert_eq!(mock.read_to_end(&mut rest), 2);
    assert_eq!(rest, vec![0, 8, 9]);
}

#[test]
fn mock_write_returns_the_length_and_drain_empties() {
    let mut mock = MockStream::new("peer");
    assert_eq!(mock.write(&[1, 2, 3]), 3);
    assert_eq!(mock.write(&[]), 0);
    assert_eq!(mock.write(&[4]), 1);
    assert_eq!(mock.drain_write_data(), vec![1, 2, 3, 4]);
    assert_eq!(mock.drain_write_data(), vec![]);
}

#[test]
fn connector_streams_start_from_the_same_data() {
    let connector = MockConnector::new();
    assert_eq!(connector.connect("a:1").read(4), vec![]);
    let connector = MockConnector::with_read_data(vec![1, 2]).clone();
    let mut first = connector.connect("a:1");
    assert_eq!(first.read(1), vec![1]);
    let mut second = connector.connect("b:2");
    assert_eq!(second.read(2), vec![1, 2]);
    assert_eq!(second.peer_addr(), "b:2");
}

#[test]
fn transport_error_kinds() {
    assert!(ErrorKind::WouldBlock.is_timeout());
    assert!(ErrorKind::TimedOut.is_timeout());
    assert!(!ErrorKind::UnexpectedEof.is_timeout());
    assert!(ErrorKind::UnexpectedEof.is_connection_lost());
    assert!(ErrorKind::ConnectionRefused.is_connection_lost());
    assert!(ErrorKind::ConnectionReset.is_connection_lost());
    assert!(ErrorKind::ConnectionAborted.is_connection_lost());
    assert!(!ErrorKind::Other.is_connection_lost());
    assert!(!ErrorKind::Other.is_timeout());
    assert_eq!(Error::Io(ErrorKind::Other).description(), "IO error");
    assert_eq!(Error::Other.description(), "Other error");
}

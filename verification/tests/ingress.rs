use std::sync::Arc;
use wormhole_relay::ingress::{
    client_hello_extensions, client_hello_needs_more, ingress_port_header, ingress_route_key,
    peek_sni, server_name_bytes, ClientHelloReader, HelloProgress, TlsExtensionKind,
    TlsMessageKind, TlsRecord, MAX_CLIENT_HELLO,
};

fn client_hello(server_name: &str) -> Vec<u8> {
    let provider = Arc::new(rustls::crypto::ring::default_provider());
    let config = rustls::ClientConfig::builder_with_provider(provider)
        .with_safe_default_protocol_versions()
        .unwrap()
        .with_root_certificates(rustls::RootCertStore::empty())
        .with_no_client_auth();
    let name = rustls::pki_types::ServerName::try_from(server_name.to_string()).unwrap();
    let mut conn = rustls::ClientConnection::new(Arc::new(config), name).unwrap();
    let mut out = Vec::new();
    conn.write_tls(&mut out).unwrap();
    out
}

#[test]
fn peek_sni_returns_none_for_garbage() {
    assert!(peek_sni(b"not a tls packet").is_none());
}

#[test]
fn peek_sni_returns_none_for_empty() {
    assert!(peek_sni(b"").is_none());
}

#[test]
fn peek_sni_reads_the_server_name_of_a_client_hello() {
    let hello = client_hello("tunnel.example.com");
    assert_eq!(peek_sni(&hello), Some("tunnel.example.com".to_string()));
}

#[test]
fn truncated_client_hello_needs_more() {
    let hello = client_hello("tunnel.example.com");
    assert!(client_hello_needs_more(&hello[..hello.len() - 10]));
    assert!(!client_hello_needs_more(&hello));
    assert!(peek_sni(&hello[..hello.len() - 10]).is_none());
}

#[test]
fn oversized_record_header_does_not_need_more() {
    // A record header announcing more than a TLS record may hold is an error, not a fragment.
    assert!(!client_hello_needs_more(&[0x16, 0x03, 0x01, 0xff, 0xff, 0x00]));
    // Text that happens to read as a record header waits for the announced length.
    assert!(client_hello_needs_more(b"GET / HTTP/1.1\r\n\r\n"));
}

#[test]
fn reader_waits_for_the_whole_record() {
    let hello = client_hello("a.example");
    let mut reader = ClientHelloReader::new();
    assert_eq!(reader.on_read(&hello[..5]), HelloProgress::NeedMore);
    assert_eq!(reader.on_read(&hello[5..]), HelloProgress::Complete);
    assert_eq!(reader.into_buffer(), hello);
}

#[test]
fn reader_completes_at_end_of_stream() {
    let mut reader = ClientHelloReader::new();
    assert_eq!(reader.on_read(&[0x16, 0x03]), HelloProgress::NeedMore);
    assert_eq!(reader.on_read(&[]), HelloProgress::Complete);
    assert_eq!(reader.into_buffer(), vec![0x16, 0x03]);
}

#[test]
fn reader_gives_up_on_an_oversized_record() {
    // A handshake record header announcing 0x4000 bytes, then filler.
    let mut reader = ClientHelloReader::new();
    let mut first = vec![0x16, 0x03, 0x01, 0x40, 0x00];
    first.extend(std::iter::repeat(0u8).take(1019));
    assert_eq!(reader.on_read(&first), HelloProgress::NeedMore);
    let chunk = vec![0u8; 1024];
    let mut last = HelloProgress::NeedMore;
    let mut total = first.len();
    while last == HelloProgress::NeedMore {
        last = reader.on_read(&chunk);
        total += chunk.len();
    }
    assert_eq!(last, HelloProgress::TooLarge);
    assert_eq!(total, MAX_CLIENT_HELLO);
}

#[test]
fn route_key_falls_back_to_peer_ip() {
    assert_eq!(ingress_route_key(b"junk", "10.0.0.1".to_string()), "10.0.0.1");
    let hello = client_hello("svc.example");
    assert_eq!(ingress_route_key(&hello, "10.0.0.1".to_string()), "svc.example");
}

#[test]
fn port_header_is_big_endian() {
    assert_eq!(ingress_port_header(443), [0x01, 0xBB]);
    assert_eq!(ingress_port_header(8443), 8443u16.to_be_bytes());
}

#[test]
fn extensions_come_from_a_leading_client_hello_only() {
    let hello = TlsRecord::Messages(vec![TlsMessageKind::ClientHello(Some(vec![1, 2]))]);
    assert_eq!(client_hello_extensions(&hello), Some(&vec![1, 2]));
    let later = TlsRecord::Messages(vec![
        TlsMessageKind::Other,
        TlsMessageKind::ClientHello(Some(vec![1, 2])),
    ]);
    assert_eq!(client_hello_extensions(&later), None);
    let bare = TlsRecord::Messages(vec![TlsMessageKind::ClientHello(None)]);
    assert_eq!(client_hello_extensions(&bare), None);
    assert_eq!(client_hello_extensions(&TlsRecord::Messages(vec![])), None);
    assert_eq!(client_hello_extensions(&TlsRecord::Incomplete), None);
    assert_eq!(client_hello_extensions(&TlsRecord::Invalid), None);
}

#[test]
fn server_name_is_the_first_listed_host() {
    let exts = vec![
        TlsExtensionKind::Other,
        TlsExtensionKind::ServerName(vec![]),
        TlsExtensionKind::ServerName(vec![b"a.example".to_vec(), b"b.example".to_vec()]),
        TlsExtensionKind::ServerName(vec![b"c.example".to_vec()]),
    ];
    assert_eq!(server_name_bytes(&exts), Some(&b"a.example".to_vec()));
    assert_eq!(server_name_bytes(&vec![TlsExtensionKind::Other]), None);
}

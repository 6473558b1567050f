use somasync::SocketAddress;

#[test]
fn ipv4_text() {
    assert_eq!(SocketAddress::v4(192, 168, 1, 1, 8080).to_text(), "192.168.1.1:8080");
    assert_eq!(SocketAddress::v4(0, 0, 0, 0, 0).to_text(), "0.0.0.0:0");
}

#[test]
fn ipv6_text() {
    assert_eq!(SocketAddress::v6([0, 0, 0, 0, 0, 0, 0, 1], 80).to_text(), "[::1]:80");
    assert_eq!(SocketAddress::v6([0x2001, 0xdb8, 0, 0, 1, 0, 0, 1], 443).to_text(), "[2001:db8::1:0:0:1]:443");
    assert_eq!(SocketAddress::v6([0, 0, 0, 0, 0, 0xffff, 0xc000, 0x0280], 1).to_text(), "[::ffff:192.0.2.128]:1");
}

use component_iroh::addr::{doc_prefix_addr, same_id, SocketAddr};

#[test]
fn synthetic_addresses_are_documentation_addresses() {
    let addr = doc_prefix_addr(0x77, 0x0001_0002);
    assert_eq!(
        addr,
        SocketAddr::V6 {
            hi: 0x2001_0db8_0077_0000,
            lo: 0x0001_0002,
            port: 4433,
            flowinfo: 0,
            scope_id: 0,
        }
    );
}

#[test]
fn identities_compare_by_their_bytes() {
    let a = [7u8; 32];
    let mut b = a;
    assert!(same_id(&a, &b));
    b[31] = 8;
    assert!(!same_id(&a, &b));
}

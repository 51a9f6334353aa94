use omnia::sdk::{ContainerMetadata, Message, ObjectMetadata};

#[test]
fn message_new_copies_payload_without_headers() {
    let m = Message::new(b"hello");
    assert_eq!(m.payload, b"hello".to_vec());
    assert!(m.headers.is_empty());
}

#[test]
fn metadata_records() {
    let c = ContainerMetadata { name: "c".to_string(), created_at: 1 };
    assert_eq!(c.name, "c");
    let o = ObjectMetadata { name: "o".to_string(), container: "c".to_string(), created_at: 2, size: 3 };
    assert_eq!(o.size, 3);
}

use binding_origins::decode::{decode_buffer, text_length};

#[test]
fn text_ends_before_the_first_nul() {
    let buffer = [b'a', b'b', 0, b'c', 0, 0];
    assert_eq!(text_length(&buffer), 2);
    assert_eq!(decode_buffer(&buffer), Some("ab".to_string()));
}

#[test]
fn buffer_without_nul_is_text_to_its_end() {
    let buffer = [b'g', b'r', b'i', b'p'];
    assert_eq!(text_length(&buffer), 4);
    assert_eq!(decode_buffer(&buffer), Some("grip".to_string()));
}

#[test]
fn empty_buffer_is_empty_text() {
    let buffer: [u8; 0] = [];
    assert_eq!(text_length(&buffer), 0);
    assert_eq!(decode_buffer(&buffer), Some(String::new()));
}

#[test]
fn leading_nul_is_empty_text() {
    let buffer = [0u8, b'x', b'y'];
    assert_eq!(text_length(&buffer), 0);
    assert_eq!(decode_buffer(&buffer), Some(String::new()));
}

#[test]
fn fixed_capacity_buffer_with_padding() {
    let mut buffer = [0u8; 128];
    let text = "/user/hand/right";
    buffer[..text.len()].copy_from_slice(text.as_bytes());
    assert_eq!(text_length(&buffer), text.len());
    assert_eq!(decode_buffer(&buffer), Some(text.to_string()));
}

#[test]
fn multi_byte_text_is_decoded() {
    let mut buffer = "Contrôleur 左手".as_bytes().to_vec();
    buffer.push(0);
    buffer.push(b'!');
    assert_eq!(decode_buffer(&buffer), Some("Contrôleur 左手".to_string()));
}

#[test]
fn invalid_utf8_is_rejected() {
    assert_eq!(decode_buffer(&[b'a', 0xff, b'b', 0]), None);
    assert_eq!(decode_buffer(&[0xc3]), None);
    assert_eq!(decode_buffer(&[0xed, 0xa0, 0x80, 0]), None);
    assert_eq!(decode_buffer(&[0xc0, 0x80, 0]), None);
}

#[test]
fn invalid_bytes_behind_the_nul_do_not_count() {
    assert_eq!(decode_buffer(&[b'o', b'k', 0, 0xff, 0xfe]), Some("ok".to_string()));
}

use mahjong_tiles::{alphabet, code_of_symbol, tile_for_byte, tile_for_code, Dragon, Suit, Wind};

#[test]
fn alphabet_is_base64_order() {
    let a = alphabet();
    assert_eq!(a.len(), 64);
    assert_eq!(
        a,
        "ABCDEFGHIJKLMNOPQRSTUVWXYZabcdefghijklmnopqrstuvwxyz0123456789+/"
    );
}

#[test]
fn symbols_give_their_codes() {
    assert_eq!(code_of_symbol(b'A'), Some(0));
    assert_eq!(code_of_symbol(b'Z'), Some(25));
    assert_eq!(code_of_symbol(b'a'), Some(26));
    assert_eq!(code_of_symbol(b'9'), Some(61));
    assert_eq!(code_of_symbol(b'+'), Some(62));
    assert_eq!(code_of_symbol(b'/'), Some(63));
    assert_eq!(code_of_symbol(b'!'), None);
    assert_eq!(code_of_symbol(b'='), None);
    assert_eq!(code_of_symbol(0xFF), None);
}

#[test]
fn codes_give_their_tiles() {
    assert_eq!(tile_for_code(0x10), Some(Suit::Dots(0)));
    assert_eq!(tile_for_code(0x1A), Some(Suit::Dots(10)));
    assert_eq!(tile_for_code(0x25), Some(Suit::Bamboo(5)));
    assert_eq!(tile_for_code(0x39), Some(Suit::Characters(9)));
    assert_eq!(tile_for_code(0x2C), Some(Suit::Wind(Wind::North)));
    assert_eq!(tile_for_code(0x2D), Some(Suit::Dragon(Dragon::Green)));
    assert_eq!(tile_for_code(0x00), None);
    assert_eq!(tile_for_code(0x1B), None);
    assert_eq!(tile_for_code(0x3D), None);
    assert_eq!(tile_for_code(0x3F), None);
}

#[test]
fn bytes_give_their_tiles() {
    assert_eq!(tile_for_byte(b'y'), Some(Suit::Characters(2)));
    assert_eq!(tile_for_byte(b'M'), Some(Suit::Wind(Wind::South)));
    assert_eq!(tile_for_byte(b'd'), Some(Suit::Dragon(Dragon::Red)));
    assert_eq!(tile_for_byte(b'A'), None);
    assert_eq!(tile_for_byte(b' '), None);
}

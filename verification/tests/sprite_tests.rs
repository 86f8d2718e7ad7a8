use base64::Engine;
use tui_games::dndtui::sprite::{decode_sprite, is_gif, kitty_sequence, SpriteData, SpriteFrame};

fn frame(payload: &str) -> SpriteFrame {
    SpriteFrame { payload: payload.to_string(), width: 2, height: 3, format: 32 }
}

#[test]
fn a_short_payload_goes_in_one_piece() {
    let seq = kitty_sequence(&frame("QUJD"), 4, 0, 7).unwrap();
    assert_eq!(seq, "\x1b_Gf=32,s=2,v=3,a=T,t=d,i=7,c=4,m=0;QUJD\x1b\\");
    let seq = kitty_sequence(&frame("QUJD"), 0, 5, 1).unwrap();
    assert_eq!(seq, "\x1b_Gf=32,s=2,v=3,a=T,t=d,i=1,r=5,m=0;QUJD\x1b\\");
    assert_eq!(kitty_sequence(&frame(""), 1, 1, 1).unwrap(), "");
}

#[test]
fn a_long_payload_is_sent_in_pieces_of_4096_bytes() {
    let payload = "A".repeat(5000);
    let seq = kitty_sequence(&frame(&payload), 0, 0, 9).unwrap();
    let expected = format!(
        "\x1b_Gf=32,s=2,v=3,a=T,t=d,i=9,m=1;{}\x1b\\\x1b_Gm=0;{}\x1b\\",
        "A".repeat(4096),
        "A".repeat(904)
    );
    assert_eq!(seq, expected);
}

#[test]
fn a_piece_boundary_inside_a_character_is_refused() {
    let payload = format!("{}é", "A".repeat(4095));
    assert!(kitty_sequence(&frame(&payload), 0, 0, 1).is_err());
    let aligned = format!("{}é", "A".repeat(4094));
    assert!(kitty_sequence(&frame(&aligned), 0, 0, 1).is_ok());
}

#[test]
fn gifs_are_told_by_url_or_signature() {
    assert!(is_gif(b"", "https://x/sprite.gif"));
    assert!(is_gif(b"GIF89a....", "https://x/sprite"));
    assert!(is_gif(b"GIF87a", "s"));
    assert!(!is_gif(b"\x89PNG", "https://x/sprite.png"));
}

#[test]
fn a_still_image_is_kept_whole() {
    let img = image::RgbaImage::new(2, 1);
    let mut bytes: Vec<u8> = Vec::new();
    img.write_to(&mut std::io::Cursor::new(&mut bytes), image::ImageFormat::Png).unwrap();
    let sprite = decode_sprite(&bytes, "https://x/sprite.png").unwrap();
    assert_eq!((sprite.width, sprite.height), (2, 1));
    assert_eq!(sprite.frames.len(), 1);
    assert_eq!(sprite.frames[0].format, 100);
    assert_eq!(sprite.frames[0].payload, base64::engine::general_purpose::STANDARD.encode(&bytes));
    assert!(decode_sprite(b"not an image", "https://x/sprite.png").is_err());
    assert!(decode_sprite(b"GIF89a", "https://x/sprite.gif").is_err());
}

#[test]
fn mirroring_raw_pixels_twice_gives_them_back() {
    let bytes: Vec<u8> = (0u8..16).collect();
    let payload = base64::engine::general_purpose::STANDARD.encode(&bytes);
    let f = SpriteFrame { payload: payload.clone(), width: 2, height: 2, format: 32 };
    let once = f.flipped();
    let decoded = base64::engine::general_purpose::STANDARD.decode(&once.payload).unwrap();
    assert_eq!(decoded, vec![4, 5, 6, 7, 0, 1, 2, 3, 12, 13, 14, 15, 8, 9, 10, 11]);
    assert_eq!(once.flipped().payload, payload);
}

#[test]
fn flipping_a_sprite_twice_gives_its_frames_back() {
    let first: Vec<u8> = (0u8..24).collect();
    let second: Vec<u8> = (100u8..108).collect();
    let a = base64::engine::general_purpose::STANDARD.encode(&first);
    let b = base64::engine::general_purpose::STANDARD.encode(&second);
    let data = SpriteData {
        frames: vec![
            SpriteFrame { payload: a.clone(), width: 3, height: 2, format: 32 },
            SpriteFrame { payload: b.clone(), width: 2, height: 1, format: 32 },
        ],
        width: 3,
        height: 2,
    };
    let once = data.flipped();
    assert_ne!(once.frames[0].payload, a);
    let twice = once.flipped();
    assert_eq!((twice.width, twice.height, twice.frames.len()), (3, 2, 2));
    assert_eq!(twice.frames[0].payload, a);
    assert_eq!(twice.frames[1].payload, b);
    assert_eq!((twice.frames[1].width, twice.frames[1].height, twice.frames[1].format), (2, 1, 32));
}

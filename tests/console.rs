use softraster::buffer2d::B2D;
use softraster::console::Console;
use softraster::input::{Input, InputCode};
use softraster::text::Font;
use softraster::wad::{parse_wad, TextureError};

fn font() -> Font {
    let (w, h) = (38, 10);
    let mut bitmap = B2D::new(w, h);
    for u in 0..95 {
        let gx = (u % 19) * 2;
        let gy = (u / 19) * 2;
        bitmap.pixels[(gy * w + gx) as usize] = 100 + u as u16;
    }
    Font::new(bitmap, (2, 2), 0, 0)
}

#[test]
fn console_opens_slides_and_takes_input() {
    let mut console = Console::new(20, 10, font());
    assert_eq!(console.input_buffer.pixels[0], 100 + (']' as u16 - 32));
    let mut input = Input::new();
    input.set_key(InputCode::Grave, true);
    assert!(console.update(0, &input));
    input.reset();
    assert!(console.update(15, &input));
    assert_eq!(console.current_width, 15);
    assert!(console.update(15, &input));
    assert_eq!(console.current_width, 20);
    assert!(!console.is_moving);
    input.last_char = Some('A');
    console.update(0, &input);
    assert_eq!(console.input_string, vec!['A']);
    assert_eq!(console.input_char_x, 2);
    input.last_char = None;
    input.set_key(InputCode::Return, true);
    console.update(0, &input);
    assert!(console.input_string.is_empty());
    assert_eq!(console.output_buffer.pixels[2 * 20 + 2], 133);
    let mut screen = B2D::new(30, 10);
    console.blit(&mut screen);
    assert_eq!(screen.pixels[2 * 30 + 2], 133);
}

fn texture_wad() -> Vec<u8> {
    let mut b = vec![0u8; 12];
    // palette: color k is (k, k + 1, k + 2)
    let pal_off = b.len() as u32;
    for k in 0..256u32 {
        b.extend_from_slice(&[k as u8, (k + 1) as u8, (k + 2) as u8]);
    }
    // a 2 x 3 picture: column 0 has one post of two pixels from row 1,
    // column 1 is empty
    let pic_off = b.len() as u32;
    b.extend_from_slice(&2u16.to_le_bytes());
    b.extend_from_slice(&3u16.to_le_bytes());
    b.extend_from_slice(&[0, 0, 0, 0]);
    b.extend_from_slice(&16u32.to_le_bytes());
    b.extend_from_slice(&22u32.to_le_bytes());
    b.extend_from_slice(&[1, 2, 0, 10, 20, 0, 0xFF]);
    b.extend_from_slice(&[0xFF]);
    let dir_off = b.len() as u32;
    for (o, s, n) in [(pal_off, 768u32, b"PLAYPAL\0"), (pic_off, 24, b"WALL\0\0\0\0")] {
        b.extend_from_slice(&o.to_le_bytes());
        b.extend_from_slice(&s.to_le_bytes());
        b.extend_from_slice(n);
    }
    b[8..12].copy_from_slice(&dir_off.to_le_bytes());
    b
}

#[test]
fn texture_from_patch_columns() {
    let wad = parse_wad(texture_wad()).ok().unwrap();
    assert_eq!(wad.find_dir(b"WALL"), Some(1));
    let tex = wad.load_texture_into_buffer(b"WALL").ok().unwrap();
    assert_eq!((tex.width, tex.height), (2, 3));
    // row 1, column 0: palette 10 stored blue, green, red
    assert_eq!(&tex.colors[(1 * 2) * 4..(1 * 2) * 4 + 4], &[12, 11, 10, 255]);
    assert_eq!(&tex.colors[(2 * 2) * 4..(2 * 2) * 4 + 4], &[22, 21, 20, 255]);
    assert_eq!(&tex.colors[0..4], &[255, 255, 255, 255]);
    assert_eq!(&tex.colors[4..8], &[255, 255, 255, 255]);
    assert_eq!(wad.load_texture_into_buffer(b"NONE").err(), Some(TextureError::NotFound));
}

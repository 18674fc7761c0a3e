use softraster::bmp::{decode_bmp, BmpError};
use softraster::utils::{
    calculate_index, color_from_tuple, is_inside, read_i16, read_str_4bytes, read_str_8bytes,
    read_u16, read_u32, read_u8,
};
use softraster::wad::{parse_wad, MapError, WadError};

#[test]
fn little_endian_reads() {
    let b = [0x01u8, 0x02, 0xFF, 0xFF, 0x78, 0x56, 0x34, 0x12];
    assert_eq!(read_u8(&b, 2), 0xFF);
    assert_eq!(read_u16(&b, 0), 0x0201);
    assert_eq!(read_i16(&b, 2), -1);
    assert_eq!(read_i16(&b, 0), 0x0201);
    assert_eq!(read_u32(&b, 4), 0x12345678);
}

#[test]
fn text_fields_drop_nul_padding() {
    let b = *b"MAP\0E1M1\0\0\0";
    assert_eq!(read_str_4bytes(&b, 0), "MAP");
    assert_eq!(read_str_8bytes(&b, 3), "E1M1");
}

#[test]
fn point_in_rect_includes_edges() {
    assert!(is_inside((0, 0), (0, 0, 10, 5)));
    assert!(is_inside((10, 5), (0, 0, 10, 5)));
    assert!(!is_inside((11, 5), (0, 0, 10, 5)));
    assert!(!is_inside((3, -1), (0, 0, 10, 5)));
}

#[test]
fn index_and_color_packing() {
    assert_eq!(calculate_index(3, 2, 10), 23);
    assert_eq!(color_from_tuple((31, 31, 31)), 0x7FFF);
    assert_eq!(color_from_tuple((1, 2, 3)), 1024 + 64 + 3);
}

fn bmp_header(bits: u16, compression: u32, w: i32, h: i32, data: &[u8]) -> Vec<u8> {
    let mut b = vec![0u8; 70];
    b[0] = b'B';
    b[1] = b'M';
    b[10..14].copy_from_slice(&70u32.to_le_bytes());
    b[18..22].copy_from_slice(&w.to_le_bytes());
    b[22..26].copy_from_slice(&h.to_le_bytes());
    b[28..30].copy_from_slice(&bits.to_le_bytes());
    b[30..34].copy_from_slice(&compression.to_le_bytes());
    b.extend_from_slice(data);
    b
}

#[test]
fn decode_24_bit_reads_pixels_backwards() {
    // four BGR pixels; the last one in the file comes first
    let data = [8u8, 0, 0, 0, 8, 0, 0, 0, 8, 248, 248, 248];
    let img = decode_bmp(&bmp_header(24, 0, 2, 2, &data)).unwrap();
    assert_eq!((img.width, img.height), (2, 2));
    assert_eq!(img.pixels, vec![0x7FFF, 1024, 32, 1]);
}

#[test]
fn decode_32_bit_flips_rows() {
    let data = [8u8, 0, 0, 0, 16, 0, 0, 0, 0, 8, 0, 0, 0, 0, 8, 0];
    let img = decode_bmp(&bmp_header(32, 3, 2, 2, &data)).unwrap();
    assert_eq!(img.pixels, vec![32, 1024, 1, 2]);
}

#[test]
fn decode_errors() {
    assert_eq!(decode_bmp(&[0u8; 10]).err(), Some(BmpError::Truncated));
    let mut bad = bmp_header(24, 0, 2, 2, &[0; 12]);
    bad[0] = b'X';
    assert_eq!(decode_bmp(&bad).err(), Some(BmpError::BadSignature));
    assert_eq!(decode_bmp(&bmp_header(16, 0, 2, 2, &[0; 8])).err(), Some(BmpError::UnsupportedBitDepth));
    assert_eq!(decode_bmp(&bmp_header(24, 1, 2, 2, &[0; 12])).err(), Some(BmpError::UnsupportedCompression));
    assert_eq!(decode_bmp(&bmp_header(24, 0, 0, 2, &[])).err(), Some(BmpError::BadSize));
    assert_eq!(decode_bmp(&bmp_header(24, 0, 2, 2, &[0; 11])).err(), Some(BmpError::Truncated));
    assert_eq!(decode_bmp(&bmp_header(24, 0, 3, 3, &[0; 27])).err(), Some(BmpError::NotPowerOfTwo));
    assert_eq!(decode_bmp(&bmp_header(24, 0, 2, 1, &[0; 6])).err(), Some(BmpError::NotPowerOfTwo));
    assert_eq!(decode_bmp(&bmp_header(32, 0, 1, 1, &[0; 4])).err(), Some(BmpError::BadCombination));
}

fn wad_bytes() -> Vec<u8> {
    let mut b = vec![0u8; 12];
    b[0..4].copy_from_slice(b"IWAD");
    // VERTEXES lump: two vertices
    let vert_off = b.len() as u32;
    for v in [1i16, -2, 300, 4] {
        b.extend_from_slice(&v.to_le_bytes());
    }
    // LINEDEFS lump: one record of 14 bytes
    let line_off = b.len() as u32;
    let mut rec = [0u8; 14];
    rec[0..2].copy_from_slice(&0u16.to_le_bytes());
    rec[2..4].copy_from_slice(&1u16.to_le_bytes());
    b.extend_from_slice(&rec);
    let dir_off = b.len() as u32;
    let entries: [(u32, u32, &[u8; 8]); 4] = [
        (0, 0, b"E1M1\0\0\0\0"),
        (vert_off, 8, b"VERTEXES"),
        (line_off, 14, b"LINEDEFS"),
        (0, 0, b"E1M2\0\0\0\0"),
    ];
    for (o, s, n) in entries {
        b.extend_from_slice(&o.to_le_bytes());
        b.extend_from_slice(&s.to_le_bytes());
        b.extend_from_slice(n);
    }
    b[4..8].copy_from_slice(&4u32.to_le_bytes());
    b[8..12].copy_from_slice(&dir_off.to_le_bytes());
    b
}

#[test]
fn wad_directory_and_map() {
    let wad = parse_wad(wad_bytes()).ok().unwrap();
    assert_eq!(wad.dirs.len(), 4);
    assert_eq!(wad.dir_count, 4);
    assert_eq!(wad.dirs[1].name, b"VERTEXES".to_vec());
    assert_eq!(wad.dirs[0].name, b"E1M1".to_vec());
    let map = wad.get_map_data(b"E1M1").ok().unwrap();
    assert_eq!(map.vertices, vec![(1, -2), (300, 4)]);
    assert_eq!(map.linedefs, vec![(0, 1)]);
    assert_eq!(wad.get_map_data(b"E9M9").err(), Some(MapError::NotFound));
}

#[test]
fn wad_errors() {
    assert_eq!(parse_wad(vec![0; 4]).err(), Some(WadError::Truncated));
    let mut b = wad_bytes();
    b.push(0);
    assert_eq!(parse_wad(b).err(), Some(WadError::Truncated));
    let mut b = wad_bytes();
    let n = b.len();
    // the VERTEXES entry claims more bytes than the file holds
    b[n - 48 + 4..n - 48 + 8].copy_from_slice(&4000u32.to_le_bytes());
    let wad = parse_wad(b).ok().unwrap();
    assert_eq!(wad.get_map_data(b"E1M1").err(), Some(MapError::BadLump));
}

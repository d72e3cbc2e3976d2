use chart_renderer::render::png::{compression_from, encode};
use chart_renderer::render::Pixmap;
use chart_renderer::Compression;

fn png_dimensions(bytes: &[u8]) -> (u32, u32) {
    // IHDR width/height live at byte offsets 16..24.
    let w = u32::from_be_bytes(bytes[16..20].try_into().unwrap());
    let h = u32::from_be_bytes(bytes[20..24].try_into().unwrap());
    (w, h)
}

fn decode(bytes: &[u8]) -> Vec<u8> {
    let decoder = png::Decoder::new(bytes);
    let mut reader = decoder.read_info().unwrap();
    let mut buf = vec![0; reader.output_buffer_size()];
    let info = reader.next_frame(&mut buf).unwrap();
    buf.truncate(info.buffer_size());
    buf
}

#[test]
fn emits_a_valid_png_of_the_requested_size() {
    let pm = Pixmap::new(40, 30).unwrap();
    let bytes = encode(&pm, Compression::Fast).unwrap();
    assert_eq!(&bytes[..8], b"\x89PNG\r\n\x1a\n");
    assert_eq!(png_dimensions(&bytes), (40, 30));
}

#[test]
fn every_compression_level_round_trips() {
    let mut pm = Pixmap::new(20, 20).unwrap();
    pm.fill(tiny_skia::Color::from_rgba8(1, 2, 3, 255));
    let mut decoded = Vec::new();
    for level in [Compression::Fast, Compression::Balanced, Compression::Best] {
        let bytes = encode(&pm, level).unwrap();
        assert_eq!(&bytes[..8], b"\x89PNG\r\n\x1a\n", "{level:?} produced junk");
        decoded.push(decode(&bytes));
    }
    assert_eq!(decoded[0], decoded[1]);
    assert_eq!(decoded[1], decoded[2]);
    assert_eq!(&decoded[0][..4], &[1, 2, 3, 255]);
}

#[test]
fn semi_transparent_pixels_are_demultiplied() {
    let mut pm = Pixmap::new(1, 1).unwrap();
    // Premultiplied (2, 3, 5) at alpha 40 is straight (13, 19, 32).
    pm.data_mut().copy_from_slice(&[2, 3, 5, 40]);
    let bytes = encode(&pm, Compression::Fast).unwrap();
    assert_eq!(decode(&bytes), vec![13, 19, 32, 40]);
}

#[test]
fn compression_levels_map_from_small_integers() {
    assert_eq!(compression_from(0), Compression::Fast);
    assert_eq!(compression_from(1), Compression::Balanced);
    assert_eq!(compression_from(2), Compression::Best);
    assert_eq!(compression_from(255), Compression::Best);
    assert_eq!(Compression::default(), Compression::Fast);
}

#[test]
fn the_header_names_an_8_bit_rgba_image_of_the_pixmap_size() {
    let pm = Pixmap::new(300, 2).unwrap();
    let bytes = encode(&pm, Compression::Best).unwrap();
    assert_eq!(&bytes[8..16], &[0, 0, 0, 13, b'I', b'H', b'D', b'R']);
    assert_eq!(&bytes[16..24], &[0, 0, 1, 44, 0, 0, 0, 2]);
    assert_eq!(&bytes[24..26], &[8, 6]);
}

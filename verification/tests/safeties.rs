use thumbor::engine::photon::{image_to_buf, watermark, OpenError};
use thumbor::engine::render::{render, RenderError};
use thumbor::engine::Photon;
use thumbor::format::ImageFormat;
use thumbor::raster::Raster;
use thumbor::safety::decodes_safely;

/// A lossless WebP file of eight pixels whose rows are narrowed before another change of them.
const NARROWED: [u8; 34] = [
    0x52, 0x49, 0x46, 0x46, 0x1a, 0x00, 0x00, 0x00, 0x57, 0x45, 0x42, 0x50, 0x56, 0x50, 0x38, 0x4c, 0x0d,
    0x00, 0x00, 0x00, 0x2f, 0x07, 0x00, 0x00, 0x00, 0x07, 0x10, 0x11, 0x11, 0x45, 0x44, 0x44, 0x00, 0x00,
];

fn is_refused(data: &[u8]) {
    assert!(!decodes_safely(data));
    assert_eq!(Photon::try_from(data, None).err(), Some(OpenError::UnsafeImage));
    assert_eq!(render(data, &[], None), Err(RenderError::Unsafe));
    assert_eq!(watermark(data), None);
}

fn is_unreadable(data: &[u8]) {
    assert!(decodes_safely(data));
    assert_eq!(Photon::try_from(data, None).err(), Some(OpenError::UnreadableImage));
    assert_eq!(render(data, &[], None), Err(RenderError::Unreadable));
    assert_eq!(watermark(data), None);
}

fn read(data: &[u8]) -> Raster {
    Photon::try_from(data, None).ok().unwrap().image
}

#[test]
fn narrowed_rows_are_refused() {
    is_refused(&NARROWED);
}

#[test]
fn cut_off_webp_is_unreadable() {
    is_unreadable(b"RIFF");
    is_unreadable(&NARROWED[..19]);
    is_unreadable(&NARROWED[..25]);
}

#[test]
fn written_webp_is_read() {
    let colours: [[u8; 4]; 3] = [[1, 2, 3, 255], [9, 8, 7, 0], [200, 100, 50, 128]];
    for (width, height) in [(1u32, 1u32), (7, 5), (64, 33), (300, 2)] {
        let mut pixels = Vec::new();
        for i in 0..width * height {
            pixels.extend(colours[(i % 3) as usize]);
        }
        let image = Raster { pixels, width, height };
        let file = image_to_buf(image.clone(), ImageFormat::WebP);
        assert!(decodes_safely(&file));
        assert_eq!(read(&file), image);
    }
}

/// An extended WebP file with a canvas of three pixels by two, and chunks after its header.
fn extended(chunks: &[u8]) -> Vec<u8> {
    let mut file = b"RIFF".to_vec();
    file.extend((22 + chunks.len() as u32).to_le_bytes());
    file.extend(b"WEBPVP8X");
    file.extend([10, 0, 0, 0, 0, 0, 0, 0, 2, 0, 0, 1, 0, 0]);
    file.extend(chunks);
    file
}

/// A chunk with the header of a lossy frame of the given size.
fn lossy(width: u8, height: u8) -> Vec<u8> {
    let mut chunk = b"VP8 ".to_vec();
    chunk.extend([10, 0, 0, 0, 0, 0, 0, 0x9d, 0x01, 0x2a, width, 0, height, 0]);
    chunk
}

/// The chunk of an animation frame of the given size, with one chunk in it.
fn animated(width: u8, height: u8, inner: &[u8]) -> Vec<u8> {
    let mut chunk = b"ANMF".to_vec();
    chunk.extend((16 + inner.len() as u32).to_le_bytes());
    chunk.extend([0, 0, 0, 0, 0, 0, width - 1, 0, 0, height - 1, 0, 0, 0, 0, 0, 0]);
    chunk.extend(inner);
    chunk
}

#[test]
fn lossy_frame_has_the_size_of_the_canvas() {
    is_refused(&extended(&lossy(2, 2)));
    is_refused(&extended(&lossy(4, 2)));
    assert!(decodes_safely(&extended(&lossy(3, 2))));
}

#[test]
fn animation_frame_covers_what_it_says() {
    is_refused(&extended(&animated(2, 2, &lossy(2, 2))));
    is_refused(&extended(&animated(3, 2, &lossy(2, 2))));
    assert!(decodes_safely(&extended(&animated(3, 2, &lossy(3, 2)))));
}

#[test]
fn whole_lossless_file_is_read_in_a_canvas() {
    let image = Raster { pixels: [5, 6, 7, 255].repeat(6), width: 3, height: 2 };
    let plain = image_to_buf(image.clone(), ImageFormat::WebP);
    let file = extended(&plain[12..]);
    assert!(decodes_safely(&file));
    assert_eq!(read(&file), image);
}

#[test]
fn only_the_first_image_of_a_canvas_is_decoded() {
    let image = Raster { pixels: [5, 6, 7, 255].repeat(6), width: 3, height: 2 };
    let plain = image_to_buf(image.clone(), ImageFormat::WebP);
    let first = [plain[12..].to_vec(), lossy(2, 2)].concat();
    assert_eq!(read(&extended(&first)), image);
    is_refused(&extended(&[lossy(2, 2), plain[12..].to_vec()].concat()));
    let mut alpha = b"ALPH".to_vec();
    alpha.extend([5, 0, 0, 0, 0, 9, 9, 9, 9, 0]);
    is_refused(&extended(&[alpha.clone(), lossy(2, 2)].concat()));
    is_unreadable(&extended(&[alpha, plain[12..].to_vec()].concat()));
}

/// A lossless WebP file of the given size, with more bits after its size: for each a number and the
/// count of its bits.
fn lossless(width: u32, height: u32, more: &[(u32, u32)]) -> Vec<u8> {
    let mut bits = Vec::new();
    for &(number, count) in [(width - 1, 14), (height - 1, 14), (0, 4)].iter().chain(more) {
        for i in 0..count {
            bits.push(number >> i & 1);
        }
    }
    let mut body = vec![0x2f];
    for eight in bits.chunks(8) {
        body.push(eight.iter().rev().fold(0u8, |byte, &bit| 2 * byte + bit as u8));
    }
    body.resize(body.len() + 2 + body.len() % 2, 0);
    let mut file = b"RIFF".to_vec();
    file.extend((12 + body.len() as u32).to_le_bytes());
    file.extend(b"WEBPVP8L");
    file.extend((body.len() as u32).to_le_bytes());
    file.extend(body);
    file
}

/// The code of a single symbol.
fn lone(symbol: u32) -> [(u32, u32); 4] {
    [(1, 1), (0, 1), (1, 1), (symbol, 8)]
}

/// A code for the green channel of two words: one for the value 0, one for a copy of one pixel.
const GREEN_OR_COPY: [(u32, u32); 14] = [
    (0, 1), (0, 4), (0, 3), (1, 3), (0, 3), (1, 3), (1, 1), (0, 3), (2, 2), (0, 1), (1, 1), (127, 7), (1, 1),
    (106, 7),
];

/// A lossless WebP file of two pixels, of which the second is a copy, in a code for distances of a
/// single symbol.
fn copied(far: u32) -> Vec<u8> {
    let mut bits = vec![(0, 3)];
    bits.extend(GREEN_OR_COPY);
    bits.push((0, 1));
    for channel in [10, 20, 255] {
        bits.extend(lone(channel));
    }
    bits.extend(lone(far));
    bits.extend([(0, 1), (1, 1)]);
    lossless(2, 1, &bits)
}

#[test]
fn distances_are_bounded_where_they_are_used() {
    let pair = Raster { pixels: [10, 0, 20, 255].repeat(2), width: 2, height: 1 };
    assert_eq!(read(&copied(1)), pair);
    for far in [0, 10, 39, 40, 57, 58, 61] {
        if far != 0 {
            is_unreadable(&copied(far));
        }
    }
    is_refused(&copied(130));
    is_refused(&copied(255));
    for far in [0, 40, 130, 255] {
        let mut bits = vec![(0, 3)];
        for channel in [30, 10, 20, 255, far] {
            bits.extend(lone(channel));
        }
        let plain = Raster { pixels: [10, 30, 20, 255].repeat(6), width: 3, height: 2 };
        assert_eq!(read(&lossless(3, 2, &bits)), plain);
    }
}

#[test]
fn map_of_code_groups_is_counted_in_sixteen_bits() {
    let mut bits = vec![(0, 2), (1, 1), (0, 3), (0, 1)];
    for symbol in [0, 0, 0, 0, 0, 30, 10, 20, 255, 0] {
        bits.extend(lone(symbol));
    }
    let image = read(&lossless(16384, 64, &bits));
    assert_eq!((image.width, image.height), (16384, 64));
    assert!(image.pixels.chunks(4).all(|pixel| pixel == [10, 30, 20, 255]));
    is_refused(&lossless(16384, 65, &bits));
}

/// The beginning of a JPEG file, up to a frame header of the given kind.
fn framed(kind: u8, precision: u8, height: u16, width: u16, components: u8) -> Vec<u8> {
    let mut file = vec![0xff, 0xd8, 0xff, 0xfe, 0, 4, 0xff, 0xc3, 0xff, kind, 0, 8 + 3 * components];
    file.push(precision);
    file.extend(height.to_be_bytes());
    file.extend(width.to_be_bytes());
    file.push(components);
    for i in 0..components {
        file.extend([i + 1, 0x11, 0]);
    }
    file
}

/// A scan of one component.
const SCAN: [u8; 10] = [0xff, 0xda, 0, 8, 1, 1, 0, 0, 63, 0];

/// A scan of three components.
const SCAN_OF_ALL: [u8; 14] = [0xff, 0xda, 0, 12, 3, 1, 0, 2, 0, 3, 0, 0, 63, 0];

#[test]
fn jpeg_sides_are_bounded() {
    for kind in [0xc0, 0xc1, 0xc2] {
        is_refused(&[framed(kind, 8, 65529, 1, 1), SCAN.to_vec()].concat());
        is_refused(&[framed(kind, 8, 65535, 1, 3), SCAN_OF_ALL.to_vec(), SCAN.to_vec()].concat());
        is_unreadable(&[framed(kind, 8, 65528, 1, 1), SCAN.to_vec()].concat());
    }
    is_unreadable(&[0xff, 0xd8, 0xff]);
}

#[test]
fn long_jpeg_sides_are_left_to_the_decoder() {
    is_unreadable(&framed(0xc0, 8, 65529, 1, 1));
    is_unreadable(&[framed(0xc0, 8, 65535, 1, 3), SCAN_OF_ALL.to_vec()].concat());
    is_unreadable(&[framed(0xc0, 8, 1, 65535, 1), SCAN.to_vec()].concat());
    let mut wide = [framed(0xc0, 8, 1, 65529, 1), SCAN.to_vec()].concat();
    let factor = wide.len() - SCAN.len() - 2;
    wide[factor] = 0x21;
    is_unreadable(&wide);
    wide[factor] = 0x31;
    is_refused(&wide);
}

#[test]
fn lossless_jpeg_has_samples_that_fit() {
    is_refused(&framed(0xc3, 12, 4, 4, 3));
    is_refused(&framed(0xc3, 7, 4, 4, 1));
    is_unreadable(&framed(0xc3, 12, 4, 4, 1));
    is_unreadable(&framed(0xc3, 8, 4, 4, 3));
}

#[test]
fn written_jpeg_is_read() {
    let image = Raster { pixels: [90, 90, 90, 255].repeat(20), width: 5, height: 4 };
    let file = image_to_buf(image.clone(), ImageFormat::Jpeg);
    assert!(decodes_safely(&file));
    assert_eq!(read(&file), image);
}

/// A Radiance file of one row of forty pixels, made of a grey pixel and what follows.
fn radiance(pixels: &[[u8; 4]]) -> Vec<u8> {
    let mut file = b"#?RADIANCE\nFORMAT=32-bit_rle_rgbe\n\n-Y 1 +X 40\n".to_vec();
    file.extend([128, 128, 128, 128]);
    file.extend(pixels.concat());
    file
}

#[test]
fn long_chain_of_runs_is_refused() {
    let mut runs = vec![[1, 1, 1, 0]; 8];
    is_refused(&radiance(&runs));
    runs[0][3] = 38;
    is_refused(&radiance(&runs));
}

#[test]
fn short_chain_of_runs_is_read() {
    let image = read(&radiance(&[[1, 1, 1, 0], [1, 1, 1, 0], [9, 9, 9, 128], [1, 1, 1, 38]]));
    assert_eq!((image.width, image.height), (40, 1));
    let whole = read(&radiance(&[[1, 1, 1, 39]]));
    assert_eq!((whole.width, whole.height), (40, 1));
}

#[test]
fn chain_of_runs_is_looked_for_in_plain_rows() {
    let chain = [[1, 1, 1, 0]; 8];
    let mut file = radiance(&[[1, 1, 1, 39]]);
    file.extend(chain.concat());
    assert_eq!((read(&file).width, read(&file).height), (40, 1));
    is_unreadable(&radiance(&[[1, 1, 1, 40]; 8]));
    let mut marked = b"#?RADIANCE\n# ".to_vec();
    marked.extend(chain.concat());
    marked.extend(b"\n\n-Y 2 +X 40\n");
    for _ in 0..2 {
        marked.extend([2, 2, 0, 40]);
        for _ in 0..4 {
            marked.push(40);
            marked.extend([1; 40]);
        }
    }
    assert_eq!((read(&marked).width, read(&marked).height), (40, 2));
    let mut second = marked[..marked.len() - 168].to_vec();
    second.extend([7, 7, 7, 7]);
    is_unreadable(&second);
    second.extend(chain.concat());
    is_refused(&second);
}

#[test]
fn radiance_size_is_read() {
    let chain = [[9, 9, 9, 9], [1, 1, 1, 0], [1, 1, 1, 0], [1, 1, 1, 0], [1, 1, 1, 0]].concat();
    let rows = [chain.clone(), [1, 1, 1, 0].repeat(4)].concat();
    let sized = |size: &[u8]| [b"#?RADIANCE\n\n", size, b"\n", &rows].concat();
    is_refused(&sized(b" -Y\t+1  +X 9"));
    is_refused(&sized(b"-Y 1 +X\xc2\xa09"));
    is_unreadable(&sized(b"-Y one +X 9"));
    is_unreadable(&sized(b"-Y 1 +X 4294967296"));
    assert_eq!((read(&sized(b"-Y 0 +X 9")).width, read(&sized(b"-Y 0 +X 9")).height), (9, 0));
    assert_eq!((read(&sized(b"-Y 1 +X 1")).width, read(&sized(b"-Y 1 +X 1")).height), (1, 1));
    is_unreadable(b"#?RADIANCE");
    is_unreadable(b"#?RADIANCE\n\n");
    is_unreadable(b"#?RADIANCE\n\n-Y 1 +X 9");
}

/// A TIFF file of one pixel in three colours, with more entries in its directory.
fn tiff(little: bool, planes: u16, more: &[(u16, u16, u32, u32)]) -> Vec<u8> {
    let mut entries: Vec<(u16, u16, u32, u32)> = vec![
        (256, 3, 1, 1),
        (257, 3, 1, 1),
        (258, 3, 1, 8),
        (262, 3, 1, 2),
        (277, 3, 1, 3),
        (284, 3, 1, planes as u32),
    ];
    entries.extend(more);
    let short = |n: u16| if little { n.to_le_bytes() } else { n.to_be_bytes() };
    let long = |n: u32| if little { n.to_le_bytes() } else { n.to_be_bytes() };
    let mut file = if little { b"II".to_vec() } else { b"MM".to_vec() };
    file.extend(short(42));
    file.extend(long(12));
    file.extend([10, 20, 30, 0]);
    file.extend(short(entries.len() as u16));
    for (tag, kind, count, value) in entries {
        file.extend(short(tag));
        file.extend(short(kind));
        file.extend(long(count));
        if kind == 3 && count == 1 {
            file.extend(short(value as u16));
            file.extend([0, 0]);
        } else {
            file.extend(long(value));
        }
    }
    file.extend(long(0));
    file
}

const STRIPS: [(u16, u16, u32, u32); 2] = [(273, 4, 1, 8), (279, 4, 1, 3)];

#[test]
fn colours_in_one_plane_are_read() {
    for little in [true, false] {
        let file = tiff(little, 1, &STRIPS);
        assert!(decodes_safely(&file));
        assert_eq!(read(&file), Raster { pixels: vec![10, 20, 30, 255], width: 1, height: 1 });
    }
}

#[test]
fn colours_in_planes_of_their_own_are_refused() {
    for little in [true, false] {
        is_refused(&tiff(little, 2, &STRIPS));
    }
}

#[test]
fn uncountable_strips_are_refused() {
    let samples = (277, 3, 1, 2);
    let height = (257, 4, 1, u32::MAX);
    is_refused(&tiff(true, 2, &[STRIPS[0], STRIPS[1], samples, height, (278, 4, 1, 1)]));
    is_unreadable(&tiff(true, 2, &[STRIPS[0], STRIPS[1], samples, height, (278, 4, 1, 3)]));
    is_unreadable(&tiff(true, 1, &[STRIPS[0], STRIPS[1], samples, height, (278, 4, 1, 1)]));
}

/// A TIFF file with one strip, which is packed as a JPEG image.
fn packed(photometric: u32, strip: &[u8], more: &[(u16, u16, u32, u32)]) -> Vec<u8> {
    let place = strip_place(more.len());
    let mut entries = vec![
        (273, 4, 1, place),
        (279, 4, 1, strip.len() as u32),
        (259, 3, 1, 7),
        (262, 3, 1, photometric),
    ];
    entries.extend(more);
    let mut file = tiff(true, 1, &entries);
    assert_eq!(file.len() as u32, place);
    file.extend(strip);
    file
}

/// Where the strip of a packed TIFF file begins.
fn strip_place(more: usize) -> u32 {
    12 + 2 + 12 * (10 + more as u32) + 4
}

#[test]
fn jpeg_in_tiff_is_bounded() {
    let long = [framed(0xc0, 8, 65529, 1, 1), SCAN.to_vec()].concat();
    is_refused(&packed(2, &long, &[]));
    is_unreadable(&packed(2, &long[..long.len() - SCAN.len()], &[]));
    is_unreadable(&packed(2, &framed(0xc0, 8, 100, 100, 1), &[]));
    is_unreadable(&packed(2, &long[1..], &[]));
    let mut beside = packed(2, &[0xff, 0xd8, 0xff, 0xd9], &[]);
    beside.extend(long);
    is_unreadable(&beside);
}

#[test]
fn jpeg_tables_stand_before_the_strip() {
    let mut tables = framed(0xc0, 8, 65529, 1, 1);
    tables.extend([0xff, 0xd9]);
    let strip = [vec![0xff, 0xd8], SCAN.to_vec()].concat();
    let entry = (347, 7, tables.len() as u32, strip_place(1) + strip.len() as u32);
    let mut file = packed(2, &strip, &[entry]);
    file.extend(&tables);
    is_refused(&file);
    let mut empty = packed(2, &strip[..2], &[entry]);
    empty.extend([0; 10]);
    empty.extend(&tables);
    is_unreadable(&empty);
    let plain = u32::from_le_bytes([0xff, 0xd8, 0xff, 0xd9]);
    let cut = u32::from_le_bytes([0xff, 0xc0, 0xff, 0xd9]);
    is_unreadable(&packed(2, &strip, &[(347, 7, 4, plain)]));
    is_unreadable(&packed(2, &strip, &[(347, 7, 4, cut)]));
}

#[test]
fn colours_for_a_grey_strip_are_not_stretched() {
    let mut strip = framed(0xc0, 8, 4, 4, 3);
    is_unreadable(&packed(1, &strip, &[]));
    let factor = strip.len() - 8;
    strip[factor] = 0x21;
    is_refused(&packed(1, &strip, &[]));
    is_refused(&packed(0, &strip, &[]));
    is_unreadable(&packed(6, &strip, &[]));
}

#[test]
fn widest_bitmaps_are_refused() {
    is_refused(b"P4 4294967295 0\n");
    is_refused(b"P4#4\n\t+00429496#x 1\r7289\x0b0\n");
    let empty = read(b"P4 4294967288 0\n");
    assert_eq!((empty.width, empty.height), (4294967288, 0));
    is_unreadable(b"P4 4294967296 0\n");
    is_unreadable(b"P4 42949x67295 0\n");
    is_unreadable(b"P4");
    let bits = read(b"P4 # two pixels\n2 1\n\x40");
    assert_eq!(bits, Raster { pixels: vec![255, 255, 255, 255, 0, 0, 0, 255], width: 2, height: 1 });
}

/// The check sum of a PNG chunk.
fn crc(data: &[u8]) -> u32 {
    let mut sum = u32::MAX;
    for &byte in data {
        sum ^= byte as u32;
        for _ in 0..8 {
            sum = if sum & 1 == 1 { sum >> 1 ^ 0xedb8_8320 } else { sum >> 1 };
        }
    }
    !sum
}

/// A chunk of a PNG file.
fn chunk(name: &[u8; 4], body: &[u8]) -> Vec<u8> {
    let named = [&name[..], body].concat();
    [&(body.len() as u32).to_be_bytes()[..], &named, &crc(&named).to_be_bytes()].concat()
}

/// A PNG file of one pixel, the first of a palette, with chunks between its header and the pixel.
fn indexed(chunks: &[Vec<u8>]) -> Vec<u8> {
    [
        b"\x89PNG\r\n\x1a\n".to_vec(),
        chunk(b"IHDR", &[0, 0, 0, 1, 0, 0, 0, 1, 8, 3, 0, 0, 0]),
        chunks.concat(),
        chunk(b"IDAT", &[0x78, 0x01, 1, 2, 0, 0xfd, 0xff, 0, 0, 0, 2, 0, 1]),
        chunk(b"IEND", &[]),
    ]
    .concat()
}

/// A palette of the given number of bytes.
fn palette(bytes: usize) -> Vec<u8> {
    chunk(b"PLTE", &[10u8, 20, 30].repeat(bytes / 3 + 1)[..bytes])
}

/// An icon file that encloses a PNG file of one pixel.
fn icon(file: &[u8]) -> Vec<u8> {
    let mut data = vec![0, 0, 1, 0, 1, 0, 1, 1, 0, 0, 1, 0, 32, 0];
    data.extend((file.len() as u32).to_le_bytes());
    data.extend([22, 0, 0, 0]);
    data.extend(file);
    data
}

#[test]
fn palettes_are_whole_and_not_too_long() {
    let dot = Raster { pixels: vec![10, 20, 30, 255], width: 1, height: 1 };
    for bytes in 0..800 {
        let file = indexed(&[palette(bytes)]);
        if bytes == 0 {
            is_unreadable(&file);
        } else if bytes % 3 == 0 && bytes <= 768 {
            assert_eq!(read(&file), dot);
        } else {
            is_refused(&file);
        }
    }
}

#[test]
fn palettes_in_icons_are_whole_and_not_too_long() {
    let dot = Raster { pixels: vec![10, 20, 30, 77], width: 1, height: 1 };
    for bytes in 0..800 {
        let file = icon(&indexed(&[palette(bytes), chunk(b"tRNS", &[77])]));
        if bytes == 0 {
            is_unreadable(&file);
        } else if bytes % 3 == 0 && bytes <= 768 {
            assert_eq!(read(&file), dot);
        } else {
            is_refused(&file);
        }
    }
}

#[test]
fn first_palette_of_an_indexed_image_counts() {
    let dot = Raster { pixels: vec![10, 20, 30, 255], width: 1, height: 1 };
    is_refused(&indexed(&[palette(0), palette(1)]));
    is_refused(&indexed(&[chunk(b"tEXt", b"a\0b"), palette(4)]));
    is_unreadable(&indexed(&[palette(3), palette(4)]));
    is_unreadable(&indexed(&[chunk(b"IDAT", &[]), palette(1)]));
    assert_eq!(read(&indexed(&[palette(0), palette(3)])), dot);
    let mut grey = indexed(&[palette(1)]);
    let header = chunk(b"IHDR", &[0, 0, 0, 1, 0, 0, 0, 1, 8, 0, 0, 0, 0]);
    grey[8..33].copy_from_slice(&header);
    assert_eq!(read(&grey), Raster { pixels: vec![0, 0, 0, 255], width: 1, height: 1 });
    let cut = indexed(&[palette(1)]);
    is_unreadable(&cut[..45]);
}

#[test]
fn best_entry_of_an_icon_counts() {
    let good = indexed(&[palette(3), chunk(b"tRNS", &[77])]);
    let bad = indexed(&[palette(1), chunk(b"tRNS", &[77])]);
    let two = |first: u8, second: u8, last_bits: u8| {
        let mut data = vec![0, 0, 1, 0, 2, 0];
        let places = [38, 38 + good.len() as u32];
        for (i, (side, bits)) in [(first, 32), (second, last_bits)].into_iter().enumerate() {
            data.extend([side, side, 0, 0, 1, 0, bits, 0]);
            data.extend((good.len() as u32).to_le_bytes());
            data.extend(places[i].to_le_bytes());
        }
        [data, good.clone(), bad.clone()].concat()
    };
    assert!(decodes_safely(&two(1, 1, 24)));
    assert_eq!(read(&two(1, 1, 24)).pixels, vec![10, 20, 30, 77]);
    is_refused(&two(1, 1, 32));
    is_refused(&two(1, 1, 33));
    assert!(decodes_safely(&two(2, 1, 32)));
    is_refused(&two(2, 0, 32));
}

#[test]
fn other_formats_are_left_to_their_decoders() {
    for data in [&b""[..], b"BM", b"GIF89a", b"\x89PNG", b"P6", b"DDS ", b"no image"] {
        is_unreadable(data);
    }
}

/// Changes a few bytes of a file, from a place on, where a simple generator picks them.
fn damaged(file: &[u8], from: usize, seed: u64) -> Vec<u8> {
    let mut state = seed.wrapping_mul(0x9e37_79b9_7f4a_7c15) | 1;
    let mut data = file.to_vec();
    for _ in 0..1 + seed % 4 {
        state = state.wrapping_mul(6364136223846793005).wrapping_add(1442695040888963407);
        let place = from + (state >> 33) as usize % (data.len() - from);
        data[place] = (state >> 25) as u8;
    }
    data
}

fn survives_damage(file: &[u8], from: usize, times: u64) {
    for seed in 0..times {
        let data = damaged(file, from, seed);
        let opened = Photon::try_from(&data, None);
        assert_eq!(decodes_safely(&data), opened.err() != Some(OpenError::UnsafeImage));
    }
}

fn small_image() -> Raster {
    let mut pixels = Vec::new();
    for i in 0..35u8 {
        pixels.extend([i * 7, 255 - i, i / 3, 255]);
    }
    Raster { pixels, width: 7, height: 5 }
}

#[test]
fn damaged_webp_is_opened_or_refused() {
    survives_damage(&image_to_buf(small_image(), ImageFormat::WebP), 0, 5000);
    survives_damage(&NARROWED, 0, 5000);
    survives_damage(&copied(1), 12, 20000);
}

#[test]
fn damaged_extended_webp_is_opened_or_refused() {
    let image = Raster { pixels: [5, 6, 7, 255, 9, 9, 0, 30].repeat(3), width: 3, height: 2 };
    let plain = image_to_buf(image, ImageFormat::WebP);
    let mut alpha = b"ALPH".to_vec();
    alpha.extend((plain.len() as u32 - 24).to_le_bytes());
    alpha.push(1);
    alpha.extend(&plain[25..]);
    if alpha.len() % 2 == 1 {
        alpha.push(0);
    }
    alpha.extend(lossy(3, 2));
    survives_damage(&extended(&plain[12..]), 30, 2000);
    survives_damage(&extended(&animated(3, 2, &plain[12..])), 30, 2000);
    survives_damage(&extended(&animated(2, 2, &plain[12..])), 30, 2000);
    survives_damage(&extended(&alpha), 30, 2000);
    survives_damage(&extended(&animated(3, 2, &alpha)), 30, 2000);
}

/// A lossy WebP file of the given size, with zeros for its first partition and for what follows.
fn lossy_file(width: u8, height: u8) -> Vec<u8> {
    let mut frame = vec![0x90, 0x0c, 0x00, 0x9d, 0x01, 0x2a, width, 0, height, 0];
    frame.extend([0; 200]);
    let mut file = b"RIFF".to_vec();
    file.extend((12 + frame.len() as u32).to_le_bytes());
    file.extend(b"WEBPVP8 ");
    file.extend((frame.len() as u32).to_le_bytes());
    file.extend(frame);
    file
}

#[test]
fn damaged_lossy_webp_is_opened_or_refused() {
    let plain = lossy_file(37, 20);
    assert_eq!((read(&plain).width, read(&plain).height), (37, 20));
    survives_damage(&plain, 0, 3000);
    for seed in 0..100 {
        let mut file = plain.clone();
        for (i, byte) in file.iter_mut().enumerate().skip(30) {
            *byte = (i as u64 * seed * seed >> 3) as u8 ^ (seed * 37) as u8;
        }
        survives_damage(&file, 30, 50);
    }
}

#[test]
fn damaged_jpeg_is_opened_or_refused() {
    survives_damage(&image_to_buf(small_image(), ImageFormat::Jpeg), 0, 2000);
}

#[test]
fn damaged_tiff_is_opened_or_refused() {
    survives_damage(&tiff(true, 1, &STRIPS), 0, 5000);
    survives_damage(&tiff(false, 1, &STRIPS), 0, 5000);
    let inner = image_to_buf(small_image(), ImageFormat::Jpeg);
    survives_damage(&packed(2, &inner, &[]), 0, 5000);
    survives_damage(&packed(6, &inner, &[(258, 3, 1, 8)]), 0, 5000);
}

#[test]
fn damaged_radiance_is_opened_or_refused() {
    survives_damage(&radiance(&[[1, 1, 1, 0], [9, 9, 9, 128], [1, 1, 1, 38]]), 0, 5000);
}

#[test]
fn damaged_files_of_other_formats_are_opened() {
    for format in [ImageFormat::Png, ImageFormat::Gif, ImageFormat::Bmp, ImageFormat::Ico] {
        survives_damage(&image_to_buf(small_image(), format), 0, 2000);
    }
    survives_damage(&indexed(&[palette(9), chunk(b"tRNS", &[1])]), 0, 2000);
    survives_damage(&icon(&indexed(&[palette(9), chunk(b"tRNS", &[1])])), 0, 5000);
    survives_damage(b"P4 7 5\nabcde", 0, 5000);
    survives_damage(b"P6\n2 2\n255\nabcdefghijkl", 0, 5000);
}

use mnist::decode::decode_images;
use mnist::error::MnistError;
use mnist::image::{flatten_image, unflatten_image, Image};

fn be_bytes(v: u32) -> [u8; 4] {
    [(v >> 24) as u8, (v >> 16) as u8, (v >> 8) as u8, v as u8]
}

fn image_file(magic: u32, count: u32, rows: u32, cols: u32, body: &[u8]) -> Vec<u8> {
    let mut bytes = Vec::new();
    bytes.extend_from_slice(&be_bytes(magic));
    bytes.extend_from_slice(&be_bytes(count));
    bytes.extend_from_slice(&be_bytes(rows));
    bytes.extend_from_slice(&be_bytes(cols));
    bytes.extend_from_slice(body);
    bytes
}

#[test]
fn decodes_one_two_by_two_image() {
    let bytes = image_file(2051, 1, 2, 2, &[10, 20, 30, 40]);
    let images = decode_images(&bytes, 2, 2).unwrap();
    assert_eq!(images.len(), 1);
    assert_eq!(images[0].as_u8_array(), &[10, 20, 30, 40]);
    let rows = images[0].as_2d_array();
    assert_eq!(rows, vec![vec![10, 20], vec![30, 40]]);
}

#[test]
fn decoded_count_and_sizes_match_the_header() {
    let body: Vec<u8> = (0..3 * 28 * 28).map(|i: u32| (i % 251) as u8).collect();
    let bytes = image_file(2051, 3, 28, 28, &body);
    let images = decode_images(&bytes, 28, 28).unwrap();
    assert_eq!(images.len(), 3);
    for (i, img) in images.iter().enumerate() {
        assert_eq!(img.width(), 28);
        assert_eq!(img.height(), 28);
        assert_eq!(img.as_u8_array(), &body[i * 784..(i + 1) * 784]);
    }
}

#[test]
fn zero_images_decode_to_an_empty_sequence() {
    let bytes = image_file(2051, 0, 28, 28, &[]);
    let images = decode_images(&bytes, 28, 28).unwrap();
    assert!(images.is_empty());
}

#[test]
fn rows_and_cols_play_height_and_width() {
    // A 3-wide, 2-high grid: the header declares rows=2, cols=3.
    let bytes = image_file(2051, 1, 2, 3, &[1, 2, 3, 4, 5, 6]);
    let images = decode_images(&bytes, 3, 2).unwrap();
    assert_eq!(images[0].width(), 3);
    assert_eq!(images[0].height(), 2);
    assert_eq!(images[0].as_2d_array(), vec![vec![1, 2, 3], vec![4, 5, 6]]);
}

#[test]
fn wrong_column_count_is_a_dimension_mismatch() {
    // found is (columns, rows), never swapped.
    let bytes = image_file(2051, 1, 28, 30, &[0; 28 * 30]);
    let err = decode_images(&bytes, 28, 28).unwrap_err();
    assert_eq!(
        err,
        MnistError::InvalidImageDimensions { expected: (28, 28), found: (30, 28) }
    );
}

#[test]
fn wrong_image_magic_is_reported_with_found_value() {
    let bytes = image_file(2049, 1, 2, 2, &[10, 20, 30, 40]);
    let err = decode_images(&bytes, 2, 2).unwrap_err();
    assert_eq!(err, MnistError::InvalidMagicNumber { expected: 2051, found: 2049 });
}

#[test]
fn wrong_row_count_is_a_dimension_mismatch() {
    // The found tuple is (columns, rows): (width, height) order.
    let bytes = image_file(2051, 1, 30, 28, &[0; 30 * 28]);
    let err = decode_images(&bytes, 28, 28).unwrap_err();
    assert_eq!(
        err,
        MnistError::InvalidImageDimensions { expected: (28, 28), found: (28, 30) }
    );
}

#[test]
fn truncated_image_body_is_an_io_failure() {
    let bytes = image_file(2051, 1, 2, 2, &[10, 20, 30]);
    assert_eq!(decode_images(&bytes, 2, 2).unwrap_err(), MnistError::Io);
}

#[test]
fn missing_final_image_is_an_io_failure_not_a_partial_sequence() {
    // Two images declared, body holds one and a half.
    let bytes = image_file(2051, 2, 2, 2, &[1, 2, 3, 4, 5, 6]);
    assert_eq!(decode_images(&bytes, 2, 2).unwrap_err(), MnistError::Io);
}

#[test]
fn image_header_shorter_than_four_fields_is_an_io_failure() {
    let bytes = image_file(2051, 1, 2, 2, &[]);
    let mut short = bytes.clone();
    short.truncate(12);
    assert_eq!(decode_images(&short, 2, 2).unwrap_err(), MnistError::Io);
}

#[test]
fn from_bytes_accepts_exactly_one_byte_per_pixel() {
    let img = Image::from_bytes(2, 3, vec![1, 2, 3, 4, 5, 6]).unwrap();
    assert_eq!(img.width(), 2);
    assert_eq!(img.height(), 3);
    assert_eq!(img.as_u8_array(), &[1, 2, 3, 4, 5, 6]);
    assert!(Image::from_bytes(2, 3, vec![1, 2, 3]).is_none());
    assert!(Image::from_bytes(2, 3, vec![0; 7]).is_none());
}

#[test]
fn rows_bottom_up_reverses_row_order_only() {
    let img = Image::from_bytes(2, 2, vec![10, 20, 30, 40]).unwrap();
    assert_eq!(img.rows_bottom_up(), vec![30, 40, 10, 20]);
}

#[test]
fn ascii_rendering_maps_intensity_buckets_to_glyphs() {
    // Buckets: 0..=51 -> ' ', 52..=102 -> '.', 103..=153 -> ':',
    // 154..=204 -> '*', 205..=255 -> '@'.
    let img = Image::from_bytes(2, 2, vec![0, 60, 130, 250]).unwrap();
    assert_eq!(img.to_ascii(), " .\n:@\n");
    let edges = Image::from_bytes(5, 1, vec![51, 52, 102, 103, 255]).unwrap();
    assert_eq!(edges.to_ascii(), " ..:@\n");
}

#[test]
fn flatten_then_unflatten_round_trips() {
    let flat: Vec<u8> = (0..784u32).map(|i| (i % 256) as u8).collect();
    let rows = unflatten_image(&flat);
    assert_eq!(rows.len(), 28);
    for (j, row) in rows.iter().enumerate() {
        assert_eq!(row.as_slice(), &flat[j * 28..(j + 1) * 28]);
    }
    assert_eq!(flatten_image(&rows), flat);
}

#[test]
fn normalizing_then_denormalizing_a_byte_is_exact() {
    for b in 0u16..=255 {
        let f64_value = (b as u8) as f64 / 255.0;
        assert_eq!((f64_value * 255.0).floor() as u8, b as u8);
        let f32_value = (b as u8) as f32 / 255.0;
        assert_eq!((f32_value * 255.0).floor() as u8, b as u8);
    }
}

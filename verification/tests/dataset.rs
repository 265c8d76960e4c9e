use mnist::error::MnistError;
use mnist::Mnist;

fn be_bytes(v: u32) -> [u8; 4] {
    [(v >> 24) as u8, (v >> 16) as u8, (v >> 8) as u8, v as u8]
}

fn label_file(count: u32, body: &[u8]) -> Vec<u8> {
    let mut bytes = Vec::new();
    bytes.extend_from_slice(&be_bytes(2049));
    bytes.extend_from_slice(&be_bytes(count));
    bytes.extend_from_slice(body);
    bytes
}

fn image_file(count: u32) -> Vec<u8> {
    let mut bytes = Vec::new();
    bytes.extend_from_slice(&be_bytes(2051));
    bytes.extend_from_slice(&be_bytes(count));
    bytes.extend_from_slice(&be_bytes(28));
    bytes.extend_from_slice(&be_bytes(28));
    for i in 0..count * 784 {
        bytes.push((i % 256) as u8);
    }
    bytes
}

#[test]
fn load_bundles_all_four_decodes() {
    let train_images = image_file(2);
    let train_labels = label_file(2, &[7, 3]);
    let test_images = image_file(1);
    let test_labels = label_file(1, &[9]);
    let data = Mnist::load(&train_images, &train_labels, &test_images, &test_labels).unwrap();
    assert_eq!(data.train_images.len(), 2);
    assert_eq!(data.train_labels, vec![7, 3]);
    assert_eq!(data.test_images.len(), 1);
    assert_eq!(data.test_labels, vec![9]);
    assert_eq!(data.train_images[0].as_u8_array()[1], 1);
    assert_eq!(data.test_images[0].width(), 28);
}

#[test]
fn load_surfaces_the_first_failing_decode_unchanged() {
    let train_images = image_file(1);
    // The train label file carries the image magic: the first decode fails.
    let mut train_labels = label_file(1, &[7]);
    train_labels[3] = 0x03;
    let test_images = image_file(1);
    let test_labels = label_file(1, &[9]);
    let err = Mnist::load(&train_images, &train_labels, &test_images, &test_labels).unwrap_err();
    assert_eq!(err, MnistError::InvalidMagicNumber { expected: 2049, found: 2051 });
}

#[test]
fn load_rejects_a_non_canonical_resolution() {
    let train_images = {
        let mut bytes = Vec::new();
        bytes.extend_from_slice(&be_bytes(2051));
        bytes.extend_from_slice(&be_bytes(1));
        bytes.extend_from_slice(&be_bytes(30));
        bytes.extend_from_slice(&be_bytes(28));
        bytes.extend(std::iter::repeat(0u8).take(30 * 28));
        bytes
    };
    let train_labels = label_file(1, &[7]);
    let test_images = image_file(1);
    let test_labels = label_file(1, &[9]);
    let err = Mnist::load(&train_images, &train_labels, &test_images, &test_labels).unwrap_err();
    assert_eq!(
        err,
        MnistError::InvalidImageDimensions { expected: (28, 28), found: (28, 30) }
    );
}

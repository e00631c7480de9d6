use smolnn::reader::{
    declared_count, read_images, read_labels, ReadError, IMAGE_HEADER_LEN, IMAGE_LEN,
    LABEL_HEADER_LEN,
};

fn image_file(images: usize, trailing: usize) -> Vec<u8> {
    let mut bytes = vec![0x00, 0x00, 0x08, 0x03, 0x00, 0x00, 0x00, 0x02];
    bytes.extend_from_slice(&[0, 0, 0, 28, 0, 0, 0, 28]);
    for k in 0..images * IMAGE_LEN + trailing {
        bytes.push((k % 251) as u8);
    }
    bytes
}

#[test]
fn images_need_a_whole_header() {
    assert_eq!(read_images(&[]), Err(ReadError::UnexpectedEof));
    assert_eq!(read_images(&[0u8; 4]), Err(ReadError::UnexpectedEof));
    assert_eq!(read_images(&[0u8; 15]), Err(ReadError::UnexpectedEof));
}

#[test]
fn header_alone_holds_no_image() {
    assert_eq!(read_images(&[0xffu8; 16]), Ok(Vec::new()));
    assert_eq!(read_images(&image_file(0, 783)), Ok(Vec::new()));
}

#[test]
fn images_come_in_file_order() {
    let bytes = image_file(3, 0);
    let images = read_images(&bytes).unwrap();
    assert_eq!(images.len(), 3);
    for (k, image) in images.iter().enumerate() {
        assert_eq!(image.len(), 784);
        assert_eq!(&image[..], &bytes[16 + 784 * k..16 + 784 * (k + 1)]);
    }
    assert_eq!(images[0][0], 0);
    assert_eq!(images[0][250], 250);
    assert_eq!(images[0][251], 0);
    assert_eq!(images[1][0], (784 % 251) as u8);
    assert_eq!(images[2][783], ((3 * 784 - 1) % 251) as u8);
}

#[test]
fn bytes_after_the_last_whole_image_are_dropped() {
    let whole = read_images(&image_file(2, 0)).unwrap();
    let ragged = read_images(&image_file(2, 500)).unwrap();
    assert_eq!(whole.len(), 2);
    assert_eq!(ragged, whole);
}

#[test]
fn image_header_is_not_interpreted() {
    let mut bytes = image_file(1, 0);
    let plain = read_images(&bytes).unwrap();
    for b in bytes.iter_mut().take(IMAGE_HEADER_LEN) {
        *b = 0xa5;
    }
    assert_eq!(read_images(&bytes).unwrap(), plain);
}

#[test]
fn labels_need_a_whole_header() {
    assert_eq!(read_labels(&[]), Err(ReadError::UnexpectedEof));
    assert_eq!(read_labels(&[0u8; 7]), Err(ReadError::UnexpectedEof));
}

#[test]
fn labels_are_the_bytes_after_the_header() {
    assert_eq!(read_labels(&[0u8; 8]), Ok(Vec::new()));
    let bytes = [0, 0, 8, 1, 0, 0, 0, 3, 7, 2, 1];
    assert_eq!(LABEL_HEADER_LEN, 8);
    assert_eq!(read_labels(&bytes), Ok(vec![7, 2, 1]));
    let odd = [9, 9, 9, 9, 9, 9, 9, 9, 255, 0, 10];
    assert_eq!(read_labels(&odd), Ok(vec![255, 0, 10]));
}

#[test]
fn declared_count_is_big_endian() {
    assert_eq!(declared_count(&[0, 0, 8, 3, 0, 0, 0x27, 0x10]), Some(10_000));
    assert_eq!(declared_count(&[0, 0, 8, 1, 0, 0, 0xea, 0x60, 5, 5]), Some(60_000));
    assert_eq!(declared_count(&[0, 0, 0, 0, 0x01, 0x02, 0x03, 0x04]), Some(0x0102_0304));
    assert_eq!(declared_count(&[0, 0, 0, 0, 0xff, 0xff, 0xff, 0xff]), Some(u32::MAX));
    assert_eq!(declared_count(&[0, 0, 0, 0, 0, 0, 0, 0]), Some(0));
}

#[test]
fn declared_count_needs_eight_bytes() {
    assert_eq!(declared_count(&[]), None);
    assert_eq!(declared_count(&[0, 0, 8, 3, 0, 0, 0x27]), None);
}

#[test]
fn declared_count_is_advisory() {
    let bytes = image_file(3, 0);
    assert_eq!(declared_count(&bytes), Some(2));
    assert_eq!(read_images(&bytes).unwrap().len(), 3);
}

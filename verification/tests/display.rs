use smolnn::display::{half_blocks, IMAGE_LINES, IMAGE_WIDTH};
use smolnn::reader::IMAGE_LEN;

#[test]
fn picture_is_fourteen_lines_of_twenty_eight() {
    let lines = half_blocks(&[0u8; IMAGE_LEN]);
    assert_eq!(IMAGE_LINES, 14);
    assert_eq!(IMAGE_WIDTH, 28);
    assert_eq!(lines.len(), 14);
    for line in &lines {
        assert_eq!(line.len(), 28);
        assert!(line.iter().all(|cell| *cell == (0, 0)));
    }
}

#[test]
fn line_shows_two_rows() {
    let mut gray = [0u8; IMAGE_LEN];
    for (k, g) in gray.iter_mut().enumerate() {
        *g = (k % 251) as u8;
    }
    let lines = half_blocks(&gray);
    assert_eq!(lines[0][0], (0, 28));
    assert_eq!(lines[0][27], (27, 55));
    assert_eq!(lines[1][0], (56, 84));
    assert_eq!(lines[13][27], ((755 % 251) as u8, (783 % 251) as u8));
    for line in 0..14 {
        for column in 0..28 {
            let upper = gray[column + line * 56];
            let lower = gray[column + line * 56 + 28];
            assert_eq!(lines[line][column], (upper, lower));
        }
    }
}

#[test]
fn every_pixel_is_shown_once() {
    let mut gray = [0u8; IMAGE_LEN];
    gray[5 * 28 + 3] = 200;
    let lines = half_blocks(&gray);
    let mut lit = 0;
    for (l, line) in lines.iter().enumerate() {
        for (c, cell) in line.iter().enumerate() {
            if *cell != (0, 0) {
                lit += 1;
                assert_eq!((l, c), (2, 3));
                assert_eq!(*cell, (0, 200));
            }
        }
    }
    assert_eq!(lit, 1);
}

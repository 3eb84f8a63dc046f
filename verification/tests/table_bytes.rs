use batch_kernel::image::{BuildError, ImageTable};
use batch_kernel::words::{read_word, write_word};

fn table_bytes(words: &[u64]) -> Vec<u8> {
    let mut out = Vec::new();
    for w in words {
        out.extend_from_slice(&w.to_le_bytes());
    }
    out
}

#[test]
fn table_is_read_from_its_bytes() {
    let bytes = table_bytes(&[3, 0x1000, 0x1064, 0x2064, 0x2065]);
    let image: Vec<u8> = (0..0x1065usize).map(|i| (i % 7) as u8 + 1).collect();
    let table = ImageTable::parse(&bytes, image.clone()).unwrap();
    assert_eq!(table.application_count(), 3);
    assert_eq!(table.image_range(0), (0x1000, 0x1064));
    assert_eq!(table.image_range(1), (0x1064, 0x2064));
    assert_eq!(table.image_range(2), (0x2064, 0x2065));
    assert_eq!(table.app_image(1), &image[0x64..0x1064]);
}

#[test]
fn table_with_missing_boundary_is_a_count_mismatch() {
    let bytes = table_bytes(&[3, 0, 100, 4196]);
    assert_eq!(ImageTable::parse(&bytes, vec![0; 4196]).err(), Some(BuildError::CountMismatch));
}

#[test]
fn table_with_extra_boundary_is_a_count_mismatch() {
    let bytes = table_bytes(&[1, 0, 100, 4196]);
    assert_eq!(ImageTable::parse(&bytes, vec![0; 100]).err(), Some(BuildError::CountMismatch));
}

#[test]
fn table_cut_inside_a_word_is_a_count_mismatch() {
    let mut bytes = table_bytes(&[1, 0, 100]);
    bytes.pop();
    assert_eq!(ImageTable::parse(&bytes, vec![0; 100]).err(), Some(BuildError::CountMismatch));
    assert_eq!(ImageTable::parse(&[], vec![]).err(), Some(BuildError::CountMismatch));
    assert_eq!(
        ImageTable::parse(&table_bytes(&[0]), vec![]).err(),
        Some(BuildError::CountMismatch)
    );
}

#[test]
fn parsed_table_is_checked_like_any_other() {
    let bytes = table_bytes(&[2, 50, 40, 60]);
    assert_eq!(ImageTable::parse(&bytes, vec![0; 10]).err(), Some(BuildError::NotIncreasing));
    let bytes = table_bytes(&[1, 0, 0x20001]);
    assert_eq!(ImageTable::parse(&bytes, vec![0; 0x20001]).err(), Some(BuildError::AppTooLarge));
    let bytes = table_bytes(&[1, 0, 16]);
    assert_eq!(ImageTable::parse(&bytes, vec![0; 15]).err(), Some(BuildError::ImageSizeMismatch));
    let mut words: Vec<u64> = vec![17];
    words.extend(0..18u64);
    assert_eq!(
        ImageTable::parse(&table_bytes(&words), vec![0; 17]).err(),
        Some(BuildError::TooManyApps)
    );
}

#[test]
fn empty_table_parses() {
    let bytes = table_bytes(&[0, 0x8020_0000]);
    let table = ImageTable::parse(&bytes, vec![]).unwrap();
    assert_eq!(table.application_count(), 0);
}

#[test]
fn words_are_little_endian() {
    assert_eq!(write_word(0x0102_0304_0506_0708), vec![8, 7, 6, 5, 4, 3, 2, 1]);
    assert_eq!(write_word(1), vec![1, 0, 0, 0, 0, 0, 0, 0]);
    let bytes = table_bytes(&[5, 0x8040_0000, u64::MAX]);
    assert_eq!(read_word(&bytes, 0), 5);
    assert_eq!(read_word(&bytes, 1), 0x8040_0000);
    assert_eq!(read_word(&bytes, 2), usize::MAX);
}

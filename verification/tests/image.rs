use regnum_assets::asset::image::find_last_sequence;

#[test]
fn test_empty_data() {
    let data: Vec<u8> = vec![];
    let sequence: [u8; 2] = [1, 2];
    assert_eq!(find_last_sequence(&data, &sequence), None);
}

#[test]
fn test_shorter_data() {
    let data: Vec<u8> = vec![1];
    let sequence: [u8; 2] = [1, 2];
    assert_eq!(find_last_sequence(&data, &sequence), None);
}

#[test]
fn test_sequence_found_at_end() {
    let data: Vec<u8> = vec![3, 4, 1, 2];
    let sequence: [u8; 2] = [1, 2];
    assert_eq!(find_last_sequence(&data, &sequence), Some(2));
}

#[test]
fn test_sequence_found_in_middle() {
    let data: Vec<u8> = vec![1, 2, 3, 1, 2, 4];
    let sequence: [u8; 2] = [1, 2];
    assert_eq!(find_last_sequence(&data, &sequence), Some(3));
}

#[test]
fn test_sequence_not_found() {
    let data: Vec<u8> = vec![3, 4, 5, 6];
    let sequence: [u8; 2] = [1, 2];
    assert_eq!(find_last_sequence(&data, &sequence), None);
}

#[test]
fn test_data_same_as_sequence() {
    let data: Vec<u8> = vec![1, 2];
    let sequence: [u8; 2] = [1, 2];
    assert_eq!(find_last_sequence(&data, &sequence), Some(0));
}

#[test]
fn test_sequence_occurs_multiple_times_at_start() {
    let data: Vec<u8> = vec![1, 2, 1, 2, 3];
    let sequence: [u8; 2] = [1, 2];
    assert_eq!(find_last_sequence(&data, &sequence), Some(2));
}

#[test]
fn test_jpeg_end_constant() {
    let data: Vec<u8> = vec![0xFF, 0xD8, 0x00, 0xFF, 0xD9];
    assert_eq!(find_last_sequence(&data, &regnum_assets::asset::image::JPEG_END), Some(3));
}

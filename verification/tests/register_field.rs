use device_driver::register_field::{read_field, write_field};

#[test]
fn field_spanning_bytes_reads_most_significant_first() {
    let raw = [0b0010_1111u8, 0x01, 0xF8];
    assert_eq!(read_field(&raw, 4, 20), 0x2018);
    let one = [0b0010_1100u8];
    assert_eq!(read_field(&one, 1, 6), 0b10110);
}

#[test]
fn write_then_read_gives_the_value() {
    let mut bits = vec![0u8; 2];
    write_field(&mut bits, 0, 4, 12);
    write_field(&mut bits, 4, 8, 5);
    assert_eq!(read_field(&bits, 0, 4), 12);
    assert_eq!(read_field(&bits, 4, 8), 5);
    assert_eq!(bits, vec![0x5C, 0x00]);
    write_field(&mut bits, 3, 13, 0x3FF);
    assert_eq!(read_field(&bits, 3, 13), 0x3FF);
    assert_eq!(read_field(&bits, 0, 3), 4);
    assert_eq!(bits[1] >> 5, 0);
}

#[test]
fn written_value_is_cut_to_the_field() {
    let mut bits = vec![0xFFu8; 1];
    write_field(&mut bits, 2, 5, 0b1010);
    assert_eq!(read_field(&bits, 2, 5), 0b010);
    assert_eq!(bits[0], 0b1110_1011);
}

#[test]
fn write_keeps_disjoint_field() {
    let mut bits = vec![0b1010_0101u8, 0x3c];
    let before = read_field(&bits, 4, 12);
    write_field(&mut bits, 0, 4, 0xf);
    assert_eq!(read_field(&bits, 0, 4), 0xf);
    assert_eq!(read_field(&bits, 4, 12), before);
    write_field(&mut bits, 12, 16, 0);
    assert_eq!(read_field(&bits, 4, 12), before);
}

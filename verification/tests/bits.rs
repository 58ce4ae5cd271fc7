use mips_sim::bits::{
    as_signed, as_unsigned, get_bits, get_inst_seg, nor32, read_imm, shl32, shr32, Segment,
};

#[test]
fn get_bits_takes_low_nibble() {
    assert_eq!(get_bits(0xABCD_1234, 0, 4), 0x4);
}

#[test]
fn get_bits_takes_a_byte_from_the_middle() {
    assert_eq!(get_bits(0xABCD_1234, 4, 8), 0x23);
}

#[test]
fn get_bits_takes_the_high_half() {
    assert_eq!(get_bits(0xABCD_1234, 16, 16), 0xABCD);
}

#[test]
fn get_bits_of_the_whole_word_is_the_word() {
    assert_eq!(get_bits(0xABCD_1234, 0, 32), 0xABCD_1234);
    assert_eq!(get_bits(0xFFFF_FFFF, 0, 32), 0xFFFF_FFFF);
}

#[test]
fn get_bits_takes_the_top_bit() {
    assert_eq!(get_bits(0x8000_0000, 31, 1), 1);
    assert_eq!(get_bits(0x7FFF_FFFF, 31, 1), 0);
}

#[test]
fn get_bits_of_no_bits_is_zero() {
    assert_eq!(get_bits(0xFFFF_FFFF, 0, 0), 0);
    assert_eq!(get_bits(0xFFFF_FFFF, 5, 0), 0);
    assert_eq!(get_bits(0xFFFF_FFFF, 32, 0), 0);
}

#[test]
fn get_bits_ignores_bits_above_the_field() {
    assert_eq!(get_bits(0xFFFF_FFFF, 26, 6), 0x3F);
    assert_eq!(get_bits(0xFFFF_FFFF, 6, 5), 0x1F);
    assert_eq!(get_bits(0xFFFF_F83F, 6, 5), 0);
}

#[test]
fn get_inst_seg_reads_every_field_of_a_register_word() {
    // add $3, $1, $2
    let word = 0x0022_1820;
    assert_eq!(get_inst_seg(word, Segment::Op), 0);
    assert_eq!(get_inst_seg(word, Segment::Rs), 1);
    assert_eq!(get_inst_seg(word, Segment::Rt), 2);
    assert_eq!(get_inst_seg(word, Segment::Rd), 3);
    assert_eq!(get_inst_seg(word, Segment::Sh), 0);
    assert_eq!(get_inst_seg(word, Segment::Funct), 0x20);
    assert_eq!(get_inst_seg(word, Segment::Imm), 0x1820);
    assert_eq!(get_inst_seg(word, Segment::Addr), 0x022_1820);
}

#[test]
fn get_inst_seg_separates_neighbouring_fields() {
    // Only one field set to all ones at a time.
    assert_eq!(get_inst_seg(0xFC00_0000, Segment::Op), 0x3F);
    assert_eq!(get_inst_seg(0xFC00_0000, Segment::Rs), 0);
    assert_eq!(get_inst_seg(0x03E0_0000, Segment::Rs), 0x1F);
    assert_eq!(get_inst_seg(0x03E0_0000, Segment::Op), 0);
    assert_eq!(get_inst_seg(0x03E0_0000, Segment::Rt), 0);
    assert_eq!(get_inst_seg(0x001F_0000, Segment::Rt), 0x1F);
    assert_eq!(get_inst_seg(0x001F_0000, Segment::Rd), 0);
    assert_eq!(get_inst_seg(0x0000_F800, Segment::Rd), 0x1F);
    assert_eq!(get_inst_seg(0x0000_F800, Segment::Sh), 0);
    assert_eq!(get_inst_seg(0x0000_07C0, Segment::Sh), 0x1F);
    assert_eq!(get_inst_seg(0x0000_07C0, Segment::Funct), 0);
    assert_eq!(get_inst_seg(0x0000_003F, Segment::Funct), 0x3F);
    assert_eq!(get_inst_seg(0xFFFF_FFFF, Segment::Imm), 0xFFFF);
    assert_eq!(get_inst_seg(0xFFFF_FFFF, Segment::Addr), 0x03FF_FFFF);
}

#[test]
fn sign_extension_of_one() {
    assert_eq!(read_imm(0x0001), 1);
}

#[test]
fn sign_extension_of_all_ones() {
    assert_eq!(read_imm(0xFFFF), -1);
}

#[test]
fn sign_extension_of_the_sign_bit_alone() {
    assert_eq!(read_imm(0x8000), -32768);
}

#[test]
fn sign_extension_at_the_edges() {
    assert_eq!(read_imm(0), 0);
    assert_eq!(read_imm(0x7FFF), 32767);
    assert_eq!(read_imm(0x8001), -32767);
    assert_eq!(read_imm(0xFFFE), -2);
}

#[test]
fn reading_a_word_as_unsigned_keeps_its_bits() {
    assert_eq!(as_unsigned(0), 0);
    assert_eq!(as_unsigned(1), 1);
    assert_eq!(as_unsigned(i32::MAX), 0x7FFF_FFFF);
    assert_eq!(as_unsigned(-1), 0xFFFF_FFFF);
    assert_eq!(as_unsigned(i32::MIN), 0x8000_0000);
    assert_eq!(as_unsigned(-4), 0xFFFF_FFFC);
}

#[test]
fn reading_a_word_as_signed_keeps_its_bits() {
    assert_eq!(as_signed(0), 0);
    assert_eq!(as_signed(0x7FFF_FFFF), i32::MAX);
    assert_eq!(as_signed(0x8000_0000), i32::MIN);
    assert_eq!(as_signed(0xFFFF_FFFF), -1);
    assert_eq!(as_signed(0xFFFF_FFFC), -4);
}

#[test]
fn nor_of_words() {
    assert_eq!(nor32(0, 0), -1);
    assert_eq!(nor32(-1, 0), 0);
    assert_eq!(nor32(0b1100, 0b1010), -15);
    assert_eq!(nor32(0x0F0F_0F0F, 0x00FF_00FF), as_signed(0xF000_F000));
}

#[test]
fn shift_left_drops_the_bits_that_leave() {
    assert_eq!(shl32(1, 0), 1);
    assert_eq!(shl32(1, 31), i32::MIN);
    assert_eq!(shl32(3, 31), i32::MIN);
    assert_eq!(shl32(-1, 4), -16);
    assert_eq!(shl32(0x1234_5678, 8), 0x3456_7800);
    assert_eq!(shl32(0x0812_3456, 4), as_signed(0x8123_4560));
}

#[test]
fn shift_right_fills_with_zeros() {
    assert_eq!(shr32(1, 0), 1);
    assert_eq!(shr32(-1, 0), -1);
    assert_eq!(shr32(-1, 1), i32::MAX);
    assert_eq!(shr32(i32::MIN, 31), 1);
    assert_eq!(shr32(0x1234_5678, 8), 0x0012_3456);
    assert_eq!(shr32(-256, 4), 0x0FFF_FFF0);
}

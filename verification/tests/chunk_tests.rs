use calcify::chunk::{decode_instruction, fits, ByteCode, BYTE_CODE_COUNT};
use calcify::values::ValueType;
use calcify::virtual_machine::{read_byte, read_u16, VMError};

#[test]
fn operations_are_numbered_from_zero() {
    assert_eq!(ByteCode::Return.into(), 0);
    assert_eq!(ByteCode::Constant.into(), 1);
    assert_eq!(ByteCode::Negate.into(), 2);
    assert_eq!(BYTE_CODE_COUNT, 3);
}

#[test]
fn a_byte_below_the_count_is_its_operation_and_any_other_is_none() {
    assert_eq!(ByteCode::try_from(0), Ok(ByteCode::Return));
    assert_eq!(ByteCode::try_from(1), Ok(ByteCode::Constant));
    assert_eq!(ByteCode::try_from(2), Ok(ByteCode::Negate));
    for byte in 3..=255u8 {
        assert_eq!(ByteCode::try_from(byte), Err(()));
    }
    for byte in 0..3u8 {
        assert_eq!(ByteCode::try_from(byte).unwrap().into(), byte);
    }
}

#[test]
fn operand_widths() {
    assert_eq!(ByteCode::Return.operand_bytes(), 0);
    assert_eq!(ByteCode::Constant.operand_bytes(), 1);
    assert_eq!(ByteCode::Negate.operand_bytes(), 4);
}

#[test]
fn instructions_are_decoded_with_the_offset_after_them() {
    let code = vec![1u8, 7, 2, 0, 1, 0, 2, 0, 9];
    assert!(fits(&code, 0));
    assert_eq!(decode_instruction(&code, 0), (Some(ByteCode::Constant), 2));
    assert!(fits(&code, 2));
    assert_eq!(decode_instruction(&code, 2), (Some(ByteCode::Negate), 7));
    assert_eq!(decode_instruction(&code, 7), (Some(ByteCode::Return), 8));
    assert_eq!(decode_instruction(&code, 8), (None, 9));
    assert!(!fits(&code, 9));
}

#[test]
fn an_instruction_whose_operands_are_cut_off_does_not_fit() {
    assert!(!fits(&vec![1u8], 0));
    assert!(!fits(&vec![2u8, 0, 0, 0], 0));
    assert!(fits(&vec![2u8, 0, 0, 0, 0], 0));
    assert!(!fits(&Vec::new(), 0));
}

#[test]
fn bytes_are_read_one_by_one_up_to_the_end() {
    let code = vec![5u8, 6];
    let mut ip = 0;
    assert_eq!(read_byte(&code, &mut ip), Ok(5));
    assert_eq!(ip, 1);
    assert_eq!(read_byte(&code, &mut ip), Ok(6));
    assert_eq!(ip, 2);
    assert_eq!(read_byte(&code, &mut ip), Err(VMError::RuntimeError));
    assert_eq!(ip, 2);
}

#[test]
fn a_slot_index_is_two_bytes_with_the_top_byte_first() {
    let code = vec![1u8, 2, 0, 255, 255, 255, 9];
    let mut ip = 0;
    assert_eq!(read_u16(&code, &mut ip), Ok(258));
    assert_eq!(ip, 2);
    assert_eq!(read_u16(&code, &mut ip), Ok(255));
    assert_eq!(read_u16(&code, &mut ip), Ok(65535));
    assert_eq!(ip, 6);
    assert_eq!(read_u16(&code, &mut ip), Err(VMError::RuntimeError));
    assert!(ip <= code.len());
    let mut ip = 7;
    assert_eq!(read_u16(&code, &mut ip), Err(VMError::RuntimeError));
}

#[test]
fn value_kinds_are_distinct() {
    assert_ne!(ValueType::F64, ValueType::F32);
    assert_eq!(ValueType::Bool, ValueType::Bool);
}

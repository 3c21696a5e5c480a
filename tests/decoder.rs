use r_chip_8::{extract_instruction_data, Op};

#[test]
fn extracts_operand_fields() {
    assert_eq!(extract_instruction_data(0xD123), (0x123, 0x3, 0x1, 0x2, 0x23));
    assert_eq!(extract_instruction_data(0x8AB4), (0xAB4, 0x4, 0xA, 0xB, 0xB4));
}

#[test]
fn decodes_each_family() {
    assert_eq!(Op::decode(0x00E0), Op::Cls);
    assert_eq!(Op::decode(0x00EE), Op::Ret);
    assert_eq!(Op::decode(0x0123), Op::Sys { nnn: 0x123 });
    assert_eq!(Op::decode(0x1ABC), Op::Jp { nnn: 0xABC });
    assert_eq!(Op::decode(0x2ABC), Op::Call { nnn: 0xABC });
    assert_eq!(Op::decode(0x3A12), Op::SeByte { x: 0xA, kk: 0x12 });
    assert_eq!(Op::decode(0x4A12), Op::SneByte { x: 0xA, kk: 0x12 });
    assert_eq!(Op::decode(0x5AB0), Op::SeReg { x: 0xA, y: 0xB });
    assert_eq!(Op::decode(0x6A12), Op::LdByte { x: 0xA, kk: 0x12 });
    assert_eq!(Op::decode(0x7A12), Op::AddByte { x: 0xA, kk: 0x12 });
    assert_eq!(Op::decode(0x8AB0), Op::LdReg { x: 0xA, y: 0xB });
    assert_eq!(Op::decode(0x8AB1), Op::Or { x: 0xA, y: 0xB });
    assert_eq!(Op::decode(0x8AB2), Op::And { x: 0xA, y: 0xB });
    assert_eq!(Op::decode(0x8AB3), Op::Xor { x: 0xA, y: 0xB });
    assert_eq!(Op::decode(0x8AB4), Op::AddReg { x: 0xA, y: 0xB });
    assert_eq!(Op::decode(0x8AB5), Op::Sub { x: 0xA, y: 0xB });
    assert_eq!(Op::decode(0x8AB6), Op::Shr { x: 0xA });
    assert_eq!(Op::decode(0x8AB7), Op::Subn { x: 0xA, y: 0xB });
    assert_eq!(Op::decode(0x8ABE), Op::Shl { x: 0xA });
    assert_eq!(Op::decode(0x9AB0), Op::SneReg { x: 0xA, y: 0xB });
    assert_eq!(Op::decode(0xA123), Op::LdI { nnn: 0x123 });
    assert_eq!(Op::decode(0xB123), Op::JpV0 { nnn: 0x123 });
    assert_eq!(Op::decode(0xC1F0), Op::Rnd { x: 1, kk: 0xF0 });
    assert_eq!(Op::decode(0xD125), Op::Drw { x: 1, y: 2, n: 5 });
    assert_eq!(Op::decode(0xE19E), Op::Skp { x: 1 });
    assert_eq!(Op::decode(0xE1A1), Op::Sknp { x: 1 });
    assert_eq!(Op::decode(0xF107), Op::LdVxDt { x: 1 });
    assert_eq!(Op::decode(0xF10A), Op::LdVxK { x: 1 });
    assert_eq!(Op::decode(0xF115), Op::LdDtVx { x: 1 });
    assert_eq!(Op::decode(0xF118), Op::LdStVx { x: 1 });
    assert_eq!(Op::decode(0xF11E), Op::AddI { x: 1 });
    assert_eq!(Op::decode(0xF129), Op::LdF { x: 1 });
    assert_eq!(Op::decode(0xF133), Op::LdB { x: 1 });
    assert_eq!(Op::decode(0xF155), Op::LdIVx { x: 1 });
    assert_eq!(Op::decode(0xF165), Op::LdVxI { x: 1 });
}

#[test]
fn unlisted_patterns_are_invalid() {
    assert_eq!(Op::decode(0x5AB1), Op::Invalid);
    assert_eq!(Op::decode(0x8AB8), Op::Invalid);
    assert_eq!(Op::decode(0x9AB1), Op::Invalid);
    assert_eq!(Op::decode(0xE100), Op::Invalid);
    assert_eq!(Op::decode(0xF1FF), Op::Invalid);
}

#[test]
fn decoding_is_deterministic() {
    assert_eq!(Op::decode(0xD4A7), Op::decode(0xD4A7));
}

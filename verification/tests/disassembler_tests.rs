use chip_8_lib::disassembler::disassemble;
use chip_8_lib::disassembler::dec_string;
use chip_8_lib::disassembler::hex_string;

#[test]
fn numbers_render_exactly() {
    assert_eq!(dec_string(0), "0");
    assert_eq!(dec_string(7), "7");
    assert_eq!(dec_string(42), "42");
    assert_eq!(dec_string(255), "255");
    assert_eq!(dec_string(4095), "4095");
    assert_eq!(hex_string(0), "0");
    assert_eq!(hex_string(0xA), "A");
    assert_eq!(hex_string(0x123), "123");
    assert_eq!(hex_string(0xFFFF), "FFFF");
    assert_eq!(hex_string(0x5011), "5011");
}

#[test]
fn system_and_flow_mnemonics() {
    assert_eq!(disassemble(0x00E0), "CLS");
    assert_eq!(disassemble(0x00EE), "RET");
    assert_eq!(disassemble(0x1ABC), "JP 0xABC");
    assert_eq!(disassemble(0x2123), "CALL 0x123");
    assert_eq!(disassemble(0xB123), "JP V0 0x123");
}

#[test]
fn register_mnemonics() {
    assert_eq!(disassemble(0x3A2B), "SE V10 43");
    assert_eq!(disassemble(0x4123), "SNE V1 35");
    assert_eq!(disassemble(0x5AB0), "SE V10 V11");
    assert_eq!(disassemble(0x9AB0), "SNE V10 V11");
    assert_eq!(disassemble(0x6015), "LD V0 21");
    assert_eq!(disassemble(0x7F10), "ADD V15 16");
    assert_eq!(disassemble(0x8AB0), "LD V10 V11");
    assert_eq!(disassemble(0x8AB1), "OR V10 V11");
    assert_eq!(disassemble(0x8AB2), "AND V10 V11");
    assert_eq!(disassemble(0x8AB3), "XOR V10 V11");
    assert_eq!(disassemble(0x8AB4), "ADD V10 V11");
    assert_eq!(disassemble(0x8AB5), "SUB V10 V11");
    assert_eq!(disassemble(0x8126), "SHR V1");
    assert_eq!(disassemble(0x8AB7), "SUBN V10 V11");
    assert_eq!(disassemble(0x812E), "SHL V1");
}

#[test]
fn memory_and_misc_mnemonics() {
    assert_eq!(disassemble(0xA123), "LD I 0x123");
    assert_eq!(disassemble(0xC3FF), "RND V3 255");
    assert_eq!(disassemble(0xD125), "DRW V1 V2 5");
    assert_eq!(disassemble(0xE19E), "SKP V1");
    assert_eq!(disassemble(0xE2A1), "SKNP V2");
    assert_eq!(disassemble(0xF107), "LD V1 DT");
    assert_eq!(disassemble(0xF20A), "LD V2 K");
    assert_eq!(disassemble(0xF315), "LD DT V3");
    assert_eq!(disassemble(0xF418), "LD ST V4");
    assert_eq!(disassemble(0xF51E), "ADD I V5");
    assert_eq!(disassemble(0xF629), "LD F V6");
    assert_eq!(disassemble(0xF733), "LD B V7");
    assert_eq!(disassemble(0xF855), "LD [I] V8");
    assert_eq!(disassemble(0xF965), "LD V9 [I]");
}

#[test]
fn unknown_opcodes_marked() {
    assert_eq!(disassemble(0x0000), "??? 0x0");
    assert_eq!(disassemble(0x5AB1), "??? 0x5AB1");
    assert_eq!(disassemble(0x8AB8), "??? 0x8AB8");
    assert_eq!(disassemble(0xE1FF), "??? 0xE1FF");
    assert_eq!(disassemble(0xFFFF), "??? 0xFFFF");
}

use pacc::decode::{decode_tokens, Token};
use pacc::error::RimError;
use pacc::isa::{Device, Instruction, InstructionData, Opcode, Register, U3, U4};
use pacc::program::{assemble, assemble_image, serialize, MAGIC};

fn bytes_of(src: &str) -> Vec<u8> {
    match assemble_image(src) {
        Ok(b) => b,
        Err(e) => panic!("{}", e.message()),
    }
}

fn body_of(src: &str) -> Vec<u8> {
    bytes_of(src)[4..].to_vec()
}

fn err_of(src: &str) -> RimError {
    match assemble(src) {
        Ok(_) => panic!("expected an error for {:?}", src),
        Err(e) => e,
    }
}

fn token(text: &str, folded: &str) -> Token {
    Token { text: text.to_string(), folded: folded.to_string() }
}

#[test]
fn opcode_occupies_top_bits() {
    let lines = [
        ("adi 0", 0u8),
        ("add ra ra", 1),
        ("sub ra ra", 2),
        ("jne 0", 3),
        ("jg 0", 4),
        ("jl 0", 5),
        ("ioi cpu 0", 6),
        ("ior cpu 0", 7),
    ];
    let mut seen = Vec::new();
    for (src, code) in lines {
        let body = body_of(src);
        assert_eq!(body.len(), 1);
        assert_eq!(body[0] >> 5, code);
        assert_eq!(body[0] & 31, 0);
        assert!(!seen.contains(&(body[0] >> 5)));
        seen.push(body[0] >> 5);
    }
}

#[test]
fn payload_layouts() {
    assert_eq!(body_of("adi 31"), vec![0b000_11111]);
    assert_eq!(body_of("add rb rc"), vec![0b001_0_01_10]);
    assert_eq!(body_of("subp rd ra"), vec![0b010_1_11_00]);
    assert_eq!(body_of("jl 9"), vec![0b101_0_1001]);
    assert_eq!(body_of("jnep 3"), vec![0b011_1_0011]);
    assert_eq!(body_of("ior scr 5"), vec![0b111_10_101]);
    assert_eq!(body_of("ioi mth 7"), vec![0b110_11_111]);
}

#[test]
fn address_sixteen_is_accepted() {
    let p = assemble("jg 16").unwrap();
    assert_eq!(p.len(), 1);
    match p[0].data {
        InstructionData::Mem { is_ptr, addr } => {
            assert!(!is_ptr);
            assert_eq!(addr.value(), 16);
        }
        _ => panic!("wrong shape"),
    }
    assert_eq!(body_of("jg 16"), vec![0b100_0_0000]);
}

#[test]
fn category_maxima() {
    assert_eq!(body_of("adi 31"), vec![31]);
    assert!(matches!(err_of("adi 32"), RimError::IntegerTooLarge(1, 32, 31)));
    assert_eq!(body_of("jne 16").len(), 1);
    assert!(matches!(err_of("jne 17"), RimError::IntegerTooLarge(1, 17, 16)));
    assert_eq!(body_of("ioi kbd 7").len(), 1);
    assert!(matches!(err_of("ioi kbd 8"), RimError::IntegerTooLarge(1, 8, 7)));
}

#[test]
fn large_numerals_are_too_large() {
    assert!(matches!(err_of("jg 256"), RimError::IntegerTooLarge(1, 256, 16)));
    assert!(matches!(err_of("adi 999"), RimError::IntegerTooLarge(1, 999, 31)));
    assert!(matches!(err_of("ior cpu +1000"), RimError::IntegerTooLarge(1, 1000, 7)));
    assert!(matches!(
        err_of("jl 18446744073709551615"),
        RimError::IntegerTooLarge(1, 18446744073709551615, 16)
    ));
    match err_of("jl 18446744073709551616") {
        RimError::InvalidInteger(1, t) => assert_eq!(t, "18446744073709551616"),
        e => panic!("{}", e.message()),
    }
    assert_eq!(
        RimError::IntegerTooLarge(4, 256, 16).message(),
        "Integer `256` on line 4 too large (max is 16)"
    );
}

#[test]
fn arity_checks() {
    assert!(matches!(err_of("adi"), RimError::LineTooShort(1)));
    assert!(matches!(err_of("adi 1 2"), RimError::LineTooLong(1)));
    assert!(matches!(err_of("add ra"), RimError::LineTooShort(1)));
    assert!(matches!(err_of("add rb"), RimError::LineTooShort(1)));
    assert!(matches!(err_of("add ra rb rc"), RimError::LineTooLong(1)));
    assert!(matches!(err_of("jg"), RimError::LineTooShort(1)));
    assert!(matches!(err_of("jg 1 1"), RimError::LineTooLong(1)));
    assert!(matches!(err_of("ioi cpu"), RimError::LineTooShort(1)));
    assert!(matches!(err_of("ioi 0"), RimError::LineTooShort(1)));
    assert!(matches!(err_of("ioi cpu 0 0"), RimError::LineTooLong(1)));
    // arity is checked before the operands are read
    assert!(matches!(err_of("add xx yy zz"), RimError::LineTooLong(1)));
}

#[test]
fn mnemonics_ignore_case() {
    let a = bytes_of("ADD RA RB");
    assert_eq!(a, bytes_of("Add Ra Rb"));
    assert_eq!(a, bytes_of("add ra rb"));
    assert_eq!(bytes_of("IOI CPU 1"), bytes_of("ioi cpu 1"));
}

#[test]
fn halt_is_ioi_cpu_zero() {
    let h = body_of("hlt");
    assert_eq!(h, body_of("ioi cpu 0"));
    assert_eq!(h, vec![0b110_00_000]);
    assert_eq!(body_of("HLT"), h);
    assert_eq!(body_of("hlt 1 2 3"), h);
    let p = assemble("hlt").unwrap();
    assert_eq!(
        p[0],
        Instruction {
            opcode: Opcode::Ioi,
            data: InstructionData::Io { device: Device::Cpu, function: U3::new(0).unwrap() },
        }
    );
}

#[test]
fn hlt_with_suffix_is_unknown() {
    match err_of("hltp") {
        RimError::InvalidInstruction(1, t) => assert_eq!(t, "hltp"),
        e => panic!("{}", e.message()),
    }
}

#[test]
fn adip_is_refused() {
    match err_of("adip 5") {
        RimError::InvalidInstruction(1, t) => assert_eq!(t, "adip"),
        e => panic!("{}", e.message()),
    }
    match err_of("ADIP 5") {
        RimError::InvalidInstruction(1, t) => assert_eq!(t, "adip"),
        e => panic!("{}", e.message()),
    }
}

#[test]
fn end_to_end_program() {
    let src = "add ra rb\nsub rc rd\nhlt\n";
    let p = assemble(src).unwrap();
    assert_eq!(p.len(), 3);
    assert_eq!(
        p[0],
        Instruction {
            opcode: Opcode::Add,
            data: InstructionData::Reg { is_id: false, src: Register::Ra, dest: Register::Rb },
        }
    );
    assert_eq!(
        p[1],
        Instruction {
            opcode: Opcode::Sub,
            data: InstructionData::Reg { is_id: false, src: Register::Rc, dest: Register::Rd },
        }
    );
    let image = bytes_of(src);
    let mut expected = MAGIC.to_be_bytes().to_vec();
    expected.extend_from_slice(&[0x21, 0x4b, 0xc0]);
    assert_eq!(image, expected);
    assert_eq!(image.len(), 7);
}

#[test]
fn blank_lines_are_skipped_but_counted() {
    let p = assemble("add ra rb\n\nsub rc rd").unwrap();
    assert_eq!(p.len(), 2);
    assert_eq!(body_of("add ra rb\n \t \nsub rc rd"), body_of("add ra rb\nsub rc rd"));
    match err_of("add ra rb\n   \nfoo") {
        RimError::InvalidInstruction(3, t) => assert_eq!(t, "foo"),
        e => panic!("{}", e.message()),
    }
    assert_eq!(assemble("").unwrap().len(), 0);
    assert_eq!(assemble("\n\n  \n").unwrap().len(), 0);
}

#[test]
fn assembly_is_repeatable() {
    let src = "adi 3\njnep 9\n\nior scr 2\nhlt\n";
    assert_eq!(bytes_of(src), bytes_of(src));
}

#[test]
fn crlf_line_endings() {
    assert_eq!(body_of("add ra rb\r\nhlt\r\n"), vec![0x21, 0xc0]);
}

#[test]
fn first_error_wins() {
    assert!(matches!(err_of("adi 1\nadi 99\nfoo"), RimError::IntegerTooLarge(2, 99, 31)));
}

#[test]
fn unknown_mnemonics() {
    match err_of("foo 1") {
        RimError::InvalidInstruction(1, t) => assert_eq!(t, "foo"),
        e => panic!("{}", e.message()),
    }
    match err_of("MOV ra rb") {
        RimError::InvalidInstruction(1, t) => assert_eq!(t, "MOV"),
        e => panic!("{}", e.message()),
    }
    match err_of("FOOP 1") {
        RimError::InvalidInstruction(1, t) => assert_eq!(t, "FOOP"),
        e => panic!("{}", e.message()),
    }
    match err_of(" add ra rb") {
        RimError::InvalidInstruction(1, t) => assert_eq!(t, ""),
        e => panic!("{}", e.message()),
    }
}

#[test]
fn bad_operands() {
    match err_of("add rx rb") {
        RimError::InvalidRegister(1, t) => assert_eq!(t, "rx"),
        e => panic!("{}", e.message()),
    }
    match err_of("add ra RE") {
        RimError::InvalidRegister(1, t) => assert_eq!(t, "re"),
        e => panic!("{}", e.message()),
    }
    match err_of("ioi dsk 1") {
        RimError::InvalidDevice(1, t) => assert_eq!(t, "dsk"),
        e => panic!("{}", e.message()),
    }
    match err_of("adi abc") {
        RimError::InvalidInteger(1, t) => assert_eq!(t, "abc"),
        e => panic!("{}", e.message()),
    }
    match err_of("ioi cpu -1") {
        RimError::InvalidInteger(1, t) => assert_eq!(t, "-1"),
        e => panic!("{}", e.message()),
    }
    match err_of("adi ") {
        RimError::InvalidInteger(1, t) => assert_eq!(t, ""),
        e => panic!("{}", e.message()),
    }
}

#[test]
fn decimal_forms() {
    assert_eq!(body_of("adi +5"), vec![5]);
    assert_eq!(body_of("adi 007"), vec![7]);
    assert!(matches!(err_of("adi 255"), RimError::IntegerTooLarge(1, 255, 31)));
    assert!(matches!(err_of("adi +"), RimError::InvalidInteger(1, _)));
}

#[test]
fn decode_from_folded_tokens() {
    let toks = vec![token("XYZ", "add"), token("?", "rc"), token("?", "rd")];
    assert_eq!(
        decode_tokens(4, &toks).unwrap(),
        Instruction {
            opcode: Opcode::Add,
            data: InstructionData::Reg { is_id: false, src: Register::Rc, dest: Register::Rd },
        }
    );
    let toks = vec![token("Q", "jlp"), token("12", "12")];
    assert_eq!(
        decode_tokens(4, &toks).unwrap(),
        Instruction {
            opcode: Opcode::Jl,
            data: InstructionData::Mem { is_ptr: true, addr: U4::new(12).unwrap() },
        }
    );
    let toks = vec![token("HaLt", "hlt"), token("x", "x")];
    assert_eq!(decode_tokens(1, &toks).unwrap().encode(), 0xc0);
    let toks = vec![token("Nope", "nope")];
    match decode_tokens(9, &toks) {
        Err(RimError::InvalidInstruction(9, t)) => assert_eq!(t, "Nope"),
        _ => panic!("expected an invalid instruction"),
    }
    assert!(matches!(decode_tokens(2, &Vec::new()), Err(RimError::InvalidInstruction(2, _))));
}

#[test]
fn bounded_fields() {
    assert!(U3::new(7).is_some());
    assert!(U3::new(8).is_none());
    assert!(U4::new(16).is_some());
    assert!(U4::new(17).is_none());
    assert_eq!(U3::new(5).unwrap().value(), 5);
}

#[test]
fn serialize_prepends_magic() {
    assert_eq!(serialize(&Vec::new()), MAGIC.to_be_bytes().to_vec());
    let p = assemble("adi 1\nadi 2").unwrap();
    assert_eq!(serialize(&p), vec![0x50, 0x41, 0x43, 0x54, 1, 2]);
}

#[test]
fn error_messages() {
    assert_eq!(RimError::LineTooShort(3).message(), "Line 3 too short");
    assert_eq!(RimError::LineTooLong(12).message(), "Line 12 too long");
    assert_eq!(
        RimError::InvalidInstruction(1, "adip".to_string()).message(),
        "Invalid instruction `adip` on line 1"
    );
    assert_eq!(
        RimError::InvalidRegister(7, "rx".to_string()).message(),
        "Invalid register `rx` on line 7"
    );
    assert_eq!(
        RimError::InvalidDevice(2, "dsk".to_string()).message(),
        "Invalid device `dsk` on line 2"
    );
    assert_eq!(
        RimError::InvalidInteger(10, "x".to_string()).message(),
        "Invalid integer `x` on line 10"
    );
    assert_eq!(
        RimError::IntegerTooLarge(105, 32, 31).message(),
        "Integer `32` on line 105 too large (max is 31)"
    );
    let io = std::io::Error::new(std::io::ErrorKind::NotFound, "gone");
    let e = RimError::from(io);
    assert!(matches!(e, RimError::IoError(_)));
    assert_eq!(e.message(), "gone");
}

#[test]
fn errors_name_the_token_as_written() {
    match err_of("foo ra") {
        RimError::InvalidInstruction(1, t) => assert_eq!(t, "foo"),
        e => panic!("{}", e.message()),
    }
    match err_of("add ra rx") {
        RimError::InvalidRegister(1, t) => assert_eq!(t, "rx"),
        e => panic!("{}", e.message()),
    }
    match err_of("ioi gpu 0") {
        RimError::InvalidDevice(1, t) => assert_eq!(t, "gpu"),
        e => panic!("{}", e.message()),
    }
    match err_of("adi x5") {
        RimError::InvalidInteger(1, t) => assert_eq!(t, "x5"),
        e => panic!("{}", e.message()),
    }
    match err_of("HltP 1") {
        RimError::InvalidInstruction(1, t) => assert_eq!(t, "HltP"),
        e => panic!("{}", e.message()),
    }
    assert_eq!(
        err_of("hltp").message(),
        "Invalid instruction `hltp` on line 1"
    );
}

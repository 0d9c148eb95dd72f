use lib::field::Field;
use lib::instruction::{BinaryOperation, Count, EvalError, Operand, Register, Registers, SubWrapped};
use lib::value::{Address, Group, Identifier, Literal, LiteralOrType, LiteralType, Mode, Value};

fn reg(locator: u64) -> Register {
    Register { locator }
}

fn instruction() -> SubWrapped {
    SubWrapped::new(BinaryOperation {
        first: Operand::Register(reg(0)),
        second: Operand::Register(reg(1)),
        destination: reg(2),
    })
}

/// Runs `sub.w r0 r1 into r2` with `first` in r0 and `second` in r1, or gives
/// the reason why it halts.
fn run(first: Literal, second: Literal) -> (Result<(), EvalError>, Registers) {
    let mut registers = Registers::new(3);
    registers.assign(&reg(0), Value::Literal(first)).unwrap();
    registers.assign(&reg(1), Value::Literal(second)).unwrap();
    let op = instruction();
    match op.halt_reason(&registers) {
        Some(e) => (Err(e), registers),
        None => {
            op.evaluate(&mut registers);
            (Ok(()), registers)
        },
    }
}

fn output(registers: &Registers) -> &Literal {
    match registers.get(&reg(2)) {
        Some(Value::Literal(l)) => l,
        other => panic!("unexpected destination {:?}", other),
    }
}

const MODES: [Mode; 3] = [Mode::Constant, Mode::Public, Mode::Private];

fn expected_mode(a: Mode, b: Mode) -> Mode {
    if a == Mode::Constant && b == Mode::Constant {
        Mode::Constant
    } else {
        Mode::Private
    }
}

#[test]
fn test_sub_wrapped_wraps_on_underflow_in_every_mode() {
    for ma in MODES {
        for mb in MODES {
            let m = expected_mode(ma, mb);
            let cases: Vec<(Literal, Literal, Literal)> = vec![
                (Literal::I8(ma, i8::MIN), Literal::I8(mb, 1), Literal::I8(m, i8::MAX)),
                (Literal::I16(ma, i16::MIN), Literal::I16(mb, 1), Literal::I16(m, i16::MAX)),
                (Literal::I32(ma, i32::MIN), Literal::I32(mb, 1), Literal::I32(m, i32::MAX)),
                (Literal::I64(ma, i64::MIN), Literal::I64(mb, 1), Literal::I64(m, i64::MAX)),
                (Literal::I128(ma, i128::MIN), Literal::I128(mb, 1), Literal::I128(m, i128::MAX)),
                (Literal::U8(ma, u8::MIN), Literal::U8(mb, 1), Literal::U8(m, u8::MAX)),
                (Literal::U16(ma, u16::MIN), Literal::U16(mb, 1), Literal::U16(m, u16::MAX)),
                (Literal::U32(ma, u32::MIN), Literal::U32(mb, 1), Literal::U32(m, u32::MAX)),
                (Literal::U64(ma, u64::MIN), Literal::U64(mb, 1), Literal::U64(m, u64::MAX)),
                (Literal::U128(ma, u128::MIN), Literal::U128(mb, 1), Literal::U128(m, u128::MAX)),
            ];
            for (a, b, expected) in cases {
                let (r, registers) = run(a, b);
                assert_eq!(r, Ok(()));
                assert_eq!(format!("{:?}", output(&registers)), format!("{:?}", expected));
            }
        }
    }
}

#[test]
fn test_sub_wrapped_wraps_on_overflow() {
    let (r, registers) = run(Literal::I8(Mode::Public, i8::MAX), Literal::I8(Mode::Private, -1));
    assert_eq!(r, Ok(()));
    assert!(matches!(output(&registers), Literal::I8(Mode::Private, v) if *v == i8::MIN));
    let (r, registers) = run(Literal::I64(Mode::Constant, 5), Literal::I64(Mode::Constant, 7));
    assert_eq!(r, Ok(()));
    assert!(matches!(output(&registers), Literal::I64(Mode::Constant, -2)));
    let (r, registers) = run(Literal::U16(Mode::Constant, 3), Literal::U16(Mode::Public, 10));
    assert_eq!(r, Ok(()));
    assert!(matches!(output(&registers), Literal::U16(Mode::Private, 65529)));
}

#[test]
fn test_sub_wrapped_exact_difference() {
    let (r, registers) = run(Literal::U32(Mode::Private, 1000), Literal::U32(Mode::Private, 1));
    assert_eq!(r, Ok(()));
    assert!(matches!(output(&registers), Literal::U32(Mode::Private, 999)));
    let (r, registers) = run(Literal::I128(Mode::Constant, -5), Literal::I128(Mode::Constant, -8));
    assert_eq!(r, Ok(()));
    assert!(matches!(output(&registers), Literal::I128(Mode::Constant, 3)));
}

fn address() -> Address {
    Address { point: Group { x: Field::from_u128(7), y: Field::from_u128(11) } }
}

#[test]
fn test_address_halts() {
    let (r, registers) = run(Literal::Address(Mode::Constant, address()), Literal::Address(Mode::Constant, address()));
    assert_eq!(r, Err(EvalError::InvalidOperands));
    assert!(registers.get(&reg(2)).is_none());
}

#[test]
fn test_boolean_halts() {
    let (r, _) = run(Literal::Boolean(Mode::Constant, true), Literal::Boolean(Mode::Constant, true));
    assert_eq!(r, Err(EvalError::InvalidOperands));
}

#[test]
fn test_string_halts() {
    let (r, _) = run(
        Literal::String(Mode::Constant, b"hello".to_vec()),
        Literal::String(Mode::Constant, b"world".to_vec()),
    );
    assert_eq!(r, Err(EvalError::InvalidOperands));
}

#[test]
fn test_mismatched_integer_types_halt() {
    let (r, _) = run(Literal::U8(Mode::Public, 1), Literal::U16(Mode::Public, 1));
    assert_eq!(r, Err(EvalError::InvalidOperands));
}

#[test]
fn test_composite_is_not_a_literal() {
    let name = Identifier { field: Field::from_u128(0x6d657373616765), size: 56 };
    let mut registers = Registers::new(3);
    registers
        .assign(
            &reg(0),
            Value::Composite(name, vec![Literal::Field(Mode::Private, Field::from_u128(10))]),
        )
        .unwrap();
    registers
        .assign(
            &reg(1),
            Value::Composite(name, vec![Literal::Field(Mode::Private, Field::from_u128(10))]),
        )
        .unwrap();
    assert_eq!(instruction().halt_reason(&registers), Some(EvalError::NotALiteral(name)));
}

#[test]
fn test_register_errors() {
    let mut registers = Registers::new(3);
    registers.assign(&reg(0), Value::Literal(Literal::U8(Mode::Public, 1))).unwrap();
    assert_eq!(instruction().halt_reason(&registers), Some(EvalError::UnassignedRegister(1)));
    let mut small = Registers::new(2);
    small.assign(&reg(0), Value::Literal(Literal::U8(Mode::Public, 1))).unwrap();
    small.assign(&reg(1), Value::Literal(Literal::U8(Mode::Public, 1))).unwrap();
    assert_eq!(instruction().halt_reason(&small), Some(EvalError::UndefinedRegister(2)));
    let mut full = Registers::new(3);
    for i in 0..3 {
        full.assign(&reg(i), Value::Literal(Literal::U8(Mode::Public, 9))).unwrap();
    }
    assert_eq!(instruction().halt_reason(&full), Some(EvalError::AlreadyAssigned(2)));
    assert_eq!(
        full.assign(&reg(2), Value::Literal(Literal::U8(Mode::Public, 1))),
        Err(EvalError::AlreadyAssigned(2))
    );
}

#[test]
fn test_literal_operands() {
    let op = SubWrapped::new(BinaryOperation {
        first: Operand::Literal(Literal::U8(Mode::Constant, 2)),
        second: Operand::Literal(Literal::U8(Mode::Constant, 3)),
        destination: reg(0),
    });
    let mut registers = Registers::new(1);
    assert_eq!(op.halt_reason(&registers), None);
    op.evaluate(&mut registers);
    assert!(matches!(registers.get(&reg(0)), Some(Value::Literal(Literal::U8(Mode::Constant, 255)))));
}

#[test]
fn test_operands_and_destination() {
    let op = instruction();
    let operands = op.operands();
    assert_eq!(operands.len(), 2);
    assert!(matches!(operands[0], Operand::Register(Register { locator: 0 })));
    assert!(matches!(operands[1], Operand::Register(Register { locator: 1 })));
    assert_eq!(*op.destination(), reg(2));
    assert_eq!(SubWrapped::opcode(), "sub.w");
}

#[test]
fn test_output_type() {
    let t = SubWrapped::output_type(&(
        LiteralOrType::Literal(Literal::I32(Mode::Constant, 4)),
        LiteralOrType::Type(LiteralType::I32(Mode::Constant)),
    ));
    assert_eq!(t, LiteralType::I32(Mode::Constant));
    let t = SubWrapped::output_type(&(
        LiteralOrType::Type(LiteralType::U64(Mode::Public)),
        LiteralOrType::Type(LiteralType::U64(Mode::Constant)),
    ));
    assert_eq!(t, LiteralType::U64(Mode::Private));
    let t = SubWrapped::output_type(&(
        LiteralOrType::Type(LiteralType::I128(Mode::Private)),
        LiteralOrType::Literal(Literal::I128(Mode::Public, 9)),
    ));
    assert_eq!(t, LiteralType::I128(Mode::Private));
}

#[test]
fn test_count() {
    assert_eq!(
        SubWrapped::count(&(LiteralType::U8(Mode::Constant), LiteralType::U8(Mode::Constant))),
        Count { constants: 8, public: 0, private: 0, constraints: 0 }
    );
    assert_eq!(
        SubWrapped::count(&(LiteralType::I64(Mode::Public), LiteralType::I64(Mode::Constant))),
        Count { constants: 0, public: 0, private: 65, constraints: 66 }
    );
    assert_eq!(
        SubWrapped::count(&(LiteralType::U128(Mode::Private), LiteralType::U128(Mode::Private))),
        Count { constants: 0, public: 0, private: 129, constraints: 130 }
    );
}

#[test]
fn test_output_type_agrees_with_evaluate() {
    let (r, registers) = run(Literal::I16(Mode::Public, 3), Literal::I16(Mode::Constant, 4));
    assert_eq!(r, Ok(()));
    let out = output(&registers);
    let t = SubWrapped::output_type(&(
        LiteralOrType::Literal(Literal::I16(Mode::Public, 3)),
        LiteralOrType::Literal(Literal::I16(Mode::Constant, 4)),
    ));
    assert_eq!(t, out.type_());
}

//! The `sub.w` instruction: subtraction of two integers of one type,
//! wrapping around at the boundary of the type.
use vstd::prelude::*;
use vstd::arithmetic::power2::{lemma2_to64, lemma_pow2_adds, pow2};
use crate::value::{Identifier, Literal, LiteralOrType, LiteralType, Mode, Value, literal_type, same_literal, spec_type_of};

verus! {

/// A register, named by its locator (`r0`, `r1`, ...).
#[derive(Clone, Copy, Debug, PartialEq, Eq, Structural)]
pub struct Register {
    pub locator: u64,
}

/// An operand of an instruction: a literal, or the register that holds the value.
#[derive(Debug)]
pub enum Operand {
    Literal(Literal),
    Register(Register),
}

/// Two operands are the same operand.
pub open spec fn same_operand(a: Operand, b: Operand) -> bool {
    match (a, b) {
        (Operand::Literal(x), Operand::Literal(y)) => same_literal(x, y),
        (Operand::Register(x), Operand::Register(y)) => x == y,
        _ => false,
    }
}

impl Operand {
    /// Returns a copy of the operand.
    pub fn copy(&self) -> (r: Operand)
        ensures
            same_operand(r, *self),
    {
        match self {
            Operand::Literal(l) => Operand::Literal(l.copy()),
            Operand::Register(reg) => Operand::Register(*reg),
        }
    }
}

/// An operation of two operands whose outcome goes to a destination register.
#[derive(Debug)]
pub struct BinaryOperation {
    pub first: Operand,
    pub second: Operand,
    pub destination: Register,
}

/// Why the instruction halts. The functions that run it leave these inputs out
/// by their preconditions; `SubWrapped::halt_reason` tells them apart first.
#[derive(Clone, Copy, Debug, PartialEq, Eq, Structural)]
pub enum EvalError {
    /// An operand holds the composite value of this name, not a literal.
    NotALiteral(Identifier),
    /// The operands are not two integers of one type.
    InvalidOperands,
    /// The register with this locator does not exist.
    UndefinedRegister(u64),
    /// The register with this locator holds no value yet.
    UnassignedRegister(u64),
    /// The register with this locator already holds a value.
    AlreadyAssigned(u64),
}

/// The registers of a running function: register `i` is defined for `i` below
/// their number, and holds a value once assigned.
#[derive(Debug)]
pub struct Registers {
    values: Vec<Option<Value>>,
}

impl View for Registers {
    type V = Seq<Option<Value>>;

    closed spec fn view(&self) -> Seq<Option<Value>> {
        self.values@
    }
}

/// The literal that an operand denotes in the given registers.
pub open spec fn spec_load_literal(regs: Seq<Option<Value>>, operand: Operand) -> Result<Literal, EvalError> {
    match operand {
        Operand::Literal(l) => Ok(l),
        Operand::Register(r) => {
            if r.locator < regs.len() {
                match regs[r.locator as int] {
                    Some(Value::Literal(l)) => Ok(l),
                    Some(Value::Composite(name, _)) => Err(EvalError::NotALiteral(name)),
                    None => Err(EvalError::UnassignedRegister(r.locator)),
                }
            } else {
                Err(EvalError::UndefinedRegister(r.locator))
            }
        },
    }
}

/// The registers after `value` is assigned to `register`.
pub open spec fn spec_assign(regs: Seq<Option<Value>>, register: Register, value: Value) -> Result<Seq<Option<Value>>, EvalError> {
    if register.locator >= regs.len() {
        Err(EvalError::UndefinedRegister(register.locator))
    } else if regs[register.locator as int] is Some {
        Err(EvalError::AlreadyAssigned(register.locator))
    } else {
        Ok(regs.update(register.locator as int, Some(value)))
    }
}

impl Registers {
    /// `n` defined registers, none assigned.
    pub fn new(n: usize) -> (r: Registers)
        ensures
            r@ == Seq::<Option<Value>>::new(n as nat, |i: int| None::<Value>),
    {
        let mut values: Vec<Option<Value>> = Vec::new();
        for i in 0..n
            invariant
                values@ == Seq::<Option<Value>>::new(i as nat, |j: int| None::<Value>),
        {
            values.push(None);
            assert(values@ =~= Seq::<Option<Value>>::new((i + 1) as nat, |j: int| None::<Value>));
        }
        Registers { values }
    }

    /// The value that `register` holds, if it is defined and assigned.
    pub fn get(&self, register: &Register) -> (r: Option<&Value>)
        ensures
            r matches Some(v) ==> register.locator < self@.len() && self@[register.locator as int] == Some(*v),
            r is None ==> register.locator >= self@.len() || self@[register.locator as int] is None,
    {
        if register.locator < self.values.len() as u64 {
            match &self.values[register.locator as usize] {
                Some(v) => Some(v),
                None => None,
            }
        } else {
            None
        }
    }

    /// The literal that `operand` denotes: the literal itself, or the literal held
    /// in the register.
    pub fn load_literal<'a>(&'a self, operand: &'a Operand) -> (r: Result<&'a Literal, EvalError>)
        ensures
            match spec_load_literal(self@, *operand) {
                Ok(l) => r matches Ok(x) && *x == l,
                Err(e) => r == Err::<&Literal, EvalError>(e),
            },
    {
        match operand {
            Operand::Literal(l) => Ok(l),
            Operand::Register(reg) => {
                if reg.locator < self.values.len() as u64 {
                    match &self.values[reg.locator as usize] {
                        Some(Value::Literal(l)) => Ok(l),
                        Some(Value::Composite(name, _)) => Err(EvalError::NotALiteral(*name)),
                        None => Err(EvalError::UnassignedRegister(reg.locator)),
                    }
                } else {
                    Err(EvalError::UndefinedRegister(reg.locator))
                }
            },
        }
    }

    /// Whether `register` can take a value: it is defined and not yet assigned.
    pub fn assignable(&self, register: &Register) -> (r: Result<(), EvalError>)
        ensures
            r matches Ok(_) ==> register.locator < self@.len() && self@[register.locator as int] is None,
            r matches Err(e) ==> (if register.locator >= self@.len() {
                e == EvalError::UndefinedRegister(register.locator)
            } else {
                self@[register.locator as int] is Some && e == EvalError::AlreadyAssigned(register.locator)
            }),
    {
        if register.locator >= self.values.len() as u64 {
            return Err(EvalError::UndefinedRegister(register.locator));
        }
        if self.values[register.locator as usize].is_some() {
            return Err(EvalError::AlreadyAssigned(register.locator));
        }
        Ok(())
    }

    /// Assigns `value` to `register`, which must be defined and not yet assigned.
    pub fn assign(&mut self, register: &Register, value: Value) -> (r: Result<(), EvalError>)
        ensures
            match spec_assign(old(self)@, *register, value) {
                Ok(s) => r is Ok && final(self)@ == s,
                Err(e) => r == Err::<(), EvalError>(e) && final(self)@ == old(self)@,
            },
    {
        if register.locator >= self.values.len() as u64 {
            return Err(EvalError::UndefinedRegister(register.locator));
        }
        let i = register.locator as usize;
        if self.values[i].is_some() {
            return Err(EvalError::AlreadyAssigned(register.locator));
        }
        self.values.set(i, Some(value));
        Ok(())
    }
}

/// The cost of a circuit: its numbers of constants, public and private
/// variables, and constraints.
#[derive(Clone, Copy, Debug, PartialEq, Eq, Structural)]
pub struct Count {
    pub constants: u64,
    pub public: u64,
    pub private: u64,
    pub constraints: u64,
}

/// `v` brought into the range `[min, min + range)` of an integer type, modulo `range`.
pub open spec fn wrapped(v: int, min: int, range: int) -> int {
    (v - min) % range + min
}

/// The mode of a wrapping difference: constant when both operands are constant,
/// else private. This is the mode that the integer circuits give their
/// wrapping difference; those circuits are not part of this library, and the
/// rule is written here as they define it.
pub open spec fn sub_wrapped_mode(a: Mode, b: Mode) -> Mode {
    if a == Mode::Constant && b == Mode::Constant {
        Mode::Constant
    } else {
        Mode::Private
    }
}

/// The wrapping difference `a - b` of two literals, where they are integers of
/// one type.
pub open spec fn spec_sub_wrapped(a: Literal, b: Literal) -> Option<Literal> {
    match (a, b) {
        (Literal::I8(ma, x), Literal::I8(mb, y)) => Some(
            Literal::I8(sub_wrapped_mode(ma, mb), wrapped(x - y, i8::MIN as int, 0x100) as i8),
        ),
        (Literal::I16(ma, x), Literal::I16(mb, y)) => Some(
            Literal::I16(sub_wrapped_mode(ma, mb), wrapped(x - y, i16::MIN as int, 0x1_0000) as i16),
        ),
        (Literal::I32(ma, x), Literal::I32(mb, y)) => Some(
            Literal::I32(
                sub_wrapped_mode(ma, mb),
                wrapped(x - y, i32::MIN as int, 0x1_0000_0000) as i32,
            ),
        ),
        (Literal::I64(ma, x), Literal::I64(mb, y)) => Some(
            Literal::I64(
                sub_wrapped_mode(ma, mb),
                wrapped(x - y, i64::MIN as int, 0x1_0000_0000_0000_0000int) as i64,
            ),
        ),
        (Literal::I128(ma, x), Literal::I128(mb, y)) => Some(
            Literal::I128(
                sub_wrapped_mode(ma, mb),
                wrapped(x - y, i128::MIN as int, 0x1_0000_0000_0000_0000_0000_0000_0000_0000int) as i128,
            ),
        ),
        (Literal::U8(ma, x), Literal::U8(mb, y)) => Some(
            Literal::U8(sub_wrapped_mode(ma, mb), wrapped(x - y, 0, 0x100) as u8),
        ),
        (Literal::U16(ma, x), Literal::U16(mb, y)) => Some(
            Literal::U16(sub_wrapped_mode(ma, mb), wrapped(x - y, 0, 0x1_0000) as u16),
        ),
        (Literal::U32(ma, x), Literal::U32(mb, y)) => Some(
            Literal::U32(sub_wrapped_mode(ma, mb), wrapped(x - y, 0, 0x1_0000_0000) as u32),
        ),
        (Literal::U64(ma, x), Literal::U64(mb, y)) => Some(
            Literal::U64(
                sub_wrapped_mode(ma, mb),
                wrapped(x - y, 0, 0x1_0000_0000_0000_0000int) as u64,
            ),
        ),
        (Literal::U128(ma, x), Literal::U128(mb, y)) => Some(
            Literal::U128(
                sub_wrapped_mode(ma, mb),
                wrapped(x - y, 0, 0x1_0000_0000_0000_0000_0000_0000_0000_0000int) as u128,
            ),
        ),
        _ => None,
    }
}

/// The registers after `sub.w` runs in them, or why it halts.
pub open spec fn spec_evaluate(op: BinaryOperation, regs: Seq<Option<Value>>) -> Result<Seq<Option<Value>>, EvalError> {
    match spec_load_literal(regs, op.first) {
        Err(e) => Err(e),
        Ok(a) => match spec_load_literal(regs, op.second) {
            Err(e) => Err(e),
            Ok(b) => match spec_sub_wrapped(a, b) {
                None => Err(EvalError::InvalidOperands),
                Some(r) => spec_assign(regs, op.destination, Value::Literal(r)),
            },
        },
    }
}

/// The type of the outcome of `sub.w` on operands of the given types.
pub open spec fn spec_output_type(a: LiteralType, b: LiteralType) -> Option<LiteralType> {
    match (a, b) {
        (LiteralType::I8(ma), LiteralType::I8(mb)) => Some(LiteralType::I8(sub_wrapped_mode(ma, mb))),
        (LiteralType::I16(ma), LiteralType::I16(mb)) => Some(LiteralType::I16(sub_wrapped_mode(ma, mb))),
        (LiteralType::I32(ma), LiteralType::I32(mb)) => Some(LiteralType::I32(sub_wrapped_mode(ma, mb))),
        (LiteralType::I64(ma), LiteralType::I64(mb)) => Some(LiteralType::I64(sub_wrapped_mode(ma, mb))),
        (LiteralType::I128(ma), LiteralType::I128(mb)) => Some(LiteralType::I128(sub_wrapped_mode(ma, mb))),
        (LiteralType::U8(ma), LiteralType::U8(mb)) => Some(LiteralType::U8(sub_wrapped_mode(ma, mb))),
        (LiteralType::U16(ma), LiteralType::U16(mb)) => Some(LiteralType::U16(sub_wrapped_mode(ma, mb))),
        (LiteralType::U32(ma), LiteralType::U32(mb)) => Some(LiteralType::U32(sub_wrapped_mode(ma, mb))),
        (LiteralType::U64(ma), LiteralType::U64(mb)) => Some(LiteralType::U64(sub_wrapped_mode(ma, mb))),
        (LiteralType::U128(ma), LiteralType::U128(mb)) => Some(LiteralType::U128(sub_wrapped_mode(ma, mb))),
        _ => None,
    }
}

/// The cost of the wrapping difference of two integers of `bits` bits: a
/// constant of each bit when both are constant, else a private bit
/// decomposition with its carry (`bits + 1` private variables, `bits + 2`
/// constraints). These are the figures of the integer circuits' wrapping
/// difference; those circuits are not part of this library, and the figures
/// are written here as they define them.
pub open spec fn integer_count(bits: u64, a: Mode, b: Mode) -> Count {
    if a == Mode::Constant && b == Mode::Constant {
        Count { constants: bits, public: 0, private: 0, constraints: 0 }
    } else {
        Count { constants: 0, public: 0, private: (bits + 1) as u64, constraints: (bits + 2) as u64 }
    }
}

/// The cost of `sub.w` on operands of the given types.
pub open spec fn spec_count(a: LiteralType, b: LiteralType) -> Option<Count> {
    match (a, b) {
        (LiteralType::I8(ma), LiteralType::I8(mb)) => Some(integer_count(8, ma, mb)),
        (LiteralType::I16(ma), LiteralType::I16(mb)) => Some(integer_count(16, ma, mb)),
        (LiteralType::I32(ma), LiteralType::I32(mb)) => Some(integer_count(32, ma, mb)),
        (LiteralType::I64(ma), LiteralType::I64(mb)) => Some(integer_count(64, ma, mb)),
        (LiteralType::I128(ma), LiteralType::I128(mb)) => Some(integer_count(128, ma, mb)),
        (LiteralType::U8(ma), LiteralType::U8(mb)) => Some(integer_count(8, ma, mb)),
        (LiteralType::U16(ma), LiteralType::U16(mb)) => Some(integer_count(16, ma, mb)),
        (LiteralType::U32(ma), LiteralType::U32(mb)) => Some(integer_count(32, ma, mb)),
        (LiteralType::U64(ma), LiteralType::U64(mb)) => Some(integer_count(64, ma, mb)),
        (LiteralType::U128(ma), LiteralType::U128(mb)) => Some(integer_count(128, ma, mb)),
        _ => None,
    }
}

fn output_mode(a: Mode, b: Mode) -> (r: Mode)
    ensures
        r == sub_wrapped_mode(a, b),
{
    match (a, b) {
        (Mode::Constant, Mode::Constant) => Mode::Constant,
        _ => Mode::Private,
    }
}

fn count_integer(bits: u64, a: Mode, b: Mode) -> (r: Count)
    requires
        bits <= 128,
    ensures
        r == integer_count(bits, a, b),
{
    match (a, b) {
        (Mode::Constant, Mode::Constant) => Count { constants: bits, public: 0, private: 0, constraints: 0 },
        _ => Count { constants: 0, public: 0, private: bits + 1, constraints: bits + 2 },
    }
}

/// `w % range` for `w` in `[-range, 2 * range)`.
proof fn lemma_wrap(w: int, range: int)
    requires
        range > 0,
        -range <= w < 2 * range,
    ensures
        w % range == (if w < 0 {
            w + range
        } else if w >= range {
            w - range
        } else {
            w
        }),
{
    if w < 0 {
        vstd::arithmetic::div_mod::lemma_mod_add_multiples_vanish(w, range);
        vstd::arithmetic::div_mod::lemma_small_mod((w + range) as nat, range as nat);
    } else if w >= range {
        vstd::arithmetic::div_mod::lemma_mod_sub_multiples_vanish(w, range);
        vstd::arithmetic::div_mod::lemma_small_mod((w - range) as nat, range as nat);
    } else {
        vstd::arithmetic::div_mod::lemma_small_mod(w as nat, range as nat);
    }
}

/// The wrapping difference of two literals, where they are integers of one type.
fn sub_wrapped_literal(a: &Literal, b: &Literal) -> (r: Option<Literal>)
    ensures
        r == spec_sub_wrapped(*a, *b),
{
    match (a, b) {
        (Literal::I8(ma, x), Literal::I8(mb, y)) => {
            proof { lemma_wrap(*x - *y - i8::MIN, 0x100); }
            Some(Literal::I8(output_mode(*ma, *mb), x.wrapping_sub(*y)))
        },
        (Literal::I16(ma, x), Literal::I16(mb, y)) => {
            proof { lemma_wrap(*x - *y - i16::MIN, 0x1_0000); }
            Some(Literal::I16(output_mode(*ma, *mb), x.wrapping_sub(*y)))
        },
        (Literal::I32(ma, x), Literal::I32(mb, y)) => {
            proof { lemma_wrap(*x - *y - i32::MIN, 0x1_0000_0000); }
            Some(Literal::I32(output_mode(*ma, *mb), x.wrapping_sub(*y)))
        },
        (Literal::I64(ma, x), Literal::I64(mb, y)) => {
            proof { lemma_wrap(*x - *y - i64::MIN, 0x1_0000_0000_0000_0000int); }
            Some(Literal::I64(output_mode(*ma, *mb), x.wrapping_sub(*y)))
        },
        (Literal::I128(ma, x), Literal::I128(mb, y)) => {
            proof { lemma_wrap(*x - *y - i128::MIN, 0x1_0000_0000_0000_0000_0000_0000_0000_0000int); }
            Some(Literal::I128(output_mode(*ma, *mb), x.wrapping_sub(*y)))
        },
        (Literal::U8(ma, x), Literal::U8(mb, y)) => {
            proof { lemma_wrap(*x - *y, 0x100); }
            Some(Literal::U8(output_mode(*ma, *mb), x.wrapping_sub(*y)))
        },
        (Literal::U16(ma, x), Literal::U16(mb, y)) => {
            proof { lemma_wrap(*x - *y, 0x1_0000); }
            Some(Literal::U16(output_mode(*ma, *mb), x.wrapping_sub(*y)))
        },
        (Literal::U32(ma, x), Literal::U32(mb, y)) => {
            proof { lemma_wrap(*x - *y, 0x1_0000_0000); }
            Some(Literal::U32(output_mode(*ma, *mb), x.wrapping_sub(*y)))
        },
        (Literal::U64(ma, x), Literal::U64(mb, y)) => {
            proof { lemma_wrap(*x - *y, 0x1_0000_0000_0000_0000int); }
            Some(Literal::U64(output_mode(*ma, *mb), x.wrapping_sub(*y)))
        },
        (Literal::U128(ma, x), Literal::U128(mb, y)) => {
            proof { lemma_wrap(*x - *y, 0x1_0000_0000_0000_0000_0000_0000_0000_0000int); }
            Some(Literal::U128(output_mode(*ma, *mb), x.wrapping_sub(*y)))
        },
        _ => None,
    }
}

/// The value of an integer literal (zero for other literals).
pub open spec fn int_value(l: Literal) -> int {
    match l {
        Literal::I8(_, x) => x as int,
        Literal::I16(_, x) => x as int,
        Literal::I32(_, x) => x as int,
        Literal::I64(_, x) => x as int,
        Literal::I128(_, x) => x as int,
        Literal::U8(_, x) => x as int,
        Literal::U16(_, x) => x as int,
        Literal::U32(_, x) => x as int,
        Literal::U64(_, x) => x as int,
        Literal::U128(_, x) => x as int,
        _ => 0,
    }
}

/// The least value and the number of values of an integer literal's type
/// (`(0, 0)` for other literals).
pub open spec fn int_range(l: Literal) -> (int, int) {
    match l {
        Literal::I8(..) => (i8::MIN as int, 0x100int),
        Literal::I16(..) => (i16::MIN as int, 0x1_0000int),
        Literal::I32(..) => (i32::MIN as int, 0x1_0000_0000int),
        Literal::I64(..) => (i64::MIN as int, 0x1_0000_0000_0000_0000int),
        Literal::I128(..) => (i128::MIN as int, 0x1_0000_0000_0000_0000_0000_0000_0000_0000int),
        Literal::U8(..) => (0, 0x100int),
        Literal::U16(..) => (0, 0x1_0000int),
        Literal::U32(..) => (0, 0x1_0000_0000int),
        Literal::U64(..) => (0, 0x1_0000_0000_0000_0000int),
        Literal::U128(..) => (0, 0x1_0000_0000_0000_0000_0000_0000_0000_0000int),
        _ => (0, 0),
    }
}

/// The type that `output_type` gives for two literals is the type of the
/// literal that `sub.w` computes from them, and `output_type` refuses exactly
/// the pairs that `sub.w` refuses.
pub proof fn lemma_output_type_is_type_of_outcome(a: Literal, b: Literal)
    ensures
        match spec_sub_wrapped(a, b) {
            Some(r) => spec_output_type(literal_type(a), literal_type(b)) == Some(literal_type(r)),
            None => spec_output_type(literal_type(a), literal_type(b)) is None,
        },
{
}

/// The cost is defined exactly for the pairs of types that have an output type.
pub proof fn lemma_count_defined_iff_output_type(a: LiteralType, b: LiteralType)
    ensures
        spec_count(a, b) is Some <==> spec_output_type(a, b) is Some,
{
}

/// An operand loads to a literal the same way whatever its form: a literal
/// operand is itself, a register operand is the literal that the register holds.
pub proof fn lemma_load_literal_forms(regs: Seq<Option<Value>>, operand: Operand)
    ensures
        operand matches Operand::Literal(l) ==> spec_load_literal(regs, operand) == Ok::<Literal, EvalError>(l),
        forall|x: Register, l: Literal|
            operand == Operand::Register(x) && x.locator < regs.len() && regs[x.locator as int] == Some(
                Value::Literal(l),
            ) ==> spec_load_literal(regs, operand) == Ok::<Literal, EvalError>(l),
{
}

/// `sub.w` runs whenever both operands load to integers of one type and the
/// destination is defined and unassigned, whatever the form (literal or
/// register) of each operand: the destination then takes the wrapping
/// difference, and nothing else changes.
pub proof fn lemma_evaluate_runs(op: BinaryOperation, regs: Seq<Option<Value>>, a: Literal, b: Literal)
    requires
        spec_load_literal(regs, op.first) == Ok::<Literal, EvalError>(a),
        spec_load_literal(regs, op.second) == Ok::<Literal, EvalError>(b),
        spec_sub_wrapped(a, b) is Some,
        op.destination.locator < regs.len(),
        regs[op.destination.locator as int] is None,
    ensures
        spec_evaluate(op, regs) == Ok::<Seq<Option<Value>>, EvalError>(
            regs.update(op.destination.locator as int, Some(Value::Literal(spec_sub_wrapped(a, b)->0))),
        ),
{
}

/// Two instructions whose operands load to the same literals, and which write to
/// the same register, evaluate alike: the form of the operands does not matter.
pub proof fn lemma_evaluate_depends_on_loaded_values(op1: BinaryOperation, op2: BinaryOperation, regs: Seq<Option<Value>>)
    requires
        spec_load_literal(regs, op1.first) == spec_load_literal(regs, op2.first),
        spec_load_literal(regs, op1.second) == spec_load_literal(regs, op2.second),
        op1.destination == op2.destination,
    ensures
        spec_evaluate(op1, regs) == spec_evaluate(op2, regs),
{
}

/// The number of values of an integer type (zero for the other types).
pub open spec fn type_value_count(t: LiteralType) -> int {
    match t {
        LiteralType::I8(_) => i8::MAX - i8::MIN + 1,
        LiteralType::I16(_) => i16::MAX - i16::MIN + 1,
        LiteralType::I32(_) => i32::MAX - i32::MIN + 1,
        LiteralType::I64(_) => i64::MAX - i64::MIN + 1,
        LiteralType::I128(_) => i128::MAX - i128::MIN + 1,
        LiteralType::U8(_) => u8::MAX + 1,
        LiteralType::U16(_) => u16::MAX + 1,
        LiteralType::U32(_) => u32::MAX + 1,
        LiteralType::U64(_) => u64::MAX + 1,
        LiteralType::U128(_) => u128::MAX + 1,
        _ => 0,
    }
}

/// The mode of a literal type.
pub open spec fn type_mode(t: LiteralType) -> Mode {
    match t {
        LiteralType::Address(m) => m,
        LiteralType::Boolean(m) => m,
        LiteralType::Field(m) => m,
        LiteralType::Group(m) => m,
        LiteralType::I8(m) => m,
        LiteralType::I16(m) => m,
        LiteralType::I32(m) => m,
        LiteralType::I64(m) => m,
        LiteralType::I128(m) => m,
        LiteralType::U8(m) => m,
        LiteralType::U16(m) => m,
        LiteralType::U32(m) => m,
        LiteralType::U64(m) => m,
        LiteralType::U128(m) => m,
        LiteralType::Scalar(m) => m,
        LiteralType::String(m) => m,
    }
}

/// The cost follows the width of the operands' type: with `n` values of the
/// type (`n = 2^bits`), two constants cost `bits` constants and nothing else;
/// otherwise the cost is `bits + 1` private variables and `bits + 2`
/// constraints, and no constant or public variable.
pub proof fn lemma_count_follows_width(a: LiteralType, b: LiteralType)
    ensures
        spec_count(a, b) matches Some(c) ==> {
            &&& type_value_count(a) > 0
            &&& type_value_count(b) == type_value_count(a)
            &&& if type_mode(a) == Mode::Constant && type_mode(b) == Mode::Constant {
                &&& pow2(c.constants as nat) == type_value_count(a)
                &&& c.public == 0 && c.private == 0 && c.constraints == 0
            } else {
                &&& c.constants == 0 && c.public == 0
                &&& c.private >= 1
                &&& pow2((c.private - 1) as nat) == type_value_count(a)
                &&& c.constraints == c.private + 1
            }
        },
{
    lemma2_to64();
    lemma_pow2_adds(64, 64);
    assert(0x10000000000000000nat * 0x10000000000000000nat == 0x100000000000000000000000000000000nat)
        by (nonlinear_arith);
}

/// The wrapping difference has the operands' type, lies in that type's range,
/// differs from `a - b` by a multiple of the number of values of the type, and
/// equals `a - b` when `a - b` lies in the range.
pub proof fn lemma_sub_wrapped_is_difference_modulo(a: Literal, b: Literal)
    ensures
        spec_sub_wrapped(a, b) matches Some(r) ==> {
            let (min, range) = int_range(a);
            let d = int_value(a) - int_value(b);
            &&& int_range(r) == int_range(a)
            &&& min <= int_value(r) < min + range
            &&& (d - int_value(r)) % range == 0
            &&& (min <= d < min + range ==> int_value(r) == d)
        },
{
    if let Some(r) = spec_sub_wrapped(a, b) {
        let (min, range) = int_range(a);
        let d = int_value(a) - int_value(b);
        lemma_wrap(d - min, range);
        if d - min < 0 {
            vstd::arithmetic::div_mod::lemma_mod_self_0(range);
            assert((d - int_value(r)) == -range);
            vstd::arithmetic::div_mod::lemma_mod_multiples_basic(-1, range);
        } else if d - min >= range {
            assert((d - int_value(r)) == range);
            vstd::arithmetic::div_mod::lemma_mod_self_0(range);
        } else {
            assert(d - int_value(r) == 0);
        }
    }
}

/// When `sub.w` runs to its end, the destination holds the wrapping difference
/// of the two loaded literals, of the type that `output_type` gives for them,
/// and every other register is as it was.
pub proof fn lemma_evaluate_assigns_only_destination(op: BinaryOperation, regs: Seq<Option<Value>>)
    ensures
        spec_evaluate(op, regs) matches Ok(s) ==> {
            let a = spec_load_literal(regs, op.first)->Ok_0;
            let b = spec_load_literal(regs, op.second)->Ok_0;
            let d = op.destination.locator as int;
            &&& spec_load_literal(regs, op.first) is Ok
            &&& spec_load_literal(regs, op.second) is Ok
            &&& s.len() == regs.len()
            &&& 0 <= d < regs.len()
            &&& regs[d] is None
            &&& spec_sub_wrapped(a, b) matches Some(r) && s[d] == Some(Value::Literal(r))
                && spec_output_type(literal_type(a), literal_type(b)) == Some(literal_type(r))
            &&& forall|i: int| 0 <= i < regs.len() && i != d ==> s[i] == regs[i]
        },
{
    if let Ok(a) = spec_load_literal(regs, op.first) {
        if let Ok(b) = spec_load_literal(regs, op.second) {
            lemma_output_type_is_type_of_outcome(a, b);
        }
    }
}

/// Subtracts `second` from `first`, wrapping around at the boundary of the
/// type, and stores the outcome in `destination`.
#[derive(Debug)]
pub struct SubWrapped {
    pub operation: BinaryOperation,
}

impl SubWrapped {
    /// The instruction for the given operation.
    pub fn new(operation: BinaryOperation) -> (r: SubWrapped)
        ensures
            r.operation == operation,
    {
        SubWrapped { operation }
    }

    /// Returns the opcode of the instruction.
    pub fn opcode() -> (r: &'static str)
        ensures
            r@ == "sub.w"@,
    {
        "sub.w"
    }

    /// Returns the operands of the instruction.
    pub fn operands(&self) -> (r: Vec<Operand>)
        ensures
            r.len() == 2,
            same_operand(r[0], self.operation.first),
            same_operand(r[1], self.operation.second),
    {
        let mut r: Vec<Operand> = Vec::new();
        r.push(self.operation.first.copy());
        r.push(self.operation.second.copy());
        r
    }

    /// Returns the destination register of the instruction.
    pub fn destination(&self) -> (r: &Register)
        ensures
            *r == self.operation.destination,
    {
        &self.operation.destination
    }

    /// Why the instruction halts in the given registers: an operand that is not
    /// a literal, operands that are not two integers of one type, or a register
    /// that cannot be read or assigned; `None` where it runs.
    pub fn halt_reason(&self, registers: &Registers) -> (r: Option<EvalError>)
        ensures
            match spec_evaluate(self.operation, registers@) {
                Ok(_) => r is None,
                Err(e) => r == Some(e),
            },
    {
        let first = match registers.load_literal(&self.operation.first) {
            Ok(l) => l,
            Err(e) => return Some(e),
        };
        let second = match registers.load_literal(&self.operation.second) {
            Ok(l) => l,
            Err(e) => return Some(e),
        };
        match sub_wrapped_literal(first, second) {
            Some(_) => {},
            None => return Some(EvalError::InvalidOperands),
        }
        match registers.assignable(&self.operation.destination) {
            Ok(()) => None,
            Err(e) => Some(e),
        }
    }

    /// Evaluates the instruction: loads both operands, and assigns their wrapping
    /// difference to the destination register. The instruction halts where
    /// `halt_reason` gives a reason; those registers are left out.
    pub fn evaluate(&self, registers: &mut Registers)
        requires
            spec_evaluate(self.operation, old(registers)@) is Ok,
        ensures
            spec_evaluate(self.operation, old(registers)@) == Ok::<Seq<Option<Value>>, EvalError>(
                final(registers)@,
            ),
    {
        let result = {
            let first = match registers.load_literal(&self.operation.first) {
                Ok(l) => l,
                Err(_) => return,
            };
            let second = match registers.load_literal(&self.operation.second) {
                Ok(l) => l,
                Err(_) => return,
            };
            match sub_wrapped_literal(first, second) {
                Some(v) => v,
                None => return,
            }
        };
        let _ = registers.assign(&self.operation.destination, Value::Literal(result));
    }

    /// The type of the outcome for operands of the given literals or types.
    /// The instruction halts on operands that are not two integers of one type;
    /// those are left out.
    pub fn output_type(case: &(LiteralOrType, LiteralOrType)) -> (r: LiteralType)
        requires
            spec_output_type(spec_type_of(case.0), spec_type_of(case.1)) is Some,
        ensures
            spec_output_type(spec_type_of(case.0), spec_type_of(case.1)) == Some(r),
    {
        match (case.0.type_(), case.1.type_()) {
            (LiteralType::I8(ma), LiteralType::I8(mb)) => LiteralType::I8(output_mode(ma, mb)),
            (LiteralType::I16(ma), LiteralType::I16(mb)) => LiteralType::I16(output_mode(ma, mb)),
            (LiteralType::I32(ma), LiteralType::I32(mb)) => LiteralType::I32(output_mode(ma, mb)),
            (LiteralType::I64(ma), LiteralType::I64(mb)) => LiteralType::I64(output_mode(ma, mb)),
            (LiteralType::I128(ma), LiteralType::I128(mb)) => LiteralType::I128(output_mode(ma, mb)),
            (LiteralType::U8(ma), LiteralType::U8(mb)) => LiteralType::U8(output_mode(ma, mb)),
            (LiteralType::U16(ma), LiteralType::U16(mb)) => LiteralType::U16(output_mode(ma, mb)),
            (LiteralType::U32(ma), LiteralType::U32(mb)) => LiteralType::U32(output_mode(ma, mb)),
            (LiteralType::U64(ma), LiteralType::U64(mb)) => LiteralType::U64(output_mode(ma, mb)),
            (LiteralType::U128(ma), LiteralType::U128(mb)) => LiteralType::U128(output_mode(ma, mb)),
            _ => {
                proof {
                    assert(false);
                }
                LiteralType::Boolean(Mode::Constant)
            },
        }
    }

    /// The cost of the instruction's circuit for operands of the given types.
    /// The instruction halts on operands that are not two integers of one type;
    /// those are left out.
    pub fn count(case: &(LiteralType, LiteralType)) -> (r: Count)
        requires
            spec_count(case.0, case.1) is Some,
        ensures
            spec_count(case.0, case.1) == Some(r),
    {
        match *case {
            (LiteralType::I8(ma), LiteralType::I8(mb)) => count_integer(8, ma, mb),
            (LiteralType::I16(ma), LiteralType::I16(mb)) => count_integer(16, ma, mb),
            (LiteralType::I32(ma), LiteralType::I32(mb)) => count_integer(32, ma, mb),
            (LiteralType::I64(ma), LiteralType::I64(mb)) => count_integer(64, ma, mb),
            (LiteralType::I128(ma), LiteralType::I128(mb)) => count_integer(128, ma, mb),
            (LiteralType::U8(ma), LiteralType::U8(mb)) => count_integer(8, ma, mb),
            (LiteralType::U16(ma), LiteralType::U16(mb)) => count_integer(16, ma, mb),
            (LiteralType::U32(ma), LiteralType::U32(mb)) => count_integer(32, ma, mb),
            (LiteralType::U64(ma), LiteralType::U64(mb)) => count_integer(64, ma, mb),
            (LiteralType::U128(ma), LiteralType::U128(mb)) => count_integer(128, ma, mb),
            _ => {
                proof {
                    assert(false);
                }
                Count { constants: 0, public: 0, private: 0, constraints: 0 }
            },
        }
    }
}

} // verus!

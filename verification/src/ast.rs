//! The typed, monomorphic program representation that the circuit generator
//! consumes: every type variable has been resolved away, so each node
//! carries a concrete `Type`.

use vstd::prelude::*;

verus! {

/// Whether an integer type is signed.
#[derive(Debug, Copy, Clone, PartialEq, Eq, Hash, Structural)]
pub enum Signedness {
    Unsigned,
    Signed,
}

/// A prefix operator.
#[derive(Debug, Copy, Clone, PartialEq, Eq, Hash, Structural)]
pub enum UnaryOp {
    Minus,
    Not,
}

/// An infix operator.
#[derive(Debug, Copy, Clone, PartialEq, Eq, Hash, Structural)]
pub enum BinaryOpKind {
    Add,
    Subtract,
    Multiply,
    Divide,
    Equal,
    NotEqual,
    Less,
    LessEqual,
    Greater,
    GreaterEqual,
    And,
    Or,
    Xor,
    ShiftLeft,
    ShiftRight,
    Modulo,
}

pub type BinaryOp = BinaryOpKind;

/// A source position: a span of byte offsets within a numbered input file.
#[derive(Debug, Copy, Clone, PartialEq, Eq, Hash, Structural)]
pub struct Location {
    pub span_start: u32,
    pub span_end: u32,
    pub file: u32,
}

/// The numeric value of an integer literal.
#[derive(Debug, Copy, Clone, PartialEq, Eq, Hash, Structural)]
pub struct FieldElement {
    pub value: u128,
}

#[derive(Debug)]
pub enum Expression {
    Ident(Ident),
    Literal(Literal),
    Block(Vec<Expression>),
    Unary(Unary),
    Binary(Binary),
    Index(Index),
    Cast(Cast),
    For(For),
    If(If),
    Tuple(Vec<Expression>),
    ExtractTupleField(Box<Expression>, usize),
    Call(Call),
    Let(Let),
    Constrain(Box<Expression>, Location),
    Assign(Assign),
    Semi(Box<Expression>),
}

#[derive(Debug, Clone, PartialEq, Eq, Hash)]
pub enum Definition {
    Local(LocalId),
    Function(FuncId),
    Builtin(String),
    LowLevel(String),
}

/// ID of a local definition, e.g. from a let binding or
/// function parameter that should be compiled before it is referenced.
#[derive(Debug, Copy, Clone, PartialEq, Eq, Hash, Structural)]
pub struct LocalId(pub u32);

#[derive(Debug, Copy, Clone, PartialEq, Eq, Hash, Structural)]
pub struct FuncId(pub u32);

#[derive(Debug)]
pub struct Ident {
    pub location: Option<Location>,
    pub definition: Definition,
    pub name: String,
    pub typ: Type,
}

#[derive(Debug)]
pub struct For {
    pub index_variable: LocalId,
    pub index_name: String,
    pub index_type: Type,
    pub start_range: Box<Expression>,
    pub end_range: Box<Expression>,
    pub block: Box<Expression>,
}

#[derive(Debug)]
pub enum Literal {
    Array(ArrayLiteral),
    Integer(FieldElement, Type),
    Bool(bool),
    Str(String),
}

#[derive(Debug)]
pub struct Unary {
    pub operator: UnaryOp,
    pub rhs: Box<Expression>,
}

#[derive(Debug)]
pub struct Binary {
    pub lhs: Box<Expression>,
    pub operator: BinaryOp,
    pub rhs: Box<Expression>,
}

#[derive(Debug)]
pub struct If {
    pub condition: Box<Expression>,
    pub consequence: Box<Expression>,
    pub alternative: Option<Box<Expression>>,
}

#[derive(Debug)]
pub struct Cast {
    pub lhs: Box<Expression>,
    pub target_type: Type,
}

#[derive(Debug)]
pub struct ArrayLiteral {
    pub length: u128,
    pub contents: Vec<Expression>,
    pub element_type: Type,
}

#[derive(Debug)]
pub struct Call {
    pub func: Box<Expression>,
    pub arguments: Vec<Expression>,
    pub typ: Type,
}

#[derive(Debug)]
pub struct Index {
    pub collection: Box<Expression>,
    pub index: Box<Expression>,
}

#[derive(Debug)]
pub struct Let {
    pub id: LocalId,
    pub name: String,
    pub expression: Box<Expression>,
}

#[derive(Debug)]
pub struct Assign {
    pub lvalue: LValue,
    pub expression: Box<Expression>,
}

#[derive(Debug)]
pub struct BinaryStatement {
    pub lhs: Box<Expression>,
    pub r_type: Type,
    pub expression: Box<Expression>,
}

/// Represents an Ast form that can be assigned to
#[derive(Debug)]
pub enum LValue {
    Ident(Ident),
    Index { array: Box<LValue>, index: Box<Expression> },
    MemberAccess { object: Box<LValue>, field_index: usize },
}

#[derive(Debug)]
pub struct Function {
    pub id: FuncId,
    pub name: String,
    pub parameters: Vec<(LocalId, Type, String)>,
    pub body: Expression,
    pub return_type: Type,
}

/// A monomorphised Type has all type variables removed
#[derive(Debug, PartialEq, Eq)]
pub enum Type {
    Field,
    Array(u64, Box<Type>),
    Integer(Signedness, u32),
    Bool,
    Unit,
    Tuple(Vec<Type>),
}

impl Clone for Type {
    /// A deep copy of the type.
    fn clone(&self) -> (res: Self)
        decreases self,
    {
        match self {
            Type::Field => Type::Field,
            Type::Array(length, element) => Type::Array(*length, Box::new((**element).clone())),
            Type::Integer(sign, bits) => Type::Integer(*sign, *bits),
            Type::Bool => Type::Bool,
            Type::Unit => Type::Unit,
            Type::Tuple(elements) => Type::Tuple(clone_type_vec(elements)),
        }
    }
}

/// A deep copy of a list of types.
fn clone_type_vec(elements: &Vec<Type>) -> (res: Vec<Type>)
    decreases *elements,
{
    let mut cloned_elements: Vec<Type> = Vec::new();
    let mut i: usize = 0;
    while i < elements.len()
        invariant
            i <= elements@.len(),
        decreases elements@.len() - i,
    {
        proof {
            vstd::std_specs::vec::axiom_vec_index_decreases(*elements, i as int);
            assert(decreases_to!(*elements => elements@[i as int]));
        }
        cloned_elements.push(elements[i].clone());
        i += 1;
    }
    cloned_elements
}

/// Relies on std's String::push: appends exactly the given character at the
/// end of the string.
pub assume_specification[ String::push ](s: &mut String, ch: char)
    ensures
        final(s)@ == old(s)@.push(ch),
;

/// Relies on std's String::push_str: appends exactly the given slice's
/// characters at the end of the string.
pub assume_specification[ String::push_str ](s: &mut String, appended: &str)
    ensures
        final(s)@ == old(s)@ + appended@,
;

/// The character for one decimal digit.
pub open spec fn dec_digit(d: nat) -> char {
    if d == 0 {
        '0'
    } else if d == 1 {
        '1'
    } else if d == 2 {
        '2'
    } else if d == 3 {
        '3'
    } else if d == 4 {
        '4'
    } else if d == 5 {
        '5'
    } else if d == 6 {
        '6'
    } else if d == 7 {
        '7'
    } else if d == 8 {
        '8'
    } else {
        '9'
    }
}

/// The decimal rendering of a number, most significant digit first, with no
/// leading zero except for the number zero itself.
pub open spec fn dec_seq(n: nat) -> Seq<char>
    decreases n,
{
    if n < 10 {
        seq![dec_digit(n)]
    } else {
        dec_seq(n / 10) + seq![dec_digit(n % 10)]
    }
}

/// The source text of a type: `Field`, `[T; n]`, `uN` or `iN`, `bool`,
/// `()`, or a parenthesized, comma-separated tuple.
pub open spec fn type_display(t: Type) -> Seq<char>
    decreases t,
{
    match t {
        Type::Field => "Field"@,
        Type::Array(length, element) => "["@ + type_display(*element) + "; "@ + dec_seq(
            length as nat,
        ) + "]"@,
        Type::Integer(sign, bits) => (match sign {
            Signedness::Unsigned => "u"@,
            Signedness::Signed => "i"@,
        }) + dec_seq(bits as nat),
        Type::Bool => "bool"@,
        Type::Unit => "()"@,
        Type::Tuple(elements) => "("@ + tuple_display(elements@) + ")"@,
    }
}

/// The comma-separated source text of a tuple's element types.
pub open spec fn tuple_display(elements: Seq<Type>) -> Seq<char>
    decreases elements,
{
    if elements.len() == 0 {
        Seq::empty()
    } else if elements.len() == 1 {
        proof {
            vstd::seq::axiom_seq_index_decreases(elements, 0);
        }
        type_display(elements[0])
    } else {
        proof {
            vstd::seq::axiom_seq_len_decreases(elements, elements.drop_last());
            vstd::seq::axiom_seq_index_decreases(elements, elements.len() as int - 1);
        }
        tuple_display(elements.drop_last()) + ", "@ + type_display(elements.last())
    }
}

/// One decimal digit as a character.
fn digit_char(d: u64) -> (c: char)
    requires
        d < 10,
    ensures
        c == dec_digit(d as nat),
{
    match d {
        0 => '0',
        1 => '1',
        2 => '2',
        3 => '3',
        4 => '4',
        5 => '5',
        6 => '6',
        7 => '7',
        8 => '8',
        _ => '9',
    }
}

/// Appends the decimal rendering of `n`.
fn push_decimal(s: &mut String, n: u64)
    ensures
        final(s)@ == old(s)@ + dec_seq(n as nat),
    decreases n,
{
    if n < 10 {
        let c = digit_char(n);
        s.push(c);
        proof {
            assert(old(s)@ + dec_seq(n as nat) =~= old(s)@.push(dec_digit(n as nat)));
        }
    } else {
        push_decimal(s, n / 10);
        let c = digit_char(n % 10);
        s.push(c);
        proof {
            assert(old(s)@ + dec_seq(n as nat) =~= (old(s)@ + dec_seq((n / 10) as nat)).push(
                dec_digit((n % 10) as nat),
            ));
        }
    }
}

/// Appends the source text of one type.
fn push_type_display(s: &mut String, t: &Type)
    ensures
        final(s)@ == old(s)@ + type_display(*t),
    decreases *t,
{
    match t {
        Type::Field => {
            s.push_str("Field");
        },
        Type::Array(length, element) => {
            s.push_str("[");
            push_type_display(s, element);
            s.push_str("; ");
            push_decimal(s, *length);
            s.push_str("]");
            proof {
                assert(final(s)@ =~= old(s)@ + type_display(*t));
            }
        },
        Type::Integer(sign, bits) => {
            match sign {
                Signedness::Unsigned => s.push_str("u"),
                Signedness::Signed => s.push_str("i"),
            }
            push_decimal(s, *bits as u64);
            proof {
                assert(final(s)@ =~= old(s)@ + type_display(*t));
            }
        },
        Type::Bool => {
            s.push_str("bool");
        },
        Type::Unit => {
            s.push_str("()");
        },
        Type::Tuple(elements) => {
            s.push_str("(");
            push_tuple_display(s, elements);
            s.push_str(")");
            proof {
                assert(final(s)@ =~= old(s)@ + type_display(*t));
            }
        },
    }
}

/// Appends the comma-separated source text of the element types.
fn push_tuple_display(s: &mut String, elements: &Vec<Type>)
    ensures
        final(s)@ == old(s)@ + tuple_display(elements@),
    decreases *elements,
{
    let mut i: usize = 0;
    while i < elements.len()
        invariant
            i <= elements@.len(),
            s@ == old(s)@ + tuple_display(elements@.take(i as int)),
        decreases elements@.len() - i,
    {
        if i > 0 {
            s.push_str(", ");
        }
        proof {
            vstd::std_specs::vec::axiom_vec_index_decreases(*elements, i as int);
            assert(decreases_to!(*elements => elements@[i as int]));
        }
        push_type_display(s, &elements[i]);
        proof {
            let grown = elements@.take(i as int + 1);
            assert(grown.drop_last() =~= elements@.take(i as int));
            assert(grown.last() == elements@[i as int]);
            assert(s@ =~= old(s)@ + tuple_display(grown));
        }
        i += 1;
    }
    proof {
        assert(elements@.take(elements@.len() as int) =~= elements@);
    }
}

impl Type {
    /// The source text of the type, as the front end prints it.
    pub fn to_string(&self) -> (s: String)
        ensures
            s@ == type_display(*self),
    {
        let mut s = String::new();
        push_type_display(&mut s, self);
        proof {
            assert(Seq::<char>::empty() + type_display(*self) =~= type_display(*self));
        }
        s
    }
}

/// The program: its functions, the first of which is `main`, together with
/// the interface description handed on to the caller. The interface value is
/// only carried, never read, so it is kept generic.
pub struct Functions<A> {
    pub functions: Vec<Function>,
    pub abi: A,
}

impl<A> Functions<A> {
    pub fn new(main: Function, abi: A) -> (program: Functions<A>)
        ensures
            program.functions@ == seq![main],
            program.abi == abi,
    {
        let functions = vec![main];
        proof {
            assert(functions@ =~= seq![main]);
        }
        Functions { functions, abi }
    }

    pub fn push(&mut self, function: Function)
        ensures
            final(self).functions@ == old(self).functions@.push(function),
            final(self).abi == old(self).abi,
    {
        self.functions.push(function);
    }

    /// The function with the given ID.
    pub fn index(&self, index: FuncId) -> (function: &Function)
        requires
            (index.0 as int) < self.functions@.len(),
        ensures
            *function == self.functions@[index.0 as int],
    {
        &self.functions[index.0 as usize]
    }

    pub fn take_main_body(&mut self) -> (body: Expression)
        requires
            old(self).functions@.len() > 0,
        ensures
            body == old(self).functions@[0].body,
            final(self).functions@ == old(self).functions@.update(
                0,
                (Function {
                    body: Expression::Literal(Literal::Bool(false)),
                    ..old(self).functions@[0]
                }),
            ),
            final(self).abi == old(self).abi,
    {
        self.take_function_body(FuncId(0))
    }

    /// Takes a function body by replacing it with `false` and
    /// returning the previous value
    pub fn take_function_body(&mut self, function: FuncId) -> (body: Expression)
        requires
            (function.0 as int) < old(self).functions@.len(),
        ensures
            body == old(self).functions@[function.0 as int].body,
            final(self).functions@ == old(self).functions@.update(
                function.0 as int,
                (Function {
                    body: Expression::Literal(Literal::Bool(false)),
                    ..old(self).functions@[function.0 as int]
                }),
            ),
            final(self).abi == old(self).abi,
    {
        let index = function.0 as usize;
        let taken = self.functions.remove(index);
        let Function { id, name, parameters, body, return_type } = taken;
        let replacement = Function {
            id,
            name,
            parameters,
            body: Expression::Literal(Literal::Bool(false)),
            return_type,
        };
        self.functions.insert(index, replacement);
        proof {
            assert(self.functions@ =~= old(self).functions@.update(
                function.0 as int,
                (Function {
                    body: Expression::Literal(Literal::Bool(false)),
                    ..old(self).functions@[function.0 as int]
                }),
            ));
        }
        body
    }
}

} // verus!

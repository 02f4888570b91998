//! The type algebra and the abstract syntax tree produced by parsing.
//!
//! Each executable type has a spec-level mirror (suffix `V`) in which every
//! `Vec` is a `Seq`, every `String` a `Seq<char>`, and a float literal its
//! source text; contracts are stated over these mirrors, reached through
//! `View`.
use vstd::prelude::*;
use crate::text::view_string_seq;

verus! {

/// Spec mirror of `Type`.
#[verifier::ext_equal]
pub enum TypeV {
    Int,
    Float,
    Bool,
    String,
    List(Box<TypeV>),
    Dict(Box<TypeV>, Box<TypeV>),
    Tuple(Seq<TypeV>),
    Array(Box<TypeV>, Option<usize>),
    Unknown,
    Never,
    NoneType,
}

impl TypeV {
    pub open spec fn is_numeric(self) -> bool {
        self == TypeV::Int || self == TypeV::Float
    }

    pub open spec fn is_array_like(self) -> bool {
        self matches TypeV::Array(..) || self matches TypeV::List(_)
    }
}

/// The value/type algebra shared by every stage. `Unknown` is the inference
/// placeholder; `Never` marks unreachable results.
#[derive(Debug)]
pub enum Type {
    Int,
    Float,
    Bool,
    String,
    List(Box<Type>),
    Dict(Box<Type>, Box<Type>),
    Tuple(Vec<Type>),
    Array(Box<Type>, Option<usize>),
    Unknown,
    Never,
    NoneType,
}

/// Element-wise view of a sequence of types.
pub open spec fn view_type_seq(v: Seq<Type>) -> Seq<TypeV>
    decreases v,
{
    Seq::new(
        v.len(),
        |i: int|
            if 0 <= i < v.len() {
                view_type(v[i])
            } else {
                vstd::pervasive::arbitrary()
            },
    )
}

pub open spec fn view_type(t: Type) -> TypeV
    decreases t,
{
    match t {
        Type::Int => TypeV::Int,
        Type::Float => TypeV::Float,
        Type::Bool => TypeV::Bool,
        Type::String => TypeV::String,
        Type::List(t0) => TypeV::List(Box::new(view_type(*t0))),
        Type::Dict(k, v) => TypeV::Dict(Box::new(view_type(*k)), Box::new(view_type(*v))),
        Type::Tuple(ts) => TypeV::Tuple(view_type_seq(ts@)),
        Type::Array(t0, n) => TypeV::Array(Box::new(view_type(*t0)), n),
        Type::Unknown => TypeV::Unknown,
        Type::Never => TypeV::Never,
        Type::NoneType => TypeV::NoneType,
    }
}

impl View for Type {
    type V = TypeV;

    open spec fn view(&self) -> TypeV {
        view_type(*self)
    }
}

/// A structural copy of a type vector; the element views are kept exactly.
fn clone_type_vec(v: &Vec<Type>) -> (out: Vec<Type>)
    ensures
        out@.len() == v@.len(),
        view_type_seq(out@) == view_type_seq(v@),
    decreases v@,
{
    let mut out: Vec<Type> = Vec::new();
    let mut i: usize = 0;
    while i < v.len()
        invariant
            i <= v@.len(),
            out@.len() == i,
            forall|k: int| 0 <= k < i ==> out@[k]@ == v@[k]@,
        decreases v@.len() - i,
    {
        out.push(v[i].clone());
        i += 1;
    }
    proof {
        assert(view_type_seq(out@) =~= view_type_seq(v@));
    }
    out
}

impl Clone for Type {
    /// A structural copy; the view is preserved exactly.
    fn clone(&self) -> (r: Type)
        ensures
            r@ == self@,
        decreases self,
    {
        match self {
            Type::Int => Type::Int,
            Type::Float => Type::Float,
            Type::Bool => Type::Bool,
            Type::String => Type::String,
            Type::List(t) => Type::List(Box::new((**t).clone())),
            Type::Dict(k, v) => Type::Dict(Box::new((**k).clone()), Box::new((**v).clone())),
            Type::Tuple(ts) => Type::Tuple(clone_type_vec(ts)),
            Type::Array(t, n) => Type::Array(Box::new((**t).clone()), *n),
            Type::Unknown => Type::Unknown,
            Type::Never => Type::Never,
            Type::NoneType => Type::NoneType,
        }
    }
}

impl Type {
    /// Whether the type is `Int` or `Float`.
    pub fn is_numeric(&self) -> (r: bool)
        ensures
            r == self@.is_numeric(),
    {
        matches!(self, Type::Int | Type::Float)
    }

    /// Whether the type is an `Array` or a `List`.
    pub fn is_array_like(&self) -> (r: bool)
        ensures
            r == self@.is_array_like(),
    {
        matches!(self, Type::Array(..) | Type::List(_))
    }
}

/// Binary operators: arithmetic, bitwise, comparison, identity, membership
/// and logical.
#[derive(Debug, Clone, Copy, PartialEq, Eq, Hash, Structural)]
pub enum BinOp {
    Add,
    Sub,
    Mult,
    Div,
    FloorDiv,
    Mod,
    Pow,
    LShift,
    RShift,
    BitOr,
    BitXor,
    BitAnd,
    Eq,
    NotEq,
    Lt,
    LtE,
    Gt,
    GtE,
    Is,
    IsNot,
    In,
    NotIn,
    And,
    Or,
}

#[derive(Debug, Clone, Copy, PartialEq, Eq, Structural)]
pub enum UnaryOp {
    Not,
    Neg,
    Pos,
    Invert,
}

/// Spec mirror of `Expression`. A float literal is carried as its source
/// text: no stage of the pipeline computes with its numeric value.
#[verifier::ext_equal]
pub enum ExpressionV {
    IntLit(i64),
    FloatLit(Seq<char>),
    BoolLit(bool),
    StringLit(Seq<char>),
    Identifier(Seq<char>),
    BinOp(Box<ExpressionV>, BinOp, Box<ExpressionV>),
    UnaryOp(UnaryOp, Box<ExpressionV>),
    Call(Box<ExpressionV>, Seq<ExpressionV>),
    Index(Box<ExpressionV>, Box<ExpressionV>),
    Slice(
        Box<ExpressionV>,
        Option<Box<ExpressionV>>,
        Option<Box<ExpressionV>>,
        Option<Box<ExpressionV>>,
    ),
    Attribute(Box<ExpressionV>, Seq<char>),
    List(Seq<ExpressionV>),
    Dict(Seq<(ExpressionV, ExpressionV)>),
    Tuple(Seq<ExpressionV>),
    Lambda(Seq<Seq<char>>, Box<ExpressionV>),
    Conditional(Box<ExpressionV>, Box<ExpressionV>, Box<ExpressionV>),
}

/// Expressions. `FloatLit` holds the literal's source text; its numeric value
/// is only ever materialized by the emitted native code, never by the
/// compiler itself.
#[derive(Debug)]
pub enum Expression {
    IntLit(i64),
    FloatLit(String),
    BoolLit(bool),
    StringLit(String),
    Identifier(String),
    BinOp(Box<Expression>, BinOp, Box<Expression>),
    UnaryOp(UnaryOp, Box<Expression>),
    Call(Box<Expression>, Vec<Expression>),
    Index(Box<Expression>, Box<Expression>),
    Slice(
        Box<Expression>,
        Option<Box<Expression>>,
        Option<Box<Expression>>,
        Option<Box<Expression>>,
    ),
    Attribute(Box<Expression>, String),
    List(Vec<Expression>),
    Dict(Vec<(Expression, Expression)>),
    Tuple(Vec<Expression>),
    Lambda(Vec<String>, Box<Expression>),
    Conditional(Box<Expression>, Box<Expression>, Box<Expression>),
}

/// Element-wise view of a sequence of expressions.
pub open spec fn view_expr_seq(v: Seq<Expression>) -> Seq<ExpressionV>
    decreases v,
{
    Seq::new(
        v.len(),
        |i: int|
            if 0 <= i < v.len() {
                view_expr(v[i])
            } else {
                vstd::pervasive::arbitrary()
            },
    )
}

/// Element-wise view of a sequence of key/value expression pairs.
pub open spec fn view_expr_pair_seq(v: Seq<(Expression, Expression)>) -> Seq<
    (ExpressionV, ExpressionV),
>
    decreases v,
{
    Seq::new(
        v.len(),
        |i: int|
            if 0 <= i < v.len() {
                (view_expr(v[i].0), view_expr(v[i].1))
            } else {
                vstd::pervasive::arbitrary()
            },
    )
}

pub open spec fn view_expr(e: Expression) -> ExpressionV
    decreases e,
{
    match e {
        Expression::IntLit(n) => ExpressionV::IntLit(n),
        Expression::FloatLit(s) => ExpressionV::FloatLit(s@),
        Expression::BoolLit(b) => ExpressionV::BoolLit(b),
        Expression::StringLit(s) => ExpressionV::StringLit(s@),
        Expression::Identifier(s) => ExpressionV::Identifier(s@),
        Expression::BinOp(l, op, r) => ExpressionV::BinOp(
            Box::new(view_expr(*l)),
            op,
            Box::new(view_expr(*r)),
        ),
        Expression::UnaryOp(op, e0) => ExpressionV::UnaryOp(op, Box::new(view_expr(*e0))),
        Expression::Call(f, args) => ExpressionV::Call(
            Box::new(view_expr(*f)),
            view_expr_seq(args@),
        ),
        Expression::Index(a, i) => ExpressionV::Index(
            Box::new(view_expr(*a)),
            Box::new(view_expr(*i)),
        ),
        Expression::Slice(e0, a, b, c) => ExpressionV::Slice(
            Box::new(view_expr(*e0)),
            match a {
                Option::None => Option::None,
                Option::Some(x) => Option::Some(Box::new(view_expr(*x))),
            },
            match b {
                Option::None => Option::None,
                Option::Some(x) => Option::Some(Box::new(view_expr(*x))),
            },
            match c {
                Option::None => Option::None,
                Option::Some(x) => Option::Some(Box::new(view_expr(*x))),
            },
        ),
        Expression::Attribute(e0, s) => ExpressionV::Attribute(Box::new(view_expr(*e0)), s@),
        Expression::List(es) => ExpressionV::List(view_expr_seq(es@)),
        Expression::Dict(ps) => ExpressionV::Dict(view_expr_pair_seq(ps@)),
        Expression::Tuple(es) => ExpressionV::Tuple(view_expr_seq(es@)),
        Expression::Lambda(ps, e0) => ExpressionV::Lambda(
            view_string_seq(ps@),
            Box::new(view_expr(*e0)),
        ),
        Expression::Conditional(c, t, e0) => ExpressionV::Conditional(
            Box::new(view_expr(*c)),
            Box::new(view_expr(*t)),
            Box::new(view_expr(*e0)),
        ),
    }
}

impl View for Expression {
    type V = ExpressionV;

    open spec fn view(&self) -> ExpressionV {
        view_expr(*self)
    }
}

/// Spec mirror of `Statement`.
#[verifier::ext_equal]
pub enum StatementV {
    FunctionDef(FunctionDefV),
    ClassDef(ClassDefV),
    Assign(AssignmentV),
    AugAssign(AugAssignmentV),
    For(ForLoopV),
    While(WhileLoopV),
    If(IfStatementV),
    Return(Option<ExpressionV>),
    Pass,
    Break,
    Continue,
    ExprStatement(ExpressionV),
}

#[verifier::ext_equal]
pub struct FunctionDefV {
    pub name: Seq<char>,
    pub params: Seq<ParameterV>,
    pub body: Seq<StatementV>,
    pub return_type: TypeV,
    pub directives: Seq<Seq<char>>,
}

#[verifier::ext_equal]
pub struct ParameterV {
    pub name: Seq<char>,
    pub typ: TypeV,
    pub default: Option<ExpressionV>,
}

#[verifier::ext_equal]
pub struct ClassDefV {
    pub name: Seq<char>,
    pub bases: Seq<Seq<char>>,
    pub body: Seq<StatementV>,
}

#[verifier::ext_equal]
pub struct AssignmentV {
    pub targets: Seq<Seq<char>>,
    pub value: ExpressionV,
}

#[verifier::ext_equal]
pub struct AugAssignmentV {
    pub target: Seq<char>,
    pub op: BinOp,
    pub value: ExpressionV,
}

#[verifier::ext_equal]
pub struct ForLoopV {
    pub target: Seq<char>,
    pub iter: ExpressionV,
    pub body: Seq<StatementV>,
}

#[verifier::ext_equal]
pub struct WhileLoopV {
    pub condition: ExpressionV,
    pub body: Seq<StatementV>,
}

#[verifier::ext_equal]
pub struct IfStatementV {
    pub condition: ExpressionV,
    pub then_body: Seq<StatementV>,
    pub else_body: Option<Seq<StatementV>>,
}

/// Statements of the restricted source language.
#[derive(Debug)]
pub enum Statement {
    FunctionDef(FunctionDef),
    ClassDef(ClassDef),
    Assign(Assignment),
    AugAssign(AugAssignment),
    For(ForLoop),
    While(WhileLoop),
    If(IfStatement),
    Return(Option<Expression>),
    Pass,
    Break,
    Continue,
    ExprStatement(Expression),
}

/// A function definition with its raw directive names.
#[derive(Debug)]
pub struct FunctionDef {
    pub name: String,
    pub params: Vec<Parameter>,
    pub body: Vec<Statement>,
    pub return_type: Type,
    pub directives: Vec<String>,
}

#[derive(Debug)]
pub struct Parameter {
    pub name: String,
    pub typ: Type,
    pub default: Option<Expression>,
}

#[derive(Debug)]
pub struct ClassDef {
    pub name: String,
    pub bases: Vec<String>,
    pub body: Vec<Statement>,
}

#[derive(Debug)]
pub struct Assignment {
    pub targets: Vec<String>,
    pub value: Expression,
}

#[derive(Debug)]
pub struct AugAssignment {
    pub target: String,
    pub op: BinOp,
    pub value: Expression,
}

#[derive(Debug)]
pub struct ForLoop {
    pub target: String,
    pub iter: Expression,
    pub body: Vec<Statement>,
}

#[derive(Debug)]
pub struct WhileLoop {
    pub condition: Expression,
    pub body: Vec<Statement>,
}

#[derive(Debug)]
pub struct IfStatement {
    pub condition: Expression,
    pub then_body: Vec<Statement>,
    pub else_body: Option<Vec<Statement>>,
}

/// Element-wise view of a sequence of statements.
pub open spec fn view_stmt_seq(v: Seq<Statement>) -> Seq<StatementV>
    decreases v,
{
    Seq::new(
        v.len(),
        |i: int|
            if 0 <= i < v.len() {
                view_stmt(v[i])
            } else {
                vstd::pervasive::arbitrary()
            },
    )
}

/// Element-wise view of a sequence of parameters.
pub open spec fn view_param_seq(v: Seq<Parameter>) -> Seq<ParameterV>
    decreases v,
{
    Seq::new(
        v.len(),
        |i: int|
            if 0 <= i < v.len() {
                view_param(v[i])
            } else {
                vstd::pervasive::arbitrary()
            },
    )
}

pub open spec fn view_stmt(s: Statement) -> StatementV
    decreases s,
{
    match s {
        Statement::FunctionDef(f) => StatementV::FunctionDef(view_fndef(f)),
        Statement::ClassDef(c) => StatementV::ClassDef(
            ClassDefV {
                name: c.name@,
                bases: view_string_seq(c.bases@),
                body: view_stmt_seq(c.body@),
            },
        ),
        Statement::Assign(a) => StatementV::Assign(view_assignment(a)),
        Statement::AugAssign(a) => StatementV::AugAssign(
            AugAssignmentV { target: a.target@, op: a.op, value: view_expr(a.value) },
        ),
        Statement::For(f) => StatementV::For(
            ForLoopV {
                target: f.target@,
                iter: view_expr(f.iter),
                body: view_stmt_seq(f.body@),
            },
        ),
        Statement::While(w) => StatementV::While(
            WhileLoopV {
                condition: view_expr(w.condition),
                body: view_stmt_seq(w.body@),
            },
        ),
        Statement::If(c) => StatementV::If(
            IfStatementV {
                condition: view_expr(c.condition),
                then_body: view_stmt_seq(c.then_body@),
                else_body: match c.else_body {
                    Option::None => Option::None,
                    Option::Some(v) => Option::Some(view_stmt_seq(v@)),
                },
            },
        ),
        Statement::Return(e) => StatementV::Return(
            match e {
                Option::None => Option::None,
                Option::Some(x) => Option::Some(view_expr(x)),
            },
        ),
        Statement::Pass => StatementV::Pass,
        Statement::Break => StatementV::Break,
        Statement::Continue => StatementV::Continue,
        Statement::ExprStatement(e) => StatementV::ExprStatement(view_expr(e)),
    }
}

pub open spec fn view_fndef(f: FunctionDef) -> FunctionDefV
    decreases f,
{
    FunctionDefV {
        name: f.name@,
        params: view_param_seq(f.params@),
        body: view_stmt_seq(f.body@),
        return_type: view_type(f.return_type),
        directives: view_string_seq(f.directives@),
    }
}

pub open spec fn view_param(p: Parameter) -> ParameterV
    decreases p,
{
    ParameterV {
        name: p.name@,
        typ: view_type(p.typ),
        default: match p.default {
            Option::None => Option::None,
            Option::Some(e) => Option::Some(view_expr(e)),
        },
    }
}

pub open spec fn view_assignment(a: Assignment) -> AssignmentV
    decreases a,
{
    AssignmentV {
        targets: view_string_seq(a.targets@),
        value: view_expr(a.value),
    }
}

impl View for Statement {
    type V = StatementV;

    open spec fn view(&self) -> StatementV {
        view_stmt(*self)
    }
}

impl View for FunctionDef {
    type V = FunctionDefV;

    open spec fn view(&self) -> FunctionDefV {
        view_fndef(*self)
    }
}

impl View for Parameter {
    type V = ParameterV;

    open spec fn view(&self) -> ParameterV {
        view_param(*self)
    }
}

impl View for ClassDef {
    type V = ClassDefV;

    open spec fn view(&self) -> ClassDefV {
        ClassDefV {
            name: self.name@,
            bases: view_string_seq(self.bases@),
            body: view_stmt_seq(self.body@),
        }
    }
}

impl View for Assignment {
    type V = AssignmentV;

    open spec fn view(&self) -> AssignmentV {
        view_assignment(*self)
    }
}

impl View for AugAssignment {
    type V = AugAssignmentV;

    open spec fn view(&self) -> AugAssignmentV {
        AugAssignmentV { target: self.target@, op: self.op, value: view_expr(self.value) }
    }
}

impl View for ForLoop {
    type V = ForLoopV;

    open spec fn view(&self) -> ForLoopV {
        ForLoopV {
            target: self.target@,
            iter: view_expr(self.iter),
            body: view_stmt_seq(self.body@),
        }
    }
}

impl View for WhileLoop {
    type V = WhileLoopV;

    open spec fn view(&self) -> WhileLoopV {
        WhileLoopV {
            condition: view_expr(self.condition),
            body: view_stmt_seq(self.body@),
        }
    }
}

impl View for IfStatement {
    type V = IfStatementV;

    open spec fn view(&self) -> IfStatementV {
        IfStatementV {
            condition: view_expr(self.condition),
            then_body: view_stmt_seq(self.then_body@),
            else_body: match &self.else_body {
                Option::None => Option::None,
                Option::Some(v) => Option::Some(view_stmt_seq(v@)),
            },
        }
    }
}


/// Spec mirror of `Import`.
#[verifier::ext_equal]
pub struct ImportV {
    pub module: Seq<char>,
    pub items: Option<Seq<Seq<char>>>,
    pub alias: Option<Seq<char>>,
}

/// An import declaration; an absent item list means a wildcard import.
#[derive(Debug)]
pub struct Import {
    pub module: String,
    pub items: Option<Vec<String>>,
    pub alias: Option<String>,
}

impl View for Import {
    type V = ImportV;

    open spec fn view(&self) -> ImportV {
        ImportV {
            module: self.module@,
            items: match &self.items {
                Option::None => Option::None,
                Option::Some(v) => Option::Some(view_string_seq(v@)),
            },
            alias: match &self.alias {
                Option::None => Option::None,
                Option::Some(s) => Option::Some(s@),
            },
        }
    }
}

/// Spec mirror of `Program`.
#[verifier::ext_equal]
pub struct ProgramV {
    pub statements: Seq<StatementV>,
    pub imports: Seq<ImportV>,
}

/// A parsed program: top-level statements plus import declarations.
#[derive(Debug)]
pub struct Program {
    pub statements: Vec<Statement>,
    pub imports: Vec<Import>,
}

impl View for Program {
    type V = ProgramV;

    open spec fn view(&self) -> ProgramV {
        ProgramV {
            statements: view_stmt_seq(self.statements@),
            imports: Seq::new(self.imports.len() as nat, |i: int| self.imports@[i]@),
        }
    }
}

} // verus!

//! The model of a module body.
//!
//! The pass reads identifiers, declaration kinds, module specifiers and a
//! few statement shapes; everything it does not read (an expression, a class
//! body, a destructuring pattern) is carried as an opaque `u64` payload
//! handle that the surrounding host maps back to its real syntax node.
//!
//! Every executable type has a mathematical twin (suffix `V`) in which a
//! `String` is a `Seq<char>` and a `Vec` is a `Seq`; contracts speak of
//! those twins through `deep_view`.

use vstd::prelude::*;

verus! {

/// Keyword of a variable declaration: `var`, `let` or `const`.
#[derive(Clone, Copy, PartialEq, Eq, Structural, Debug)]
pub enum VarKind {
    Var,
    Let,
    Const,
}

/// What the pass reads of a declarator's initializer: its syntactic family
/// and an opaque handle to the expression itself.
#[derive(Clone, Copy, PartialEq, Eq, Structural, Debug)]
pub enum Init {
    /// a `class` expression
    ClassExpr(u64),
    /// a `function` expression
    FuncExpr(u64),
    /// an arrow function expression
    ArrowExpr(u64),
    /// any other expression
    Plain(u64),
}

/// The binding position of a declarator.
pub enum Binding {
    /// a plain identifier binding
    Ident(String),
    /// a destructuring pattern; the pass does not lower these
    Pattern(u64),
}

/// One declarator of a variable declaration, `name` or `name = init`.
pub struct Declarator {
    pub name: Binding,
    pub init: Option<Init>,
}

/// The declaration carried by `export <decl>`.
pub enum ExportedDecl {
    /// `export class Name { ... }`
    Class { name: String, payload: u64 },
    /// `export function name() { ... }`
    Func { name: String, payload: u64 },
    /// `export var/let/const d1, d2, ...;`
    Var { kind: VarKind, decls: Vec<Declarator> },
    /// any other exported declaration; the pass does not lower these
    Other(u64),
}

/// The declaration carried by `export default <decl>`.
pub enum DefaultDecl {
    /// `export default class [Name] { ... }`
    Class { name: Option<String>, payload: u64 },
    /// `export default function [name]() { ... }`
    Func { name: Option<String>, payload: u64 },
    /// any other default declaration; the pass does not lower these
    Other(u64),
}

/// The right operand of the enum-style binary argument `name = name || <rhs>`.
pub enum EnumArg {
    /// the operand as parsed (an opaque expression, typically `{}`)
    Orig(u64),
    /// the operand after an export was spliced in:
    /// `(exports.name = name = <rest>)`
    Spliced { name: String, rest: Box<EnumArg> },
}

/// Kind of a retained declaration statement.
#[derive(Clone, Copy, PartialEq, Eq, Structural, Debug)]
pub enum DeclKind {
    /// `class Name { ... }`
    Class,
    /// `function name() { ... }`
    Func,
    /// `var/let/const name = <payload>;`
    Var(VarKind),
}

/// The right-hand side of an `exports.key = ...;` assignment.
pub enum Assigned {
    /// a bare identifier
    Ident(String),
    /// an opaque expression
    Expr(u64),
}

/// A top-level statement, as far as the pass reads or writes it.
pub enum Stmt {
    /// any statement the pass does not read
    Other(u64),
    /// an enum-style IIFE call statement whose first argument has the
    /// shape `name = name || <rhs>`; `payload` is the callee
    EnumCall { name: String, rhs: EnumArg, payload: u64 },
    /// `Object.defineProperty(exports, "__esModule", { value: true });`
    EsModuleFlag,
    /// `exports.k1 = exports.k2 = ... = void 0;`, names right-nested in order
    VoidChain(Vec<String>),
    /// the hoisted `exportStar(from, to)` helper definition
    StarHelper,
    /// `exportStar(require(path), exports);`
    StarCall { path: String },
    /// a retained declaration under `name`
    Decl { kind: DeclKind, name: String, payload: u64 },
    /// `exports.key = <value>;`
    ExportAssign { key: String, value: Assigned },
}

/// A top-level module item: a plain statement or an export construct.
pub enum ModuleItem {
    Stmt(Stmt),
    /// `export * from "path";`
    ExportAll { path: String },
    /// `export <decl>`
    ExportDecl(ExportedDecl),
    /// `export default <decl>`
    ExportDefaultDecl(DefaultDecl),
    /// `export default <expr>;`
    ExportDefaultExpr { value: u64 },
}

// ---------------------------------------------------------------------------
// Mathematical twins.
// ---------------------------------------------------------------------------

#[verifier::ext_equal]
pub enum BindingV {
    Ident(Seq<char>),
    Pattern(u64),
}

#[verifier::ext_equal]
pub struct DeclaratorV {
    pub name: BindingV,
    pub init: Option<Init>,
}

#[verifier::ext_equal]
pub enum ExportedDeclV {
    Class { name: Seq<char>, payload: u64 },
    Func { name: Seq<char>, payload: u64 },
    Var { kind: VarKind, decls: Seq<DeclaratorV> },
    Other(u64),
}

#[verifier::ext_equal]
pub enum DefaultDeclV {
    Class { name: Option<Seq<char>>, payload: u64 },
    Func { name: Option<Seq<char>>, payload: u64 },
    Other(u64),
}

#[verifier::ext_equal]
pub enum EnumArgV {
    Orig(u64),
    Spliced { name: Seq<char>, rest: Box<EnumArgV> },
}

#[verifier::ext_equal]
pub enum AssignedV {
    Ident(Seq<char>),
    Expr(u64),
}

#[verifier::ext_equal]
pub enum StmtV {
    Other(u64),
    EnumCall { name: Seq<char>, rhs: EnumArgV, payload: u64 },
    EsModuleFlag,
    VoidChain(Seq<Seq<char>>),
    StarHelper,
    StarCall { path: Seq<char> },
    Decl { kind: DeclKind, name: Seq<char>, payload: u64 },
    ExportAssign { key: Seq<char>, value: AssignedV },
}

#[verifier::ext_equal]
pub enum ItemV {
    Stmt(StmtV),
    ExportAll { path: Seq<char> },
    ExportDecl(ExportedDeclV),
    ExportDefaultDecl(DefaultDeclV),
    ExportDefaultExpr { value: u64 },
}

// ---------------------------------------------------------------------------
// Views.
// ---------------------------------------------------------------------------

impl DeepView for Binding {
    type V = BindingV;

    open spec fn deep_view(&self) -> BindingV {
        match self {
            Binding::Ident(s) => BindingV::Ident(s.deep_view()),
            Binding::Pattern(p) => BindingV::Pattern(*p),
        }
    }
}

impl DeepView for Declarator {
    type V = DeclaratorV;

    open spec fn deep_view(&self) -> DeclaratorV {
        DeclaratorV { name: self.name.deep_view(), init: self.init }
    }
}

impl DeepView for ExportedDecl {
    type V = ExportedDeclV;

    open spec fn deep_view(&self) -> ExportedDeclV {
        match self {
            ExportedDecl::Class { name, payload } => ExportedDeclV::Class {
                name: name.deep_view(),
                payload: *payload,
            },
            ExportedDecl::Func { name, payload } => ExportedDeclV::Func {
                name: name.deep_view(),
                payload: *payload,
            },
            ExportedDecl::Var { kind, decls } => ExportedDeclV::Var {
                kind: *kind,
                decls: decls.deep_view(),
            },
            ExportedDecl::Other(p) => ExportedDeclV::Other(*p),
        }
    }
}

impl DeepView for DefaultDecl {
    type V = DefaultDeclV;

    open spec fn deep_view(&self) -> DefaultDeclV {
        match self {
            DefaultDecl::Class { name, payload } => DefaultDeclV::Class {
                name: name.deep_view(),
                payload: *payload,
            },
            DefaultDecl::Func { name, payload } => DefaultDeclV::Func {
                name: name.deep_view(),
                payload: *payload,
            },
            DefaultDecl::Other(p) => DefaultDeclV::Other(*p),
        }
    }
}

/// Recursive view of an enum-call right operand.
pub open spec fn enum_arg_view(e: EnumArg) -> EnumArgV
    decreases e,
{
    match e {
        EnumArg::Orig(p) => EnumArgV::Orig(p),
        EnumArg::Spliced { name, rest } => EnumArgV::Spliced {
            name: name.deep_view(),
            rest: Box::new(enum_arg_view(*rest)),
        },
    }
}

impl DeepView for EnumArg {
    type V = EnumArgV;

    open spec fn deep_view(&self) -> EnumArgV {
        enum_arg_view(*self)
    }
}

impl DeepView for Assigned {
    type V = AssignedV;

    open spec fn deep_view(&self) -> AssignedV {
        match self {
            Assigned::Ident(s) => AssignedV::Ident(s.deep_view()),
            Assigned::Expr(p) => AssignedV::Expr(*p),
        }
    }
}

impl DeepView for Stmt {
    type V = StmtV;

    open spec fn deep_view(&self) -> StmtV {
        match self {
            Stmt::Other(p) => StmtV::Other(*p),
            Stmt::EnumCall { name, rhs, payload } => StmtV::EnumCall {
                name: name.deep_view(),
                rhs: rhs.deep_view(),
                payload: *payload,
            },
            Stmt::EsModuleFlag => StmtV::EsModuleFlag,
            Stmt::VoidChain(names) => StmtV::VoidChain(names.deep_view()),
            Stmt::StarHelper => StmtV::StarHelper,
            Stmt::StarCall { path } => StmtV::StarCall { path: path.deep_view() },
            Stmt::Decl { kind, name, payload } => StmtV::Decl {
                kind: *kind,
                name: name.deep_view(),
                payload: *payload,
            },
            Stmt::ExportAssign { key, value } => StmtV::ExportAssign {
                key: key.deep_view(),
                value: value.deep_view(),
            },
        }
    }
}

impl DeepView for ModuleItem {
    type V = ItemV;

    open spec fn deep_view(&self) -> ItemV {
        match self {
            ModuleItem::Stmt(s) => ItemV::Stmt(s.deep_view()),
            ModuleItem::ExportAll { path } => ItemV::ExportAll { path: path.deep_view() },
            ModuleItem::ExportDecl(d) => ItemV::ExportDecl(d.deep_view()),
            ModuleItem::ExportDefaultDecl(d) => ItemV::ExportDefaultDecl(d.deep_view()),
            ModuleItem::ExportDefaultExpr { value } => ItemV::ExportDefaultExpr { value: *value },
        }
    }
}

// ---------------------------------------------------------------------------
// Element-wise views of sequences.
// ---------------------------------------------------------------------------

/// The element-wise deep view of a sequence.
pub open spec fn seq_dv<T: DeepView>(s: Seq<T>) -> Seq<T::V> {
    Seq::new(s.len(), |i: int| s[i].deep_view())
}

/// A vector's deep view is the element-wise deep view of its view.
pub proof fn lemma_vec_dv<T: DeepView>(v: &Vec<T>)
    ensures
        v.deep_view() == seq_dv(v@),
{
    assert(v.deep_view() =~= seq_dv(v@));
}

pub proof fn lemma_seq_dv_push<T: DeepView>(s: Seq<T>, x: T)
    ensures
        seq_dv(s.push(x)) == seq_dv(s).push(x.deep_view()),
{
    assert(seq_dv(s.push(x)) =~= seq_dv(s).push(x.deep_view()));
}

pub proof fn lemma_seq_dv_insert<T: DeepView>(s: Seq<T>, k: int, x: T)
    requires
        0 <= k <= s.len(),
    ensures
        seq_dv(s.insert(k, x)) == seq_dv(s).insert(k, x.deep_view()),
{
    assert(seq_dv(s.insert(k, x)) =~= seq_dv(s).insert(k, x.deep_view()));
}

pub proof fn lemma_seq_dv_remove<T: DeepView>(s: Seq<T>, k: int)
    requires
        0 <= k < s.len(),
    ensures
        seq_dv(s.remove(k)) == seq_dv(s).remove(k),
{
    assert(seq_dv(s.remove(k)) =~= seq_dv(s).remove(k));
}

} // verus!

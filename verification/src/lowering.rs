//! Functional semantics of the lowering pass.
//!
//! The pass is a single left-to-right fold over the item sequence.  The
//! fold state records which singleton prologue statements exist (the
//! ES-module flag, the void chain with its names, the re-export-all
//! helper), the per-kind counters for synthetic default names, the lowered
//! tail produced so far, and the export names that a no-initializer
//! declarator left waiting to be spliced into the next item.
//!
//! The lowered module is the prologue — flag at index 0, void chain at
//! index 1, helper after it — followed by the tail, in which every
//! non-export item keeps its place relative to the lowered forms of the
//! surrounding exports.

use vstd::prelude::*;
use crate::ast::{
    AssignedV, BindingV, DeclKind, DeclaratorV, DefaultDeclV, EnumArgV, ExportedDeclV, Init, ItemV,
    StmtV, VarKind,
};
use crate::synth::synth_name;

verus! {

/// The fold state of the pass.
#[verifier::ext_equal]
pub struct LowerSt {
    /// the ES-module flag statement exists
    pub flag: bool,
    /// the names in the void chain, in encounter order; the chain
    /// statement exists exactly when this is non-empty
    pub chain: Seq<Seq<char>>,
    /// the `exportStar` helper definition exists
    pub helper: bool,
    /// anonymous default classes lowered so far
    pub class_count: nat,
    /// anonymous default functions lowered so far
    pub func_count: nat,
    /// the lowered items that follow the prologue, in order
    pub tail: Seq<ItemV>,
    /// export names of no-initializer declarators of the item just
    /// processed, waiting to be spliced into the next item
    pub pending: Seq<Seq<char>>,
}

pub open spec fn init_st() -> LowerSt {
    LowerSt {
        flag: false,
        chain: Seq::empty(),
        helper: false,
        class_count: 0,
        func_count: 0,
        tail: Seq::empty(),
        pending: Seq::empty(),
    }
}

/// Splice the export of `name` into `it`, if `it` is an enum-style call
/// statement over the same `name`; otherwise leave `it` unchanged.
pub open spec fn splice_one(name: Seq<char>, it: ItemV) -> ItemV {
    match it {
        ItemV::Stmt(StmtV::EnumCall { name: n, rhs, payload }) => if n == name {
            ItemV::Stmt(
                StmtV::EnumCall {
                    name: n,
                    rhs: EnumArgV::Spliced { name, rest: Box::new(rhs) },
                    payload,
                },
            )
        } else {
            it
        },
        _ => it,
    }
}

/// Splice each pending name in order.
pub open spec fn splice_all(names: Seq<Seq<char>>, it: ItemV) -> ItemV
    decreases names.len(),
{
    if names.len() == 0 {
        it
    } else {
        splice_all(names.drop_first(), splice_one(names.first(), it))
    }
}

/// Apply the pending splices to the first item of `rest`.
pub open spec fn splice_head(names: Seq<Seq<char>>, rest: Seq<ItemV>) -> Seq<ItemV> {
    if names.len() == 0 || rest.len() == 0 {
        rest
    } else {
        rest.update(0, splice_all(names, rest[0]))
    }
}

/// Append a passed-through item to the tail.
pub open spec fn pass_item(st: LowerSt, it: ItemV) -> LowerSt {
    LowerSt { tail: st.tail.push(it), ..st }
}

/// Append a retained declaration and its `exports.name = name;` assignment.
pub open spec fn emit_decl_and_assign(st: LowerSt, kind: DeclKind, name: Seq<char>, payload: u64)
    -> LowerSt {
    LowerSt {
        tail: st.tail.push(ItemV::Stmt(StmtV::Decl { kind, name, payload })).push(
            ItemV::Stmt(StmtV::ExportAssign { key: name, value: AssignedV::Ident(name) }),
        ),
        ..st
    }
}

/// Append a named declaration and its `exports.default = name;` assignment.
pub open spec fn emit_default_decl(st: LowerSt, kind: DeclKind, name: Seq<char>, payload: u64)
    -> LowerSt {
    LowerSt {
        tail: st.tail.push(ItemV::Stmt(StmtV::Decl { kind, name, payload })).push(
            ItemV::Stmt(StmtV::ExportAssign { key: "default"@, value: AssignedV::Ident(name) }),
        ),
        ..st
    }
}

/// Every declarator binds a plain identifier.
pub open spec fn all_idents(ds: Seq<DeclaratorV>) -> bool {
    forall|i: int| 0 <= i < ds.len() ==> ds[i].name is Ident
}

/// Lower one declarator of an exported variable declaration.
///
/// The binding is registered in the void chain unconditionally.  A
/// class, function or arrow initializer keeps its declaration and gains an
/// export assignment; any other initializer collapses into a bare
/// `exports.name = init;`; a missing initializer emits nothing and leaves
/// the name pending for the enum-style splice into the next item.
pub open spec fn step_declarator(kind: VarKind, d: DeclaratorV, st: LowerSt) -> LowerSt {
    match d.name {
        BindingV::Ident(name) => {
            let st1 = LowerSt { chain: st.chain.push(name), ..st };
            match d.init {
                Some(Init::ClassExpr(p)) => emit_decl_and_assign(st1, DeclKind::Var(kind), name, p),
                Some(Init::FuncExpr(p)) => emit_decl_and_assign(st1, DeclKind::Var(kind), name, p),
                Some(Init::ArrowExpr(p)) => emit_decl_and_assign(st1, DeclKind::Var(kind), name, p),
                Some(Init::Plain(p)) => LowerSt {
                    tail: st1.tail.push(
                        ItemV::Stmt(StmtV::ExportAssign { key: name, value: AssignedV::Expr(p) }),
                    ),
                    ..st1
                },
                None => LowerSt { pending: st1.pending.push(name), ..st1 },
            }
        },
        BindingV::Pattern(_) => st,
    }
}

pub open spec fn step_declarators(kind: VarKind, ds: Seq<DeclaratorV>, st: LowerSt) -> LowerSt
    decreases ds.len(),
{
    if ds.len() == 0 {
        st
    } else {
        step_declarator(kind, ds.last(), step_declarators(kind, ds.drop_last(), st))
    }
}

/// Lower `export <decl>`.
///
/// A class or function declaration is retained under its name, followed by
/// `exports.name = name;`, and the name joins the void chain.  A variable
/// declaration whose declarators all bind plain identifiers is lowered
/// declarator by declarator.  Any other shape is not recognized and passes
/// through untouched.
pub open spec fn step_export_decl(d: ExportedDeclV, st: LowerSt) -> LowerSt {
    match d {
        ExportedDeclV::Class { name, payload } => emit_decl_and_assign(
            LowerSt { flag: true, chain: st.chain.push(name), ..st },
            DeclKind::Class,
            name,
            payload,
        ),
        ExportedDeclV::Func { name, payload } => emit_decl_and_assign(
            LowerSt { flag: true, chain: st.chain.push(name), ..st },
            DeclKind::Func,
            name,
            payload,
        ),
        ExportedDeclV::Var { kind, decls } => if all_idents(decls) {
            step_declarators(kind, decls, LowerSt { flag: true, ..st })
        } else {
            pass_item(st, ItemV::ExportDecl(d))
        },
        ExportedDeclV::Other(_) => pass_item(st, ItemV::ExportDecl(d)),
    }
}

/// Lower `export default <decl>`.
///
/// A named class or function becomes an ordinary declaration under its own
/// identifier; an anonymous one receives the synthetic name `default_N`
/// with a counter per declaration kind.  Either way an
/// `exports.default = identifier;` assignment follows.  The void chain is
/// never touched.  Any other shape passes through untouched.
pub open spec fn step_default_decl(d: DefaultDeclV, st: LowerSt) -> LowerSt {
    match d {
        DefaultDeclV::Class { name: Some(n), payload } => emit_default_decl(
            LowerSt { flag: true, ..st },
            DeclKind::Class,
            n,
            payload,
        ),
        DefaultDeclV::Class { name: None, payload } => emit_default_decl(
            LowerSt { flag: true, class_count: st.class_count + 1, ..st },
            DeclKind::Class,
            synth_name(st.class_count + 1),
            payload,
        ),
        DefaultDeclV::Func { name: Some(n), payload } => emit_default_decl(
            LowerSt { flag: true, ..st },
            DeclKind::Func,
            n,
            payload,
        ),
        DefaultDeclV::Func { name: None, payload } => emit_default_decl(
            LowerSt { flag: true, func_count: st.func_count + 1, ..st },
            DeclKind::Func,
            synth_name(st.func_count + 1),
            payload,
        ),
        DefaultDeclV::Other(_) => pass_item(st, ItemV::ExportDefaultDecl(d)),
    }
}

/// Lower `export * from "path"`: make sure the hoisted helper exists and
/// emit one call site.
pub open spec fn step_export_all(path: Seq<char>, st: LowerSt) -> LowerSt {
    LowerSt {
        flag: true,
        helper: true,
        tail: st.tail.push(ItemV::Stmt(StmtV::StarCall { path })),
        ..st
    }
}

/// Lower `export default <expr>;` into a bare `exports.default = expr;`.
pub open spec fn step_default_expr(value: u64, st: LowerSt) -> LowerSt {
    LowerSt {
        flag: true,
        tail: st.tail.push(
            ItemV::Stmt(StmtV::ExportAssign { key: "default"@, value: AssignedV::Expr(value) }),
        ),
        ..st
    }
}

/// Process one item: apply the pending splices to it, then dispatch on its
/// shape.
pub open spec fn step_item(raw: ItemV, st: LowerSt) -> LowerSt {
    let it = splice_all(st.pending, raw);
    let st0 = LowerSt { pending: Seq::empty(), ..st };
    match it {
        ItemV::Stmt(s) => pass_item(st0, ItemV::Stmt(s)),
        ItemV::ExportAll { path } => step_export_all(path, st0),
        ItemV::ExportDecl(d) => step_export_decl(d, st0),
        ItemV::ExportDefaultDecl(d) => step_default_decl(d, st0),
        ItemV::ExportDefaultExpr { value } => step_default_expr(value, st0),
    }
}

/// The fold state after processing `items`.
pub open spec fn lower_st(items: Seq<ItemV>) -> LowerSt
    decreases items.len(),
{
    if items.len() == 0 {
        init_st()
    } else {
        step_item(items.last(), lower_st(items.drop_last()))
    }
}

/// The prologue statements a state calls for: the ES-module flag first,
/// then the void chain, then the re-export-all helper.
pub open spec fn prologue(st: LowerSt) -> Seq<ItemV> {
    (if st.flag {
        seq![ItemV::Stmt(StmtV::EsModuleFlag)]
    } else {
        Seq::empty()
    }) + (if st.chain.len() > 0 {
        seq![ItemV::Stmt(StmtV::VoidChain(st.chain))]
    } else {
        Seq::empty()
    }) + (if st.helper {
        seq![ItemV::Stmt(StmtV::StarHelper)]
    } else {
        Seq::empty()
    })
}

/// The lowered module body.
pub open spec fn spec_lower(items: Seq<ItemV>) -> Seq<ItemV> {
    let st = lower_st(items);
    prologue(st) + st.tail
}

/// Is `itv` an enum-style call statement over exactly the name `nm`?
pub open spec fn is_matching_enum_call(itv: ItemV, nm: Seq<char>) -> bool {
    match itv {
        ItemV::Stmt(StmtV::EnumCall { name, rhs: _, payload: _ }) => name == nm,
        _ => false,
    }
}

/// Splicing the names `names.push(nm)` is splicing `names`, then `nm`.
pub proof fn lemma_splice_all_push(names: Seq<Seq<char>>, nm: Seq<char>, it: ItemV)
    ensures
        splice_all(names.push(nm), it) == splice_one(nm, splice_all(names, it)),
    decreases names.len(),
{
    if names.len() == 0 {
        assert(names.push(nm).drop_first() =~= Seq::<Seq<char>>::empty());
        assert(names.push(nm).first() == nm);
        assert(splice_all(names.push(nm), it) == splice_all(
            names.push(nm).drop_first(),
            splice_one(nm, it),
        ));
        assert(splice_all(names.push(nm), it) == splice_one(nm, it));
    } else {
        assert(names.push(nm).drop_first() =~= names.drop_first().push(nm));
        assert(names.push(nm).first() == names.first());
        assert(splice_all(names.push(nm), it) == splice_all(
            names.drop_first().push(nm),
            splice_one(names.first(), it),
        ));
        lemma_splice_all_push(names.drop_first(), nm, splice_one(names.first(), it));
        assert(splice_all(names, it) == splice_all(
            names.drop_first(),
            splice_one(names.first(), it),
        ));
    }
}

/// Lowering declarators never touches the synthetic-name counters.
pub proof fn lemma_step_declarators_counts(kind: VarKind, ds: Seq<DeclaratorV>, st: LowerSt)
    ensures
        step_declarators(kind, ds, st).class_count == st.class_count,
        step_declarators(kind, ds, st).func_count == st.func_count,
    decreases ds.len(),
{
    if ds.len() > 0 {
        lemma_step_declarators_counts(kind, ds.drop_last(), st);
    }
}

/// One step raises each synthetic-name counter by at most one.
pub proof fn lemma_step_item_counts(raw: ItemV, st: LowerSt)
    ensures
        step_item(raw, st).class_count <= st.class_count + 1,
        step_item(raw, st).func_count <= st.func_count + 1,
{
    let it = splice_all(st.pending, raw);
    let st0 = LowerSt { pending: Seq::empty(), ..st };
    match it {
        ItemV::ExportDecl(d) => match d {
            ExportedDeclV::Var { kind, decls } => {
                if all_idents(decls) {
                    lemma_step_declarators_counts(kind, decls, LowerSt { flag: true, ..st0 });
                }
            },
            _ => {},
        },
        _ => {},
    }
}

/// How long the prologue of a state is.
pub proof fn lemma_prologue_len(st: LowerSt)
    ensures
        prologue(st).len() == (if st.flag { 1int } else { 0 }) + (if st.chain.len() > 0 { 1int } else { 0 })
            + (if st.helper { 1int } else { 0 }),
{
}

} // verus!

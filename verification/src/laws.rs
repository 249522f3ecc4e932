//! Global properties of the lowering pass, proved from the functional
//! semantics in [`crate::lowering`].
//!
//! Each public proof function states one property of [`spec_lower`] over
//! every input module (a few exclude inputs that already contain one of
//! the pass's own synthetic statements, which no parsed source module
//! holds).

use vstd::prelude::*;
use crate::ast::{
    AssignedV, BindingV, DeclKind, DeclaratorV, DefaultDeclV, ExportedDeclV, ItemV, StmtV,
};
use crate::lowering::{
    all_idents, lower_st, prologue, spec_lower, splice_all, splice_one, step_declarator,
    step_declarators, step_item, LowerSt,
};
use crate::synth::{lemma_synth_name_injective, synth_name};

verus! {

/// Is `itv` the ES-module flag statement?
pub open spec fn is_flag(itv: ItemV) -> bool {
    itv == ItemV::Stmt(StmtV::EsModuleFlag)
}

/// Is `itv` a void-chain statement?
pub open spec fn is_void_chain(itv: ItemV) -> bool {
    itv matches ItemV::Stmt(StmtV::VoidChain(_))
}

/// Is `itv` the hoisted `exportStar` helper definition?
pub open spec fn is_star_helper(itv: ItemV) -> bool {
    itv == ItemV::Stmt(StmtV::StarHelper)
}

/// Is `itv` an `exportStar(require(path), exports);` call statement?
pub open spec fn is_star_call(itv: ItemV) -> bool {
    itv matches ItemV::Stmt(StmtV::StarCall { .. })
}

/// Is `itv` an `export * from "path";` construct?
pub open spec fn is_export_all(itv: ItemV) -> bool {
    itv matches ItemV::ExportAll { .. }
}

/// Splicing leaves every item other than an enum-style call untouched,
/// and never changes an item's statement shape.
pub proof fn lemma_splice_all_shape(names: Seq<Seq<char>>, it: ItemV)
    ensures
        !(it matches ItemV::Stmt(StmtV::EnumCall { .. })) ==> splice_all(names, it) == it,
        it matches ItemV::Stmt(StmtV::EnumCall { .. }) ==> splice_all(names, it) matches ItemV::Stmt(
            StmtV::EnumCall { .. },
        ),
    decreases names.len(),
{
    if names.len() > 0 {
        lemma_splice_all_shape(names.drop_first(), splice_one(names.first(), it));
    }
}

/// Lowering the declarators of one variable declaration only appends
/// retained declarations and export assignments to the tail, and touches
/// neither the flag, the helper nor the counters.
pub proof fn lemma_step_declarators_frame(kind: crate::ast::VarKind, ds: Seq<DeclaratorV>, st: LowerSt)
    ensures
        ({
            let r = step_declarators(kind, ds, st);
            &&& r.flag == st.flag
            &&& r.helper == st.helper
            &&& r.class_count == st.class_count
            &&& r.func_count == st.func_count
            &&& r.tail.len() >= st.tail.len()
            &&& (forall|j: int| 0 <= j < st.tail.len() ==> #[trigger] r.tail[j] == st.tail[j])
            &&& forall|j: int|
                st.tail.len() <= j < r.tail.len() ==> (#[trigger] r.tail[j] matches ItemV::Stmt(
                    StmtV::Decl { .. },
                ) || r.tail[j] matches ItemV::Stmt(StmtV::ExportAssign { .. }))
        }),
    decreases ds.len(),
{
    if ds.len() > 0 {
        lemma_step_declarators_frame(kind, ds.drop_last(), st);
        let mid = step_declarators(kind, ds.drop_last(), st);
        let r = step_declarators(kind, ds, st);
        assert(r == step_declarator(kind, ds.last(), mid));
    }
}

/// One step of the fold appends to the tail: the (possibly spliced) item
/// itself when it passes through, and otherwise only star-export calls,
/// retained declarations and export assignments.
pub proof fn lemma_step_item_additions(raw: ItemV, st: LowerSt)
    ensures
        ({
            let r = step_item(raw, st);
            let cur = splice_all(st.pending, raw);
            &&& r.tail.len() >= st.tail.len()
            &&& (forall|j: int| 0 <= j < st.tail.len() ==> #[trigger] r.tail[j] == st.tail[j])
            &&& forall|j: int|
                st.tail.len() <= j < r.tail.len() ==> (#[trigger] r.tail[j] == cur || r.tail[j] matches ItemV::Stmt(
                    StmtV::StarCall { .. },
                ) || r.tail[j] matches ItemV::Stmt(StmtV::Decl { .. }) || r.tail[j] matches ItemV::Stmt(
                    StmtV::ExportAssign { .. },
                ))
        }),
{
    let cur = splice_all(st.pending, raw);
    let st0 = LowerSt { pending: Seq::empty(), ..st };
    match cur {
        ItemV::ExportDecl(d) => match d {
            ExportedDeclV::Var { kind, decls } => {
                if all_idents(decls) {
                    lemma_step_declarators_frame(kind, decls, LowerSt { flag: true, ..st0 });
                }
            },
            _ => {},
        },
        _ => {},
    }
}

/// Which item of the prologue stands at which index.
pub proof fn lemma_prologue_items(st: LowerSt)
    ensures
        st.flag ==> prologue(st)[0] == ItemV::Stmt(StmtV::EsModuleFlag),
        forall|j: int|
            0 <= j < prologue(st).len() && is_flag(#[trigger] prologue(st)[j]) ==> j == 0 && st.flag,
        st.chain.len() > 0 ==> prologue(st)[if st.flag { 1int } else { 0 }] == ItemV::Stmt(
            StmtV::VoidChain(st.chain),
        ),
        forall|j: int|
            0 <= j < prologue(st).len() && is_void_chain(#[trigger] prologue(st)[j]) ==> j == (
            if st.flag {
                1int
            } else {
                0
            }) && st.chain.len() > 0,
        st.helper ==> prologue(st)[(if st.flag { 1int } else { 0 }) + (if st.chain.len() > 0 {
            1int
        } else {
            0
        })] == ItemV::Stmt(StmtV::StarHelper),
        forall|j: int|
            0 <= j < prologue(st).len() && is_star_helper(#[trigger] prologue(st)[j]) ==> j == (
            if st.flag {
                1int
            } else {
                0
            }) + (if st.chain.len() > 0 {
                1int
            } else {
                0
            }) && st.helper,
        forall|j: int| 0 <= j < prologue(st).len() ==> !is_star_call(#[trigger] prologue(st)[j]),
{
}

/// In every reachable fold state, a void chain or a helper implies the
/// flag.
pub proof fn lemma_lower_st_wf(items: Seq<ItemV>)
    ensures
        lower_st(items).chain.len() > 0 ==> lower_st(items).flag,
        lower_st(items).helper ==> lower_st(items).flag,
    decreases items.len(),
{
    if items.len() > 0 {
        lemma_lower_st_wf(items.drop_last());
        let st = lower_st(items.drop_last());
        let cur = splice_all(st.pending, items.last());
        let st0 = LowerSt { pending: Seq::empty(), ..st };
        match cur {
            ItemV::ExportDecl(d) => match d {
                ExportedDeclV::Var { kind, decls } => {
                    if all_idents(decls) {
                        lemma_step_declarators_frame(kind, decls, LowerSt { flag: true, ..st0 });
                    }
                },
                _ => {},
            },
            _ => {},
        }
    }
}

/// The lowered tail never contains a prologue singleton that the input
/// did not already contain.
pub proof fn lemma_tail_content(items: Seq<ItemV>)
    ensures
        (forall|k: int| 0 <= k < items.len() ==> !is_flag(#[trigger] items[k])) ==> (forall|j: int|
            0 <= j < lower_st(items).tail.len() ==> !is_flag(#[trigger] lower_st(items).tail[j])),
        (forall|k: int| 0 <= k < items.len() ==> !is_void_chain(#[trigger] items[k])) ==> (forall|
            j: int,
        |
            0 <= j < lower_st(items).tail.len() ==> !is_void_chain(
                #[trigger] lower_st(items).tail[j],
            )),
        (forall|k: int| 0 <= k < items.len() ==> !is_star_helper(#[trigger] items[k])) ==> (forall|
            j: int,
        |
            0 <= j < lower_st(items).tail.len() ==> !is_star_helper(
                #[trigger] lower_st(items).tail[j],
            )),
    decreases items.len(),
{
    if items.len() > 0 {
        lemma_tail_content(items.drop_last());
        let st = lower_st(items.drop_last());
        let tl = lower_st(items).tail;
        let raw = items.last();
        let cur = splice_all(st.pending, raw);
        lemma_splice_all_shape(st.pending, raw);
        lemma_step_item_additions(raw, st);
        assert forall|k: int|
            0 <= k < items.drop_last().len() implies #[trigger] items.drop_last()[k] == items[k] by {
        }
        assert(raw == items[items.len() - 1]);
        if forall|k: int| 0 <= k < items.len() ==> !is_flag(#[trigger] items[k]) {
            assert(!is_flag(raw));
            assert forall|j: int| 0 <= j < tl.len() implies !is_flag(tl[j]) by {
                if j >= st.tail.len() {
                    assert(tl[j] == cur || tl[j] matches ItemV::Stmt(StmtV::StarCall { .. })
                        || tl[j] matches ItemV::Stmt(StmtV::Decl { .. }) || tl[j] matches ItemV::Stmt(
                        StmtV::ExportAssign { .. },
                    ));
                }
            }
        }
        if forall|k: int| 0 <= k < items.len() ==> !is_void_chain(#[trigger] items[k]) {
            assert(!is_void_chain(raw));
            assert forall|j: int| 0 <= j < tl.len() implies !is_void_chain(tl[j]) by {
                if j >= st.tail.len() {
                    assert(tl[j] == cur || tl[j] matches ItemV::Stmt(StmtV::StarCall { .. })
                        || tl[j] matches ItemV::Stmt(StmtV::Decl { .. }) || tl[j] matches ItemV::Stmt(
                        StmtV::ExportAssign { .. },
                    ));
                }
            }
        }
        if forall|k: int| 0 <= k < items.len() ==> !is_star_helper(#[trigger] items[k]) {
            assert(!is_star_helper(raw));
            assert forall|j: int| 0 <= j < tl.len() implies !is_star_helper(tl[j]) by {
                if j >= st.tail.len() {
                    assert(tl[j] == cur || tl[j] matches ItemV::Stmt(StmtV::StarCall { .. })
                        || tl[j] matches ItemV::Stmt(StmtV::Decl { .. }) || tl[j] matches ItemV::Stmt(
                        StmtV::ExportAssign { .. },
                    ));
                }
            }
        }
    }
}

/// The ES-module flag appears at most once in the lowered module, and
/// always at index 0 — however many export constructs the module holds.
pub proof fn lemma_es_module_flag_at_top(items: Seq<ItemV>)
    requires
        forall|k: int| 0 <= k < items.len() ==> !is_flag(#[trigger] items[k]),
    ensures
        forall|j: int|
            0 <= j < spec_lower(items).len() && is_flag(#[trigger] spec_lower(items)[j]) ==> j
                == 0,
{
    let st = lower_st(items);
    let out = spec_lower(items);
    lemma_tail_content(items);
    lemma_prologue_items(st);
    assert forall|j: int| 0 <= j < out.len() && is_flag(out[j]) implies j == 0 by {
        if j >= prologue(st).len() {
            assert(out[j] == st.tail[j - prologue(st).len()]);
        } else {
            assert(out[j] == prologue(st)[j]);
        }
    }
}

/// The names a declarator list contributes to the void chain, in source
/// order.
pub open spec fn decl_names(ds: Seq<DeclaratorV>) -> Seq<Seq<char>>
    decreases ds.len(),
{
    if ds.len() == 0 {
        Seq::empty()
    } else {
        decl_names(ds.drop_last()) + (match ds.last().name {
            BindingV::Ident(n) => seq![n],
            BindingV::Pattern(_) => Seq::empty(),
        })
    }
}

/// The names one item registers in the void chain.
pub open spec fn names_of_item(itv: ItemV) -> Seq<Seq<char>> {
    match itv {
        ItemV::ExportDecl(ExportedDeclV::Class { name, payload: _ }) => seq![name],
        ItemV::ExportDecl(ExportedDeclV::Func { name, payload: _ }) => seq![name],
        ItemV::ExportDecl(ExportedDeclV::Var { kind: _, decls }) => if all_idents(decls) {
            decl_names(decls)
        } else {
            Seq::empty()
        },
        _ => Seq::empty(),
    }
}

/// All names the module's named exports register, in encounter order.
pub open spec fn export_names(items: Seq<ItemV>) -> Seq<Seq<char>>
    decreases items.len(),
{
    if items.len() == 0 {
        Seq::empty()
    } else {
        export_names(items.drop_last()) + names_of_item(items.last())
    }
}

/// Lowering a declarator list appends exactly its names to the chain.
proof fn lemma_step_declarators_chain(kind: crate::ast::VarKind, ds: Seq<DeclaratorV>, st: LowerSt)
    ensures
        step_declarators(kind, ds, st).chain == st.chain + decl_names(ds),
    decreases ds.len(),
{
    if ds.len() == 0 {
        assert(st.chain + decl_names(ds) =~= st.chain);
    } else {
        lemma_step_declarators_chain(kind, ds.drop_last(), st);
        let mid = step_declarators(kind, ds.drop_last(), st);
        match ds.last().name {
            BindingV::Ident(n) => {
                assert(step_declarators(kind, ds, st).chain =~= st.chain + decl_names(ds));
            },
            BindingV::Pattern(_) => {
                assert(step_declarators(kind, ds, st).chain =~= st.chain + decl_names(ds));
            },
        }
    }
}

/// The void chain holds exactly the names of the module's named exports,
/// in encounter order.
pub proof fn lemma_chain_names(items: Seq<ItemV>)
    ensures
        lower_st(items).chain == export_names(items),
    decreases items.len(),
{
    if items.len() == 0 {
        assert(lower_st(items).chain =~= export_names(items));
    } else {
        lemma_chain_names(items.drop_last());
        let st = lower_st(items.drop_last());
        let raw = items.last();
        let cur = splice_all(st.pending, raw);
        let st0 = LowerSt { pending: Seq::empty(), ..st };
        lemma_splice_all_shape(st.pending, raw);
        match cur {
            ItemV::ExportDecl(d) => match d {
                ExportedDeclV::Var { kind, decls } => {
                    if all_idents(decls) {
                        lemma_step_declarators_chain(kind, decls, LowerSt { flag: true, ..st0 });
                    }
                },
                _ => {},
            },
            _ => {},
        }
        assert(names_of_item(raw) == names_of_item(cur));
        assert(lower_st(items).chain =~= export_names(items));
    }
}

/// When the module has named exports the void chain stands exactly once,
/// at index 1, right after the flag, and pre-declares exactly the export
/// names in encounter order; with no named exports there is no void
/// chain at all.
pub proof fn lemma_void_chain_unique(items: Seq<ItemV>)
    requires
        forall|k: int| 0 <= k < items.len() ==> !is_void_chain(#[trigger] items[k]),
    ensures
        export_names(items).len() == 0 ==> forall|j: int|
            0 <= j < spec_lower(items).len() ==> !is_void_chain(#[trigger] spec_lower(items)[j]),
        export_names(items).len() > 0 ==> {
            &&& spec_lower(items).len() >= 2
            &&& is_flag(spec_lower(items)[0])
            &&& spec_lower(items)[1] == ItemV::Stmt(StmtV::VoidChain(export_names(items)))
            &&& forall|j: int|
                0 <= j < spec_lower(items).len() && j != 1 ==> !is_void_chain(
                    #[trigger] spec_lower(items)[j],
                )
        },
{
    let st = lower_st(items);
    let out = spec_lower(items);
    lemma_chain_names(items);
    lemma_lower_st_wf(items);
    lemma_tail_content(items);
    lemma_prologue_items(st);
    assert forall|j: int|
        0 <= j < out.len() && j != (if st.flag { 1int } else { 0 }) implies !is_void_chain(
        out[j],
    ) by {
        if j >= prologue(st).len() {
            assert(out[j] == st.tail[j - prologue(st).len()]);
        } else {
            assert(out[j] == prologue(st)[j]);
        }
    }
    if st.chain.len() > 0 {
        assert(out[1] == prologue(st)[1]);
        assert(out[0] == prologue(st)[0]);
    }
}

/// The tail only grows as the fold advances, and what is already there
/// stays in place.
pub proof fn lemma_tail_monotone(items: Seq<ItemV>, i: int, j: int)
    requires
        0 <= i <= j <= items.len(),
    ensures
        lower_st(items.take(i)).tail.len() <= lower_st(items.take(j)).tail.len(),
        forall|q: int|
            0 <= q < lower_st(items.take(i)).tail.len() ==> #[trigger] lower_st(
                items.take(j),
            ).tail[q] == lower_st(items.take(i)).tail[q],
    decreases j - i,
{
    if i < j {
        lemma_tail_monotone(items, i, j - 1);
        let st = lower_st(items.take(j - 1));
        assert(items.take(j).drop_last() =~= items.take(j - 1));
        assert(items.take(j).last() == items[j - 1]);
        assert(lower_st(items.take(j)) == step_item(items[j - 1], st));
        lemma_step_item_additions(items[j - 1], st);
    }
}

/// A non-export statement lands in the lowered module at a computable
/// position: after the prologue and after everything the items before it
/// produced — possibly with the enum-style splice applied, otherwise
/// exactly as it stood.
pub proof fn lemma_stmt_position(items: Seq<ItemV>, k: int)
    requires
        0 <= k < items.len(),
        items[k] matches ItemV::Stmt(_),
    ensures
        ({
            let p = prologue(lower_st(items)).len() + lower_st(items.take(k)).tail.len() as int;
            &&& 0 <= p < spec_lower(items).len()
            &&& spec_lower(items)[p as int] == splice_all(lower_st(items.take(k)).pending, items[k])
        }),
{
    let st = lower_st(items.take(k));
    let cur = splice_all(st.pending, items[k]);
    lemma_splice_all_shape(st.pending, items[k]);
    assert(items.take(k + 1).drop_last() =~= items.take(k));
    assert(items.take(k + 1).last() == items[k]);
    assert(lower_st(items.take(k + 1)) == step_item(items[k], st));
    assert(lower_st(items.take(k + 1)).tail == st.tail.push(cur));
    lemma_tail_monotone(items, k + 1, items.len() as int);
    assert(items.take(items.len() as int) =~= items);
    assert(lower_st(items).tail[st.tail.len() as int] == cur);
}

/// Non-export statements keep their relative order: the one that stood
/// earlier in the source stands earlier in the lowered module, with all
/// statements lowered from constructs between them staying between them.
pub proof fn lemma_stmt_order(items: Seq<ItemV>, k1: int, k2: int)
    requires
        0 <= k1 < k2 < items.len(),
        items[k1] matches ItemV::Stmt(_),
        items[k2] matches ItemV::Stmt(_),
    ensures
        ({
            let out = spec_lower(items);
            let p1 = prologue(lower_st(items)).len() + lower_st(items.take(k1)).tail.len() as int;
            let p2 = prologue(lower_st(items)).len() + lower_st(items.take(k2)).tail.len() as int;
            &&& 0 <= p1 < p2 < out.len()
            &&& out[p1 as int] == splice_all(lower_st(items.take(k1)).pending, items[k1])
            &&& out[p2 as int] == splice_all(lower_st(items.take(k2)).pending, items[k2])
        }),
{
    lemma_stmt_position(items, k1);
    lemma_stmt_position(items, k2);
    let st1 = lower_st(items.take(k1));
    lemma_splice_all_shape(st1.pending, items[k1]);
    assert(items.take(k1 + 1).drop_last() =~= items.take(k1));
    assert(items.take(k1 + 1).last() == items[k1]);
    assert(lower_st(items.take(k1 + 1)).tail == st1.tail.push(
        splice_all(st1.pending, items[k1]),
    ));
    lemma_tail_monotone(items, k1 + 1, k2);
}

/// An exported variable whose initializer is a class, function or arrow
/// expression keeps its declaration, followed by `exports.name = name;`.
pub proof fn lemma_retained_initializer(
    items: Seq<ItemV>,
    k: int,
    kind: crate::ast::VarKind,
    n: Seq<char>,
    p: u64,
)
    requires
        0 <= k < items.len(),
        items[k] == ItemV::ExportDecl(
            ExportedDeclV::Var {
                kind,
                decls: seq![DeclaratorV { name: BindingV::Ident(n), init: Some(crate::ast::Init::ArrowExpr(p)) }],
            },
        ),
    ensures
        lower_st(items.take(k + 1)).tail == lower_st(items.take(k)).tail + seq![
            ItemV::Stmt(StmtV::Decl { kind: DeclKind::Var(kind), name: n, payload: p }),
            ItemV::Stmt(StmtV::ExportAssign { key: n, value: AssignedV::Ident(n) }),
        ],
        lower_st(items.take(k + 1)).chain == lower_st(items.take(k)).chain.push(n),
{
    let st = lower_st(items.take(k));
    lemma_splice_all_shape(st.pending, items[k]);
    assert(items.take(k + 1).drop_last() =~= items.take(k));
    assert(items.take(k + 1).last() == items[k]);
    let d = DeclaratorV { name: BindingV::Ident(n), init: Some(crate::ast::Init::ArrowExpr(p)) };
    let ds = seq![d];
    assert(all_idents(ds));
    assert(ds.drop_last() =~= Seq::<DeclaratorV>::empty());
    let st0 = LowerSt { pending: Seq::empty(), ..st };
    let stf = LowerSt { flag: true, ..st0 };
    assert(step_declarators(kind, ds.drop_last(), stf) == stf);
    assert(step_declarators(kind, ds, stf) == step_declarator(kind, d, stf));
    assert(lower_st(items.take(k + 1)) == step_declarators(kind, ds, stf));
    assert(lower_st(items.take(k + 1)).tail =~= st.tail + seq![
        ItemV::Stmt(StmtV::Decl { kind: DeclKind::Var(kind), name: n, payload: p }),
        ItemV::Stmt(StmtV::ExportAssign { key: n, value: AssignedV::Ident(n) }),
    ]);
}

/// An exported variable with any other initializer collapses into a bare
/// `exports.name = init;`, with no local binding retained.
pub proof fn lemma_collapsed_initializer(
    items: Seq<ItemV>,
    k: int,
    kind: crate::ast::VarKind,
    n: Seq<char>,
    p: u64,
)
    requires
        0 <= k < items.len(),
        items[k] == ItemV::ExportDecl(
            ExportedDeclV::Var {
                kind,
                decls: seq![DeclaratorV { name: BindingV::Ident(n), init: Some(crate::ast::Init::Plain(p)) }],
            },
        ),
    ensures
        lower_st(items.take(k + 1)).tail == lower_st(items.take(k)).tail + seq![
            ItemV::Stmt(StmtV::ExportAssign { key: n, value: AssignedV::Expr(p) }),
        ],
        lower_st(items.take(k + 1)).chain == lower_st(items.take(k)).chain.push(n),
{
    let st = lower_st(items.take(k));
    lemma_splice_all_shape(st.pending, items[k]);
    assert(items.take(k + 1).drop_last() =~= items.take(k));
    assert(items.take(k + 1).last() == items[k]);
    let d = DeclaratorV { name: BindingV::Ident(n), init: Some(crate::ast::Init::Plain(p)) };
    let ds = seq![d];
    assert(all_idents(ds));
    assert(ds.drop_last() =~= Seq::<DeclaratorV>::empty());
    let st0 = LowerSt { pending: Seq::empty(), ..st };
    let stf = LowerSt { flag: true, ..st0 };
    assert(step_declarators(kind, ds.drop_last(), stf) == stf);
    assert(step_declarators(kind, ds, stf) == step_declarator(kind, d, stf));
    assert(lower_st(items.take(k + 1)) == step_declarators(kind, ds, stf));
    assert(lower_st(items.take(k + 1)).tail =~= st.tail + seq![
        ItemV::Stmt(StmtV::ExportAssign { key: n, value: AssignedV::Expr(p) }),
    ]);
}

/// A no-initializer declarator followed by an enum-style call over the
/// same name emits no statement of its own: the export is spliced into
/// the call's argument when that call is passed through, and the name
/// still joins the void chain.
pub proof fn lemma_enum_splice(items: Seq<ItemV>, k: int, kind: crate::ast::VarKind, n: Seq<char>)
    requires
        0 <= k,
        k + 1 < items.len(),
        items[k] == ItemV::ExportDecl(
            ExportedDeclV::Var {
                kind,
                decls: seq![DeclaratorV { name: BindingV::Ident(n), init: None }],
            },
        ),
        items[k + 1] matches ItemV::Stmt(StmtV::EnumCall { .. }),
    ensures
        lower_st(items.take(k + 1)).tail == lower_st(items.take(k)).tail,
        lower_st(items.take(k + 1)).chain == lower_st(items.take(k)).chain.push(n),
        lower_st(items.take(k + 2)).tail == lower_st(items.take(k + 1)).tail.push(
            splice_one(n, items[k + 1]),
        ),
{
    let st = lower_st(items.take(k));
    lemma_splice_all_shape(st.pending, items[k]);
    assert(items.take(k + 1).drop_last() =~= items.take(k));
    assert(items.take(k + 1).last() == items[k]);
    let d = DeclaratorV { name: BindingV::Ident(n), init: None };
    let ds = seq![d];
    assert(all_idents(ds));
    assert(ds.drop_last() =~= Seq::<DeclaratorV>::empty());
    let st0 = LowerSt { pending: Seq::empty(), ..st };
    let stf = LowerSt { flag: true, ..st0 };
    assert(step_declarators(kind, ds.drop_last(), stf) == stf);
    assert(step_declarators(kind, ds, stf) == step_declarator(kind, d, stf));
    assert(lower_st(items.take(k + 1)) == step_declarators(kind, ds, stf));
    let st1 = lower_st(items.take(k + 1));
    assert(st1.pending =~= seq![n]);
    assert(items.take(k + 2).drop_last() =~= items.take(k + 1));
    assert(items.take(k + 2).last() == items[k + 1]);
    assert(st1.pending.drop_first() =~= Seq::<Seq<char>>::empty());
    assert(splice_all(st1.pending.drop_first(), splice_one(st1.pending.first(), items[k + 1]))
        == splice_one(st1.pending.first(), items[k + 1]));
    assert(splice_all(st1.pending, items[k + 1]) == splice_one(n, items[k + 1]));
    lemma_splice_all_shape(st1.pending, items[k + 1]);
}

/// `export default <expr>;` lowers to exactly `exports.default = expr;`,
/// and the module carries the ES-module flag from that point on.
pub proof fn lemma_default_expr_emission(items: Seq<ItemV>, k: int, v: u64)
    requires
        0 <= k < items.len(),
        items[k] == (ItemV::ExportDefaultExpr { value: v }),
    ensures
        lower_st(items.take(k + 1)).tail == lower_st(items.take(k)).tail + seq![
            ItemV::Stmt(StmtV::ExportAssign { key: "default"@, value: AssignedV::Expr(v) }),
        ],
        lower_st(items.take(k + 1)).flag,
        lower_st(items.take(k + 1)).chain == lower_st(items.take(k)).chain,
{
    let st = lower_st(items.take(k));
    lemma_splice_all_shape(st.pending, items[k]);
    assert(items.take(k + 1).drop_last() =~= items.take(k));
    assert(items.take(k + 1).last() == items[k]);
    assert(lower_st(items.take(k + 1)).tail =~= st.tail + seq![
        ItemV::Stmt(StmtV::ExportAssign { key: "default"@, value: AssignedV::Expr(v) }),
    ]);
}

/// Is `itv` an anonymous default export of declaration kind `kind`?
pub open spec fn is_anon_default(itv: ItemV, kind: DeclKind) -> bool {
    match kind {
        DeclKind::Class => itv matches ItemV::ExportDefaultDecl(
            DefaultDeclV::Class { name: None, .. },
        ),
        DeclKind::Func => itv matches ItemV::ExportDefaultDecl(
            DefaultDeclV::Func { name: None, .. },
        ),
        DeclKind::Var(_) => false,
    }
}

/// How many anonymous defaults of kind `kind` a sequence holds.
pub open spec fn count_anon(items: Seq<ItemV>, kind: DeclKind) -> nat {
    items.filter(|it: ItemV| is_anon_default(it, kind)).len()
}

/// The payload behind a default declaration.
pub open spec fn default_payload_of(itv: ItemV) -> u64 {
    match itv {
        ItemV::ExportDefaultDecl(DefaultDeclV::Class { name: _, payload }) => payload,
        ItemV::ExportDefaultDecl(DefaultDeclV::Func { name: _, payload }) => payload,
        _ => 0,
    }
}

/// The synthetic name the anonymous default at index `k` receives.
pub open spec fn anon_name_at(items: Seq<ItemV>, k: int, kind: DeclKind) -> Seq<char> {
    synth_name(count_anon(items.take(k), kind) + 1)
}

/// The per-kind counters of the fold count exactly the anonymous
/// defaults of that kind — each kind independently of the other.
pub proof fn lemma_anon_counts(items: Seq<ItemV>)
    ensures
        lower_st(items).class_count == count_anon(items, DeclKind::Class),
        lower_st(items).func_count == count_anon(items, DeclKind::Func),
    decreases items.len(),
{
    reveal(Seq::filter);
    if items.len() > 0 {
        lemma_anon_counts(items.drop_last());
        let st = lower_st(items.drop_last());
        let raw = items.last();
        let cur = splice_all(st.pending, raw);
        let st0 = LowerSt { pending: Seq::empty(), ..st };
        lemma_splice_all_shape(st.pending, raw);
        match cur {
            ItemV::ExportDecl(d) => match d {
                ExportedDeclV::Var { kind, decls } => {
                    if all_idents(decls) {
                        lemma_step_declarators_frame(kind, decls, LowerSt { flag: true, ..st0 });
                    }
                },
                _ => {},
            },
            _ => {},
        }
        assert(is_anon_default(cur, DeclKind::Class) == is_anon_default(raw, DeclKind::Class));
        assert(is_anon_default(cur, DeclKind::Func) == is_anon_default(raw, DeclKind::Func));
    }
}

/// An anonymous default at index `k` lowers to a declaration under the
/// synthetic name `default_N` — `N` counting the anonymous defaults of
/// the same kind before it — followed by `exports.default` of that name.
pub proof fn lemma_anon_default_emission(items: Seq<ItemV>, k: int, kind: DeclKind)
    requires
        0 <= k < items.len(),
        is_anon_default(items[k], kind),
    ensures
        ({
            let st = lower_st(items.take(k));
            let nm = anon_name_at(items, k, kind);
            lower_st(items.take(k + 1)).tail == st.tail + seq![
                ItemV::Stmt(
                    StmtV::Decl { kind, name: nm, payload: default_payload_of(items[k]) },
                ),
                ItemV::Stmt(StmtV::ExportAssign { key: "default"@, value: AssignedV::Ident(nm) }),
            ]
        }),
{
    let st = lower_st(items.take(k));
    let raw = items[k];
    let cur = splice_all(st.pending, raw);
    lemma_splice_all_shape(st.pending, raw);
    lemma_anon_counts(items.take(k));
    assert(items.take(k + 1).drop_last() =~= items.take(k));
    assert(items.take(k + 1).last() == items[k]);
    assert(lower_st(items.take(k + 1)) == step_item(raw, st));
    let nm = anon_name_at(items, k, kind);
    assert(lower_st(items.take(k + 1)).tail =~= st.tail + seq![
        ItemV::Stmt(StmtV::Decl { kind, name: nm, payload: default_payload_of(items[k]) }),
        ItemV::Stmt(StmtV::ExportAssign { key: "default"@, value: AssignedV::Ident(nm) }),
    ]);
}

/// Counting with any predicate only grows along the sequence.
proof fn lemma_count_mono(items: Seq<ItemV>, pred: spec_fn(ItemV) -> bool, i: int, j: int)
    requires
        0 <= i <= j <= items.len(),
    ensures
        items.take(i).filter(pred).len() <= items.take(j).filter(pred).len(),
    decreases j - i,
{
    reveal(Seq::filter);
    if i < j {
        lemma_count_mono(items, pred, i, j - 1);
        assert(items.take(j).drop_last() =~= items.take(j - 1));
    }
}

/// Two anonymous defaults of the same declaration kind receive distinct
/// synthetic names; the counters of the two kinds never interfere, since
/// each counts only its own kind.
pub proof fn lemma_anon_default_names_distinct(items: Seq<ItemV>, k1: int, k2: int, kind: DeclKind)
    requires
        0 <= k1 < k2 < items.len(),
        is_anon_default(items[k1], kind),
        is_anon_default(items[k2], kind),
    ensures
        anon_name_at(items, k1, kind) != anon_name_at(items, k2, kind),
{
    reveal(Seq::filter);
    let pred = |it: ItemV| is_anon_default(it, kind);
    let c1 = items.take(k1).filter(pred).len();
    let c2 = items.take(k2).filter(pred).len();
    assert(items.take(k1 + 1).drop_last() =~= items.take(k1));
    assert(items.take(k1 + 1).last() == items[k1]);
    assert(items.take(k1 + 1).filter(pred).len() == c1 + 1);
    lemma_count_mono(items, pred, k1 + 1, k2);
    assert(c1 + 1 <= c2);
    lemma_synth_name_injective(c1 + 1, c2 + 1);
}

/// How many `export * from` constructs a sequence holds.
pub open spec fn count_export_alls(items: Seq<ItemV>) -> nat {
    items.filter(|it: ItemV| is_export_all(it)).len()
}

/// How many star-export call statements a sequence holds.
pub open spec fn count_star_calls(items: Seq<ItemV>) -> nat {
    items.filter(|it: ItemV| is_star_call(it)).len()
}

/// A sequence with no matching element filters to nothing.
proof fn lemma_filter_none(s: Seq<ItemV>, pred: spec_fn(ItemV) -> bool)
    requires
        forall|q: int| 0 <= q < s.len() ==> !pred(#[trigger] s[q]),
    ensures
        s.filter(pred).len() == 0,
    decreases s.len(),
{
    reveal(Seq::filter);
    if s.len() > 0 {
        lemma_filter_none(s.drop_last(), pred);
    }
}

/// Filtering a pushed element adds one match or none.
proof fn lemma_count_push(s: Seq<ItemV>, x: ItemV, pred: spec_fn(ItemV) -> bool)
    ensures
        s.push(x).filter(pred).len() == s.filter(pred).len() + (if pred(x) {
            1nat
        } else {
            0
        }),
{
    reveal(Seq::filter);
    assert(s.push(x).drop_last() =~= s);
}

/// Lowering declarators adds no star-export call.
proof fn lemma_declarators_star_count(kind: crate::ast::VarKind, ds: Seq<DeclaratorV>, st: LowerSt)
    ensures
        count_star_calls(step_declarators(kind, ds, st).tail) == count_star_calls(st.tail),
    decreases ds.len(),
{
    if ds.len() > 0 {
        lemma_declarators_star_count(kind, ds.drop_last(), st);
        let mid = step_declarators(kind, ds.drop_last(), st);
        let pred = |it: ItemV| is_star_call(it);
        match ds.last().name {
            BindingV::Ident(n) => {
                match ds.last().init {
                    Some(crate::ast::Init::ClassExpr(p)) => {
                        lemma_count_push(mid.tail, ItemV::Stmt(StmtV::Decl { kind: DeclKind::Var(kind), name: n, payload: p }), pred);
                        lemma_count_push(mid.tail.push(ItemV::Stmt(StmtV::Decl { kind: DeclKind::Var(kind), name: n, payload: p })), ItemV::Stmt(StmtV::ExportAssign { key: n, value: AssignedV::Ident(n) }), pred);
                    },
                    Some(crate::ast::Init::FuncExpr(p)) => {
                        lemma_count_push(mid.tail, ItemV::Stmt(StmtV::Decl { kind: DeclKind::Var(kind), name: n, payload: p }), pred);
                        lemma_count_push(mid.tail.push(ItemV::Stmt(StmtV::Decl { kind: DeclKind::Var(kind), name: n, payload: p })), ItemV::Stmt(StmtV::ExportAssign { key: n, value: AssignedV::Ident(n) }), pred);
                    },
                    Some(crate::ast::Init::ArrowExpr(p)) => {
                        lemma_count_push(mid.tail, ItemV::Stmt(StmtV::Decl { kind: DeclKind::Var(kind), name: n, payload: p }), pred);
                        lemma_count_push(mid.tail.push(ItemV::Stmt(StmtV::Decl { kind: DeclKind::Var(kind), name: n, payload: p })), ItemV::Stmt(StmtV::ExportAssign { key: n, value: AssignedV::Ident(n) }), pred);
                    },
                    Some(crate::ast::Init::Plain(p)) => {
                        lemma_count_push(mid.tail, ItemV::Stmt(StmtV::ExportAssign { key: n, value: AssignedV::Expr(p) }), pred);
                    },
                    None => {},
                }
            },
            BindingV::Pattern(_) => {},
        }
    }
}

/// The helper exists exactly when the module holds a star export.
pub proof fn lemma_helper_iff(items: Seq<ItemV>)
    ensures
        lower_st(items).helper == (count_export_alls(items) > 0),
    decreases items.len(),
{
    reveal(Seq::filter);
    if items.len() > 0 {
        lemma_helper_iff(items.drop_last());
        let st = lower_st(items.drop_last());
        let raw = items.last();
        let cur = splice_all(st.pending, raw);
        let st0 = LowerSt { pending: Seq::empty(), ..st };
        lemma_splice_all_shape(st.pending, raw);
        match cur {
            ItemV::ExportDecl(d) => match d {
                ExportedDeclV::Var { kind, decls } => {
                    if all_idents(decls) {
                        lemma_step_declarators_frame(kind, decls, LowerSt { flag: true, ..st0 });
                    }
                },
                _ => {},
            },
            _ => {},
        }
        assert(is_export_all(cur) == is_export_all(raw));
    }
}

/// The lowered tail holds one star-export call per `export * from`.
proof fn lemma_tail_star_count(items: Seq<ItemV>)
    requires
        forall|k: int| 0 <= k < items.len() ==> !is_star_call(#[trigger] items[k]),
    ensures
        count_star_calls(lower_st(items).tail) == count_export_alls(items),
    decreases items.len(),
{
    reveal(Seq::filter);
    let pred = |it: ItemV| is_star_call(it);
    if items.len() > 0 {
        assert(forall|k: int|
            0 <= k < items.drop_last().len() ==> !is_star_call(#[trigger] items.drop_last()[k]));
        lemma_tail_star_count(items.drop_last());
        let st = lower_st(items.drop_last());
        let raw = items.last();
        let cur = splice_all(st.pending, raw);
        let st0 = LowerSt { pending: Seq::empty(), ..st };
        lemma_splice_all_shape(st.pending, raw);
        assert(raw == items[items.len() - 1]);
        assert(!is_star_call(raw));
        match cur {
            ItemV::Stmt(stm) => {
                lemma_count_push(st0.tail, cur, pred);
            },
            ItemV::ExportAll { path } => {
                lemma_count_push(st0.tail, ItemV::Stmt(StmtV::StarCall { path }), pred);
            },
            ItemV::ExportDecl(d) => match d {
                ExportedDeclV::Class { name, payload } => {
                    lemma_count_push(st0.tail, ItemV::Stmt(StmtV::Decl { kind: DeclKind::Class, name, payload }), pred);
                    lemma_count_push(st0.tail.push(ItemV::Stmt(StmtV::Decl { kind: DeclKind::Class, name, payload })), ItemV::Stmt(StmtV::ExportAssign { key: name, value: AssignedV::Ident(name) }), pred);
                },
                ExportedDeclV::Func { name, payload } => {
                    lemma_count_push(st0.tail, ItemV::Stmt(StmtV::Decl { kind: DeclKind::Func, name, payload }), pred);
                    lemma_count_push(st0.tail.push(ItemV::Stmt(StmtV::Decl { kind: DeclKind::Func, name, payload })), ItemV::Stmt(StmtV::ExportAssign { key: name, value: AssignedV::Ident(name) }), pred);
                },
                ExportedDeclV::Var { kind, decls } => {
                    if all_idents(decls) {
                        lemma_declarators_star_count(kind, decls, LowerSt { flag: true, ..st0 });
                    } else {
                        lemma_count_push(st0.tail, cur, pred);
                    }
                },
                ExportedDeclV::Other(_) => {
                    lemma_count_push(st0.tail, cur, pred);
                },
            },
            ItemV::ExportDefaultDecl(d) => match d {
                DefaultDeclV::Other(_) => {
                    lemma_count_push(st0.tail, cur, pred);
                },
                _ => {
                    let r = step_item(raw, st);
                    assert(r.tail == st0.tail.push(r.tail[st0.tail.len() as int]).push(
                        r.tail[st0.tail.len() + 1int],
                    )) by {
                        assert(r.tail =~= st0.tail.push(r.tail[st0.tail.len() as int]).push(
                            r.tail[st0.tail.len() + 1int],
                        ));
                    }
                    lemma_count_push(st0.tail, r.tail[st0.tail.len() as int], pred);
                    lemma_count_push(st0.tail.push(r.tail[st0.tail.len() as int]), r.tail[st0.tail.len() + 1int], pred);
                },
            },
            ItemV::ExportDefaultExpr { value } => {
                lemma_count_push(st0.tail, ItemV::Stmt(StmtV::ExportAssign { key: "default"@, value: AssignedV::Expr(value) }), pred);
            },
        }
    }
}

/// However many `export * from` constructs a module holds, the lowered
/// module defines the helper exactly once, before every call site, and
/// holds exactly one call statement per construct.
pub proof fn lemma_export_star(items: Seq<ItemV>)
    requires
        forall|k: int| 0 <= k < items.len() ==> !is_star_call(#[trigger] items[k]),
        forall|k: int| 0 <= k < items.len() ==> !is_star_helper(#[trigger] items[k]),
    ensures
        ({
            let out = spec_lower(items);
            &&& count_star_calls(out) == count_export_alls(items)
            &&& count_export_alls(items) == 0 ==> forall|j: int|
                0 <= j < out.len() ==> !is_star_helper(#[trigger] out[j])
            &&& count_export_alls(items) > 0 ==> {
                let hp = 1int + (if lower_st(items).chain.len() > 0 {
                    1int
                } else {
                    0
                });
                &&& 0 <= hp < out.len()
                &&& out[hp] == ItemV::Stmt(StmtV::StarHelper)
                &&& (forall|j: int|
                    0 <= j < out.len() && j != hp ==> !is_star_helper(#[trigger] out[j]))
                &&& (forall|j: int|
                    0 <= j < out.len() && is_star_call(#[trigger] out[j]) ==> hp < j)
            }
        }),
{
    let st = lower_st(items);
    let out = spec_lower(items);
    let pred = |it: ItemV| is_star_call(it);
    lemma_helper_iff(items);
    lemma_lower_st_wf(items);
    lemma_tail_star_count(items);
    lemma_tail_content(items);
    lemma_prologue_items(st);
    Seq::filter_distributes_over_add(prologue(st), st.tail, pred);
    lemma_filter_none(prologue(st), pred);
    assert(count_star_calls(out) == count_star_calls(st.tail)) by {
        assert(out.filter(pred) =~= prologue(st).filter(pred) + st.tail.filter(pred));
    }
    assert forall|j: int| 0 <= j < out.len() && is_star_call(out[j]) implies j >= prologue(
        st,
    ).len() by {
        if j < prologue(st).len() {
            assert(out[j] == prologue(st)[j]);
        }
    }
    if count_export_alls(items) > 0 {
        assert(st.flag);
        assert(out[(if st.flag { 1int } else { 0 }) + (if st.chain.len() > 0 {
            1int
        } else {
            0
        })] == prologue(st)[(if st.flag { 1int } else { 0 }) + (if st.chain.len() > 0 {
            1int
        } else {
            0
        })]);
        assert forall|j: int|
            0 <= j < out.len() && j != 1int + (if st.chain.len() > 0 {
                1int
            } else {
                0
            }) implies !is_star_helper(out[j]) by {
            if j >= prologue(st).len() {
                assert(out[j] == st.tail[j - prologue(st).len()]);
            } else {
                assert(out[j] == prologue(st)[j]);
            }
        }
    } else {
        assert forall|j: int| 0 <= j < out.len() implies !is_star_helper(out[j]) by {
            if j >= prologue(st).len() {
                assert(out[j] == st.tail[j - prologue(st).len()]);
            } else {
                assert(out[j] == prologue(st)[j]);
            }
        }
    }
}

} // verus!

//! The executable lowering pass.
//!
//! [`ModuleExportsVisitor`] walks the working sequence once.  For each
//! export construct it first makes sure the prologue singletons exist —
//! inserting the ES-module flag at index 0, creating or extending the void
//! chain at index 1, hoisting the `exportStar` helper — while a cursor
//! tracks the construct's own position as those insertions shift it; the
//! construct's replacement statements are then inserted at the cursor.
//!
//! Every method is specified against the fold state of
//! [`crate::lowering`], and the driver [`module_exports_transform`] is
//! proved to return exactly [`spec_lower`] of its input.

use vstd::prelude::*;
use crate::ast::{
    lemma_seq_dv_insert, lemma_seq_dv_push, lemma_seq_dv_remove, lemma_vec_dv, seq_dv, Assigned,
    Binding, BindingV, DeclKind, Declarator, DeclaratorV, DefaultDecl, DefaultDeclV, EnumArg,
    ExportedDecl, Init, ItemV, ModuleItem, Stmt, StmtV, VarKind,
};
use crate::lowering::{
    all_idents, emit_decl_and_assign, init_st, is_matching_enum_call, lemma_prologue_len,
    lemma_splice_all_push, lemma_step_item_counts, lower_st, pass_item, prologue, spec_lower,
    splice_all, splice_head, splice_one, step_declarator, step_declarators, step_default_decl,
    step_default_expr, step_export_all, step_export_decl, step_item, LowerSt,
};
use crate::synth::synth_default_name;

verus! {

/// The state of one pass invocation over one module.
pub struct ModuleExportsVisitor {
    /// the working sequence: prologue, lowered tail, unprocessed rest
    updated_body: Vec<ModuleItem>,
    /// current position: start of the unprocessed rest
    cursor: usize,
    /// the ES-module flag statement exists at index 0
    has_module_exports_stmt: bool,
    /// the void chain statement exists at index 1
    has_void_stmt: bool,
    /// the `exportStar` helper definition exists
    has_star_helper: bool,
    /// anonymous `export default class` seen so far
    class_default_count: usize,
    /// anonymous `export default function` seen so far
    func_default_count: usize,
}

impl ModuleExportsVisitor {
    /// The scalar fields agree with the fold state `st`.
    pub closed spec fn abs(&self, st: LowerSt) -> bool {
        &&& self.has_module_exports_stmt == st.flag
        &&& self.has_void_stmt == (st.chain.len() > 0)
        &&& self.has_star_helper == st.helper
        &&& self.class_default_count == st.class_count
        &&& self.func_default_count == st.func_count
        &&& self.cursor == prologue(st).len() + st.tail.len()
    }

    /// The working sequence is the prologue of `st`, then its tail, then
    /// the unprocessed `rest` with the pending splices applied to its head.
    pub closed spec fn body_is(&self, st: LowerSt, rest: Seq<ItemV>) -> bool {
        seq_dv(self.updated_body@) == prologue(st) + st.tail + splice_head(st.pending, rest)
    }

    /// Insert the ES-module flag statement at index 0, once.
    ///
    /// Mirrors the flag branch of the pass: the flag always lands at the
    /// very top of the module, and the cursor moves right along with
    /// everything the insertion shifted.
    fn append_module_exports_stmt(&mut self)
        requires
            old(self).cursor <= old(self).updated_body@.len(),
        ensures
            final(self).has_module_exports_stmt,
            old(self).has_module_exports_stmt ==> *final(self) == *old(self),
            !old(self).has_module_exports_stmt ==> {
                &&& seq_dv(final(self).updated_body@) == seq_dv(old(self).updated_body@).insert(
                    0,
                    ItemV::Stmt(StmtV::EsModuleFlag),
                )
                &&& final(self).cursor == old(self).cursor + 1
            },
            final(self).has_void_stmt == old(self).has_void_stmt,
            final(self).has_star_helper == old(self).has_star_helper,
            final(self).class_default_count == old(self).class_default_count,
            final(self).func_default_count == old(self).func_default_count,
            old(self).has_module_exports_stmt ==> final(self).cursor == old(self).cursor,
    {
        if !self.has_module_exports_stmt {
            self.has_module_exports_stmt = true;
            self.updated_body.insert(0, ModuleItem::Stmt(Stmt::EsModuleFlag));
            proof {
                assert(self.cursor < self.updated_body.len());
            }
            self.cursor = self.cursor + 1;
            proof {
                lemma_seq_dv_insert(old(self).updated_body@, 0, ModuleItem::Stmt(Stmt::EsModuleFlag));
            }
        }
    }

    /// Create the void chain at index 1, or extend it at its innermost
    /// right position, registering `name`.
    fn append_void_stmt(&mut self, name: String)
        requires
            1 <= old(self).cursor <= old(self).updated_body@.len(),
            old(self).has_void_stmt ==> {
                &&& 2 <= old(self).cursor
                &&& old(self).updated_body@.len() >= 2
                &&& old(self).updated_body@[1] matches ModuleItem::Stmt(Stmt::VoidChain(_))
            },
        ensures
            final(self).has_void_stmt,
            !old(self).has_void_stmt ==> {
                &&& seq_dv(final(self).updated_body@) == seq_dv(old(self).updated_body@).insert(
                    1,
                    ItemV::Stmt(StmtV::VoidChain(seq![name@])),
                )
                &&& final(self).cursor == old(self).cursor + 1
            },
            old(self).has_void_stmt ==> {
                &&& (old(self).updated_body@[1] matches ModuleItem::Stmt(Stmt::VoidChain(ns))
                    ==> seq_dv(final(self).updated_body@) == seq_dv(old(self).updated_body@)
                    .update(1, ItemV::Stmt(StmtV::VoidChain(ns.deep_view().push(name@)))))
                &&& final(self).cursor == old(self).cursor
            },
            final(self).has_module_exports_stmt == old(self).has_module_exports_stmt,
            final(self).has_star_helper == old(self).has_star_helper,
            final(self).class_default_count == old(self).class_default_count,
            final(self).func_default_count == old(self).func_default_count,
    {
        if !self.has_void_stmt {
            self.has_void_stmt = true;
            let mut names: Vec<String> = Vec::new();
            names.push(name);
            let chain = ModuleItem::Stmt(Stmt::VoidChain(names));
            proof {
                lemma_vec_dv(&names);
                assert(names.deep_view() =~= seq![name@]);
                lemma_seq_dv_insert(old(self).updated_body@, 1, chain);
            }
            self.updated_body.insert(1, chain);
            proof {
                assert(self.cursor < self.updated_body.len());
            }
            self.cursor = self.cursor + 1;
        } else {
            let it = self.updated_body.remove(1);
            match it {
                ModuleItem::Stmt(Stmt::VoidChain(mut ns)) => {
                    let ghost old_ns = ns@;
                    ns.push(name);
                    let chain = ModuleItem::Stmt(Stmt::VoidChain(ns));
                    self.updated_body.insert(1, chain);
                    proof {
                        let b0 = old(self).updated_body@;
                        lemma_seq_dv_remove(b0, 1);
                        lemma_seq_dv_insert(b0.remove(1), 1, chain);
                        lemma_seq_dv_push(old_ns, name);
                        lemma_vec_dv(&ns);
                        assert(seq_dv(self.updated_body@) =~= seq_dv(b0).update(
                            1,
                            chain.deep_view(),
                        ));
                        assert(chain.deep_view() == ItemV::Stmt(
                            StmtV::VoidChain(seq_dv(old_ns).push(name@)),
                        ));
                    }
                },
                other => {
                    proof {
                        assert(false);
                    }
                    self.updated_body.insert(1, other);
                },
            }
        }
    }

    /// Insert the hoisted `exportStar` helper definition, after the flag
    /// and the void chain.
    fn append_star_helper(&mut self)
        requires
            old(self).has_module_exports_stmt,
            !old(self).has_star_helper,
            old(self).cursor <= old(self).updated_body@.len(),
            old(self).has_void_stmt ==> 2 <= old(self).cursor,
            !old(self).has_void_stmt ==> 1 <= old(self).cursor,
        ensures
            final(self).has_star_helper,
            seq_dv(final(self).updated_body@) == seq_dv(old(self).updated_body@).insert(
                if old(self).has_void_stmt { 2int } else { 1int },
                ItemV::Stmt(StmtV::StarHelper),
            ),
            final(self).cursor == old(self).cursor + 1,
            final(self).has_module_exports_stmt == old(self).has_module_exports_stmt,
            final(self).has_void_stmt == old(self).has_void_stmt,
            final(self).class_default_count == old(self).class_default_count,
            final(self).func_default_count == old(self).func_default_count,
    {
        let pos: usize = if self.has_void_stmt {
            2
        } else {
            1
        };
        self.has_star_helper = true;
        self.updated_body.insert(pos, ModuleItem::Stmt(Stmt::StarHelper));
        proof {
            lemma_seq_dv_insert(old(self).updated_body@, pos as int, ModuleItem::Stmt(Stmt::StarHelper));
            assert(self.cursor < self.updated_body.len());
        }
        self.cursor = self.cursor + 1;
    }

    /// Insert one lowered statement at the construct's position and move
    /// the cursor past it.
    fn insert_at_cursor(&mut self, it: ModuleItem)
        requires
            old(self).cursor <= old(self).updated_body@.len(),
        ensures
            seq_dv(final(self).updated_body@) == seq_dv(old(self).updated_body@).insert(
                old(self).cursor as int,
                it.deep_view(),
            ),
            final(self).cursor == old(self).cursor + 1,
            final(self).has_module_exports_stmt == old(self).has_module_exports_stmt,
            final(self).has_void_stmt == old(self).has_void_stmt,
            final(self).has_star_helper == old(self).has_star_helper,
            final(self).class_default_count == old(self).class_default_count,
            final(self).func_default_count == old(self).func_default_count,
    {
        proof {
            lemma_seq_dv_insert(old(self).updated_body@, old(self).cursor as int, it);
        }
        self.updated_body.insert(self.cursor, it);
        proof {
            assert(self.cursor < self.updated_body.len());
        }
        self.cursor = self.cursor + 1;
    }

    /// Insert `exports.ident = ident;` at the cursor.
    fn append_export_stmt_with_value_as_ident(&mut self, ident: &String)
        requires
            old(self).cursor <= old(self).updated_body@.len(),
        ensures
            seq_dv(final(self).updated_body@) == seq_dv(old(self).updated_body@).insert(
                old(self).cursor as int,
                ItemV::Stmt(
                    StmtV::ExportAssign { key: ident@, value: crate::ast::AssignedV::Ident(ident@) },
                ),
            ),
            final(self).cursor == old(self).cursor + 1,
            final(self).has_module_exports_stmt == old(self).has_module_exports_stmt,
            final(self).has_void_stmt == old(self).has_void_stmt,
            final(self).has_star_helper == old(self).has_star_helper,
            final(self).class_default_count == old(self).class_default_count,
            final(self).func_default_count == old(self).func_default_count,
    {
        self.insert_at_cursor(
            ModuleItem::Stmt(
                Stmt::ExportAssign { key: ident.clone(), value: Assigned::Ident(ident.clone()) },
            ),
        );
    }

    /// Insert `exports.key = value;` at the cursor.
    fn append_export_stmt_with_value(&mut self, key: String, value: Assigned)
        requires
            old(self).cursor <= old(self).updated_body@.len(),
        ensures
            seq_dv(final(self).updated_body@) == seq_dv(old(self).updated_body@).insert(
                old(self).cursor as int,
                ItemV::Stmt(StmtV::ExportAssign { key: key@, value: value.deep_view() }),
            ),
            final(self).cursor == old(self).cursor + 1,
            final(self).has_module_exports_stmt == old(self).has_module_exports_stmt,
            final(self).has_void_stmt == old(self).has_void_stmt,
            final(self).has_star_helper == old(self).has_star_helper,
            final(self).class_default_count == old(self).class_default_count,
            final(self).func_default_count == old(self).func_default_count,
    {
        self.insert_at_cursor(ModuleItem::Stmt(Stmt::ExportAssign { key, value }));
    }

    /// Lower `export default <expr>;`.
    fn visit_export_default_expr(
        &mut self,
        value: u64,
        Ghost(st): Ghost<LowerSt>,
        Ghost(rest): Ghost<Seq<ItemV>>,
    )
        requires
            old(self).abs(st),
            old(self).body_is(st, rest),
            st.pending.len() == 0,
        ensures
            final(self).abs(step_default_expr(value, st)),
            final(self).body_is(step_default_expr(value, st), rest),
    {
        proof {
            lemma_prologue_len(st);
            assert(seq_dv(self.updated_body@).len() == self.updated_body@.len());
        }
        self.append_module_exports_stmt();
        let ghost stf = LowerSt { flag: true, ..st };
        proof {
            lemma_prologue_len(stf);
            assert(seq_dv(self.updated_body@) =~= prologue(stf) + st.tail + rest);
        }
        let key = String::from_str("default");
        self.append_export_stmt_with_value(key, Assigned::Expr(value));
        proof {
            let st2 = step_default_expr(value, st);
            lemma_prologue_len(st2);
            assert(seq_dv(self.updated_body@) =~= prologue(st2) + st2.tail + rest);
        }
    }

    /// Does the item at `idx` have the enum-style call shape over `name`?
    ///
    /// This is the guard of the enum-initializer splice: the statement
    /// after a no-initializer declarator is rewritten only when its first
    /// argument has the shape `name = name || <rhs>` over the same name.
    fn enum_call_matches(it: &ModuleItem, name: &String) -> (b: bool)
        ensures
            b == is_matching_enum_call(it.deep_view(), name@),
    {
        match it {
            ModuleItem::Stmt(Stmt::EnumCall { name: n2, rhs: _, payload: _ }) => *n2 == *name,
            _ => false,
        }
    }

    /// Lower one declarator of an exported variable declaration: register
    /// the name in the void chain, then retain, collapse, splice or skip
    /// according to the initializer.
    #[verifier::rlimit(60)]
    fn visit_declarator(
        &mut self,
        kind: VarKind,
        name: String,
        init: Option<Init>,
        Ghost(st): Ghost<LowerSt>,
        Ghost(rest): Ghost<Seq<ItemV>>,
    )
        requires
            old(self).abs(st),
            old(self).body_is(st, rest),
            st.flag,
        ensures
            final(self).abs(
                step_declarator(kind, DeclaratorV { name: BindingV::Ident(name@), init }, st),
            ),
            final(self).body_is(
                step_declarator(kind, DeclaratorV { name: BindingV::Ident(name@), init }, st),
                rest,
            ),
    {
        proof {
            lemma_prologue_len(st);
            assert(seq_dv(self.updated_body@).len() == self.updated_body@.len());
            if self.has_void_stmt {
                assert(seq_dv(self.updated_body@)[1] == ItemV::Stmt(StmtV::VoidChain(st.chain)));
                assert(self.updated_body@[1].deep_view() == ItemV::Stmt(
                    StmtV::VoidChain(st.chain),
                ));
                lemma_view_void_chain(self.updated_body@[1], st.chain);
            }
        }
        let ghost stc = LowerSt { chain: st.chain.push(name@), ..st };
        let ghost dv0 = DeclaratorV { name: BindingV::Ident(name@), init };
        let ghost st2 = step_declarator(kind, dv0, st);
        self.append_void_stmt(name.clone());
        proof {
            lemma_prologue_len(stc);
            if st.chain.len() == 0 {
                assert(st.chain.push(name@) =~= seq![name@]);
            }
            assert(seq_dv(self.updated_body@) =~= prologue(stc) + st.tail + splice_head(
                st.pending,
                rest,
            ));
            assert(seq_dv(self.updated_body@).len() == self.updated_body@.len());
        }
        match init {
            Some(Init::ClassExpr(p)) => {
                self.insert_at_cursor(
                    ModuleItem::Stmt(
                        Stmt::Decl { kind: DeclKind::Var(kind), name: name.clone(), payload: p },
                    ),
                );
                self.append_export_stmt_with_value_as_ident(&name);
                proof {
                    assert(seq_dv(self.updated_body@) =~= prologue(st2) + st2.tail + splice_head(
                        st2.pending,
                        rest,
                    ));
                }
            },
            Some(Init::FuncExpr(p)) => {
                self.insert_at_cursor(
                    ModuleItem::Stmt(
                        Stmt::Decl { kind: DeclKind::Var(kind), name: name.clone(), payload: p },
                    ),
                );
                self.append_export_stmt_with_value_as_ident(&name);
                proof {
                    assert(seq_dv(self.updated_body@) =~= prologue(st2) + st2.tail + splice_head(
                        st2.pending,
                        rest,
                    ));
                }
            },
            Some(Init::ArrowExpr(p)) => {
                self.insert_at_cursor(
                    ModuleItem::Stmt(
                        Stmt::Decl { kind: DeclKind::Var(kind), name: name.clone(), payload: p },
                    ),
                );
                self.append_export_stmt_with_value_as_ident(&name);
                proof {
                    assert(seq_dv(self.updated_body@) =~= prologue(st2) + st2.tail + splice_head(
                        st2.pending,
                        rest,
                    ));
                }
            },
            Some(Init::Plain(p)) => {
                self.append_export_stmt_with_value(name.clone(), Assigned::Expr(p));
                proof {
                    assert(seq_dv(self.updated_body@) =~= prologue(st2) + st2.tail + splice_head(
                        st2.pending,
                        rest,
                    ));
                }
            },
            None => {
                let ghost pt = prologue(stc).len() + st.tail.len();
                proof {
                    assert(self.cursor == pt);
                }
                if self.cursor < self.updated_body.len() {
                    proof {
                        assert(rest.len() > 0);
                        lemma_splice_all_push(st.pending, name@, rest[0]);
                    }
                    let ghost cur = splice_all(st.pending, rest[0]);
                    let idx = self.cursor;
                    proof {
                        assert(seq_dv(self.updated_body@)[idx as int] == splice_head(
                            st.pending,
                            rest,
                        )[0]);
                        assert(splice_head(st.pending, rest)[0] == cur);
                        assert(self.updated_body@[idx as int].deep_view() == cur);
                    }
                    let matched = Self::enum_call_matches(&self.updated_body[idx], &name);
                    if matched {
                        let ghost prev = self.updated_body@;
                        let it = self.updated_body.remove(idx);
                        proof {
                            lemma_seq_dv_remove(prev, idx as int);
                        }
                        match it {
                            ModuleItem::Stmt(Stmt::EnumCall { name: n2, rhs, payload }) => {
                                let spliced = ModuleItem::Stmt(
                                    Stmt::EnumCall {
                                        name: n2,
                                        rhs: EnumArg::Spliced {
                                            name: name.clone(),
                                            rest: Box::new(rhs),
                                        },
                                        payload,
                                    },
                                );
                                proof {
                                    lemma_seq_dv_insert(
                                        prev.remove(idx as int),
                                        idx as int,
                                        spliced,
                                    );
                                }
                                self.updated_body.insert(idx, spliced);
                                proof {
                                    assert(spliced.deep_view() == splice_one(name@, cur));
                                    assert(seq_dv(self.updated_body@) =~= seq_dv(prev).update(
                                        idx as int,
                                        spliced.deep_view(),
                                    ));
                                    assert(splice_head(st2.pending, rest) =~= rest.update(
                                        0,
                                        splice_one(name@, cur),
                                    ));
                                    assert(seq_dv(self.updated_body@) =~= prologue(st2)
                                        + st2.tail + splice_head(st2.pending, rest));
                                }
                            },
                            other => {
                                proof {
                                    assert(false);
                                }
                                self.updated_body.insert(idx, other);
                            },
                        }
                    } else {
                        proof {
                            assert(splice_one(name@, cur) == cur);
                            assert(splice_head(st2.pending, rest) =~= splice_head(
                                st.pending,
                                rest,
                            ));
                            assert(seq_dv(self.updated_body@) =~= prologue(st2) + st2.tail
                                + splice_head(st2.pending, rest));
                        }
                    }
                } else {
                    proof {
                        assert(rest.len() == 0);
                        assert(seq_dv(self.updated_body@) =~= prologue(st2) + st2.tail
                            + splice_head(st2.pending, rest));
                    }
                }
            },
        }
    }

    /// Do all declarators bind plain identifiers?
    fn decls_all_idents(decls: &Vec<Declarator>) -> (b: bool)
        ensures
            b == all_idents(decls.deep_view()),
    {
        let n = decls.len();
        let mut i: usize = 0;
        while i < n
            invariant
                i <= n,
                n == decls.len(),
                forall|j: int| 0 <= j < i ==> decls.deep_view()[j].name is Ident,
            decreases n - i,
        {
            match &decls[i].name {
                Binding::Ident(_) => {
                },
                Binding::Pattern(_) => {
                    proof {
                        assert(decls.deep_view()[i as int].name is Pattern);
                    }
                    return false;
                },
            }
            i = i + 1;
        }
        true
    }

    /// Lower `export class Name { ... }` or `export function name() { ... }`:
    /// keep the declaration, follow it with `exports.name = name;`, and
    /// register the name in the void chain.
    #[verifier::rlimit(40)]
    fn visit_export_decl_named(
        &mut self,
        kind: DeclKind,
        name: String,
        payload: u64,
        Ghost(st): Ghost<LowerSt>,
        Ghost(rest): Ghost<Seq<ItemV>>,
    )
        requires
            old(self).abs(st),
            old(self).body_is(st, rest),
            st.pending.len() == 0,
        ensures
            ({
                let st2 = emit_decl_and_assign(
                    LowerSt { flag: true, chain: st.chain.push(name@), ..st },
                    kind,
                    name@,
                    payload,
                );
                final(self).abs(st2) && final(self).body_is(st2, rest)
            }),
    {
        proof {
            lemma_prologue_len(st);
            assert(seq_dv(self.updated_body@).len() == self.updated_body@.len());
        }
        self.append_module_exports_stmt();
        let ghost stf = LowerSt { flag: true, ..st };
        proof {
            lemma_prologue_len(stf);
            assert(seq_dv(self.updated_body@) =~= prologue(stf) + st.tail + rest);
            assert(seq_dv(self.updated_body@).len() == self.updated_body@.len());
            if self.has_void_stmt {
                assert(seq_dv(self.updated_body@)[1] == ItemV::Stmt(StmtV::VoidChain(st.chain)));
                assert(self.updated_body@[1].deep_view() == ItemV::Stmt(
                    StmtV::VoidChain(st.chain),
                ));
                lemma_view_void_chain(self.updated_body@[1], st.chain);
            }
        }
        self.append_void_stmt(name.clone());
        let ghost stc = LowerSt { chain: st.chain.push(name@), ..stf };
        proof {
            lemma_prologue_len(stc);
            if st.chain.len() == 0 {
                assert(st.chain.push(name@) =~= seq![name@]);
            }
            assert(seq_dv(self.updated_body@) =~= prologue(stc) + st.tail + rest);
            assert(seq_dv(self.updated_body@).len() == self.updated_body@.len());
        }
        self.insert_at_cursor(ModuleItem::Stmt(Stmt::Decl { kind, name: name.clone(), payload }));
        proof {
            assert(seq_dv(self.updated_body@).len() == self.updated_body@.len());
        }
        self.append_export_stmt_with_value_as_ident(&name);
        proof {
            let st2 = emit_decl_and_assign(stc, kind, name@, payload);
            lemma_prologue_len(st2);
            assert(seq_dv(self.updated_body@) =~= prologue(st2) + st2.tail + rest);
        }
    }

    /// Lower `export <decl>`.
    ///
    /// Class and function declarations are retained with an export
    /// assignment; a variable declaration whose declarators all bind plain
    /// identifiers is lowered declarator by declarator; any other shape is
    /// left untouched.
    #[verifier::rlimit(80)]
    fn visit_export_decl(
        &mut self,
        d: ExportedDecl,
        Ghost(st): Ghost<LowerSt>,
        Ghost(rest): Ghost<Seq<ItemV>>,
    )
        requires
            old(self).abs(st),
            old(self).body_is(st, rest),
            st.pending.len() == 0,
        ensures
            final(self).abs(step_export_decl(d.deep_view(), st)),
            final(self).body_is(step_export_decl(d.deep_view(), st), rest),
    {
        match d {
            ExportedDecl::Class { name, payload } => {
                self.visit_export_decl_named(DeclKind::Class, name, payload, Ghost(st), Ghost(rest));
            },
            ExportedDecl::Func { name, payload } => {
                self.visit_export_decl_named(DeclKind::Func, name, payload, Ghost(st), Ghost(rest));
            },
            ExportedDecl::Var { kind, decls } => {
                let all = Self::decls_all_idents(&decls);
                proof {
                    lemma_vec_dv(&decls);
                }
                let ghost dsv = decls.deep_view();
                if !all {
                    proof {
                        lemma_prologue_len(st);
                        assert(seq_dv(self.updated_body@).len() == self.updated_body@.len());
                    }
                    let ghost st2 = step_export_decl(d.deep_view(), st);
                    self.insert_at_cursor(ModuleItem::ExportDecl(ExportedDecl::Var { kind, decls }));
                    proof {
                        lemma_prologue_len(st2);
                        assert(seq_dv(self.updated_body@) =~= prologue(st2) + st2.tail + rest);
                    }
                } else {
                    proof {
                        lemma_prologue_len(st);
                        assert(seq_dv(self.updated_body@).len() == self.updated_body@.len());
                    }
                    self.append_module_exports_stmt();
                    let ghost stf = LowerSt { flag: true, ..st };
                    proof {
                        lemma_prologue_len(stf);
                        assert(seq_dv(self.updated_body@) =~= prologue(stf) + st.tail + rest);
                        assert(dsv.take(0) =~= Seq::<DeclaratorV>::empty());
                    }
                    let n = decls.len();
                    let mut i: usize = 0;
                    while i < n
                        invariant
                            i <= n,
                            n == decls.len(),
                            dsv == decls.deep_view(),
                            all_idents(dsv),
                            step_declarators(kind, dsv.take(i as int), stf).flag,
                            self.abs(step_declarators(kind, dsv.take(i as int), stf)),
                            self.body_is(step_declarators(kind, dsv.take(i as int), stf), rest),
                        decreases n - i,
                    {
                        let ghost sti = step_declarators(kind, dsv.take(i as int), stf);
                        match &decls[i].name {
                            Binding::Ident(nm) => {
                                let nm2 = nm.clone();
                                let init = decls[i].init;
                                proof {
                                    assert(dsv[i as int] == DeclaratorV {
                                        name: BindingV::Ident(nm2@),
                                        init,
                                    });
                                }
                                self.visit_declarator(kind, nm2, init, Ghost(sti), Ghost(rest));
                                proof {
                                    assert(dsv.take(i + 1).drop_last() =~= dsv.take(i as int));
                                    assert(dsv.take(i + 1).last() == dsv[i as int]);
                                    assert(step_declarators(kind, dsv.take(i + 1), stf)
                                        == step_declarator(kind, dsv[i as int], sti));
                                }
                            },
                            Binding::Pattern(_) => {
                                proof {
                                    assert(dsv[i as int].name is Pattern);
                                    assert(false);
                                }
                            },
                        }
                        i = i + 1;
                    }
                    proof {
                        assert(dsv.take(n as int) =~= dsv);
                        assert(step_export_decl(d.deep_view(), st) == step_declarators(
                            kind,
                            dsv,
                            stf,
                        ));
                    }
                }
            },
            ExportedDecl::Other(p) => {
                proof {
                    lemma_prologue_len(st);
                    assert(seq_dv(self.updated_body@).len() == self.updated_body@.len());
                }
                let ghost st2 = step_export_decl(d.deep_view(), st);
                self.insert_at_cursor(ModuleItem::ExportDecl(ExportedDecl::Other(p)));
                proof {
                    lemma_prologue_len(st2);
                    assert(seq_dv(self.updated_body@) =~= prologue(st2) + st2.tail + rest);
                }
            },
        }
    }

    /// Lower `export default class [Name] { ... }`.
    #[verifier::rlimit(50)]
    fn visit_export_default_class(
        &mut self,
        name: Option<String>,
        payload: u64,
        Ghost(st): Ghost<LowerSt>,
        Ghost(rest): Ghost<Seq<ItemV>>,
    )
        requires
            old(self).abs(st),
            old(self).body_is(st, rest),
            st.pending.len() == 0,
            st.class_count < usize::MAX,
        ensures
            final(self).abs(
                step_default_decl(DefaultDeclV::Class { name: name.deep_view(), payload }, st),
            ),
            final(self).body_is(
                step_default_decl(DefaultDeclV::Class { name: name.deep_view(), payload }, st),
                rest,
            ),
    {
        proof {
            lemma_prologue_len(st);
            assert(seq_dv(self.updated_body@).len() == self.updated_body@.len());
        }
        let ghost stf = LowerSt { flag: true, ..st };
        let ghost st2 = step_default_decl(
            DefaultDeclV::Class { name: name.deep_view(), payload },
            st,
        );
        self.append_module_exports_stmt();
        proof {
            lemma_prologue_len(stf);
            assert(seq_dv(self.updated_body@) =~= prologue(stf) + st.tail + rest);
            assert(seq_dv(self.updated_body@).len() == self.updated_body@.len());
        }
        let ident = match name {
            Some(n) => n,
            None => {
                self.class_default_count = self.class_default_count + 1;
                synth_default_name(self.class_default_count)
            },
        };
        self.insert_at_cursor(
            ModuleItem::Stmt(Stmt::Decl { kind: DeclKind::Class, name: ident.clone(), payload }),
        );
        proof {
            assert(seq_dv(self.updated_body@).len() == self.updated_body@.len());
        }
        let key = String::from_str("default");
        self.append_export_stmt_with_value(key, Assigned::Ident(ident));
        proof {
            lemma_prologue_len(st2);
            assert(seq_dv(self.updated_body@) =~= prologue(st2) + st2.tail + rest);
        }
    }

    /// Lower `export default function [name]() { ... }`.
    #[verifier::rlimit(50)]
    fn visit_export_default_func(
        &mut self,
        name: Option<String>,
        payload: u64,
        Ghost(st): Ghost<LowerSt>,
        Ghost(rest): Ghost<Seq<ItemV>>,
    )
        requires
            old(self).abs(st),
            old(self).body_is(st, rest),
            st.pending.len() == 0,
            st.func_count < usize::MAX,
        ensures
            final(self).abs(
                step_default_decl(DefaultDeclV::Func { name: name.deep_view(), payload }, st),
            ),
            final(self).body_is(
                step_default_decl(DefaultDeclV::Func { name: name.deep_view(), payload }, st),
                rest,
            ),
    {
        proof {
            lemma_prologue_len(st);
            assert(seq_dv(self.updated_body@).len() == self.updated_body@.len());
        }
        let ghost stf = LowerSt { flag: true, ..st };
        let ghost st2 = step_default_decl(
            DefaultDeclV::Func { name: name.deep_view(), payload },
            st,
        );
        self.append_module_exports_stmt();
        proof {
            lemma_prologue_len(stf);
            assert(seq_dv(self.updated_body@) =~= prologue(stf) + st.tail + rest);
            assert(seq_dv(self.updated_body@).len() == self.updated_body@.len());
        }
        let ident = match name {
            Some(n) => n,
            None => {
                self.func_default_count = self.func_default_count + 1;
                synth_default_name(self.func_default_count)
            },
        };
        self.insert_at_cursor(
            ModuleItem::Stmt(Stmt::Decl { kind: DeclKind::Func, name: ident.clone(), payload }),
        );
        proof {
            assert(seq_dv(self.updated_body@).len() == self.updated_body@.len());
        }
        let key = String::from_str("default");
        self.append_export_stmt_with_value(key, Assigned::Ident(ident));
        proof {
            lemma_prologue_len(st2);
            assert(seq_dv(self.updated_body@) =~= prologue(st2) + st2.tail + rest);
        }
    }

    /// Lower `export default <decl>`.
    ///
    /// A named class or function is retained as an ordinary declaration
    /// under its own identifier; an anonymous one is declared under the
    /// synthetic name `default_N`, with one counter per declaration kind.
    /// Either way `exports.default = identifier;` follows.  Any other
    /// shape passes through untouched.
    fn visit_export_default_decl(
        &mut self,
        d: DefaultDecl,
        Ghost(st): Ghost<LowerSt>,
        Ghost(rest): Ghost<Seq<ItemV>>,
    )
        requires
            old(self).abs(st),
            old(self).body_is(st, rest),
            st.pending.len() == 0,
            st.class_count < usize::MAX,
            st.func_count < usize::MAX,
        ensures
            final(self).abs(step_default_decl(d.deep_view(), st)),
            final(self).body_is(step_default_decl(d.deep_view(), st), rest),
    {
        match d {
            DefaultDecl::Class { name, payload } => {
                self.visit_export_default_class(name, payload, Ghost(st), Ghost(rest));
            },
            DefaultDecl::Func { name, payload } => {
                self.visit_export_default_func(name, payload, Ghost(st), Ghost(rest));
            },
            DefaultDecl::Other(p) => {
                proof {
                    lemma_prologue_len(st);
                    assert(seq_dv(self.updated_body@).len() == self.updated_body@.len());
                }
                let ghost st2 = step_default_decl(d.deep_view(), st);
                self.insert_at_cursor(ModuleItem::ExportDefaultDecl(DefaultDecl::Other(p)));
                proof {
                    lemma_prologue_len(st2);
                    assert(seq_dv(self.updated_body@) =~= prologue(st2) + st2.tail + rest);
                }
            },
        }
    }

    /// Lower `export * from "path";`.
    fn visit_export_all(
        &mut self,
        path: String,
        Ghost(st): Ghost<LowerSt>,
        Ghost(rest): Ghost<Seq<ItemV>>,
    )
        requires
            old(self).abs(st),
            old(self).body_is(st, rest),
            st.pending.len() == 0,
        ensures
            final(self).abs(step_export_all(path@, st)),
            final(self).body_is(step_export_all(path@, st), rest),
    {
        proof {
            lemma_prologue_len(st);
            assert(seq_dv(self.updated_body@).len() == self.updated_body@.len());
        }
        self.append_module_exports_stmt();
        let ghost stf = LowerSt { flag: true, ..st };
        proof {
            lemma_prologue_len(stf);
            assert(seq_dv(self.updated_body@) =~= prologue(stf) + st.tail + rest);
        }
        if !self.has_star_helper {
            self.append_star_helper();
        }
        let ghost sth = LowerSt { helper: true, ..stf };
        proof {
            lemma_prologue_len(sth);
            assert(seq_dv(self.updated_body@) =~= prologue(sth) + st.tail + rest);
        }
        self.insert_at_cursor(ModuleItem::Stmt(Stmt::StarCall { path }));
        proof {
            let st2 = step_export_all(path@, st);
            lemma_prologue_len(st2);
            assert(seq_dv(self.updated_body@) =~= prologue(st2) + st2.tail + rest);
        }
    }
}

/// An item whose view is a void chain is a void chain, with the same
/// names.
proof fn lemma_view_void_chain(it: ModuleItem, ns: Seq<Seq<char>>)
    requires
        it.deep_view() == ItemV::Stmt(StmtV::VoidChain(ns)),
    ensures
        it matches ModuleItem::Stmt(Stmt::VoidChain(_)),
        (it matches ModuleItem::Stmt(Stmt::VoidChain(v)) ==> v.deep_view() == ns),
{
    match it {
        ModuleItem::Stmt(Stmt::VoidChain(_)) => {
        },
        _ => {
            assert(false);
        },
    }
}

/// A fresh visitor: empty working sequence, no singletons, counters at
/// zero.
pub fn create_module_exports_visitor() -> (v: ModuleExportsVisitor)
    ensures
        v.abs(init_st()),
        v.body_is(init_st(), Seq::empty()),
{
    let v = ModuleExportsVisitor {
        updated_body: Vec::new(),
        cursor: 0,
        has_module_exports_stmt: false,
        has_void_stmt: false,
        has_star_helper: false,
        class_default_count: 0,
        func_default_count: 0,
    };
    proof {
        lemma_prologue_len(init_st());
        assert(seq_dv(v.updated_body@) =~= prologue(init_st()) + init_st().tail + splice_head(
            init_st().pending,
            Seq::empty(),
        ));
    }
    v
}

/// Lower a whole module body: walk the items once, in order, replacing
/// every recognized export construct by its CommonJS runtime statements.
///
/// The result is exactly [`spec_lower`] of the input: the ES-module flag
/// at index 0 and the void chain at index 1 when any export calls for
/// them, the hoisted `exportStar` helper before its call sites, and the
/// lowered tail in which non-export items keep their relative order.
pub fn module_exports_transform(body: Vec<ModuleItem>) -> (r: Vec<ModuleItem>)
    ensures
        r.deep_view() == spec_lower(body.deep_view()),
{
    let ghost b = body.deep_view();
    let total = body.len();
    proof {
        lemma_vec_dv(&body);
        assert(b.len() == total);
    }
    let mut v = create_module_exports_visitor();
    v.updated_body = body;
    proof {
        lemma_prologue_len(init_st());
        assert(b.take(0) =~= Seq::<ItemV>::empty());
        assert(b.skip(0) =~= b);
        assert(seq_dv(v.updated_body@) =~= prologue(lower_st(b.take(0))) + lower_st(
            b.take(0),
        ).tail + splice_head(lower_st(b.take(0)).pending, b.skip(0)));
    }
    let ghost mut i: int = 0;
    while v.cursor < v.updated_body.len()
        invariant
            0 <= i <= b.len(),
            b.len() == total,
            v.abs(lower_st(b.take(i))),
            v.body_is(lower_st(b.take(i)), b.skip(i)),
            lower_st(b.take(i)).class_count <= i,
            lower_st(b.take(i)).func_count <= i,
        decreases b.len() - i,
    {
        let ghost sti = lower_st(b.take(i));
        let ghost st0 = LowerSt { pending: Seq::empty(), ..sti };
        let ghost raw = b[i];
        let ghost cur = splice_all(sti.pending, raw);
        proof {
            lemma_prologue_len(sti);
            assert(seq_dv(v.updated_body@).len() == v.updated_body@.len());
            assert(splice_head(sti.pending, b.skip(i)).len() == b.skip(i).len());
            assert(i < b.len());
        }
        let idx = v.cursor;
        let ghost prev = v.updated_body@;
        let it = v.updated_body.remove(idx);
        proof {
            lemma_seq_dv_remove(prev, idx as int);
            assert(seq_dv(prev)[idx as int] == splice_head(sti.pending, b.skip(i))[0]);
            assert(b.skip(i)[0] == raw);
            assert(splice_head(sti.pending, b.skip(i))[0] == cur);
            assert(it.deep_view() == cur);
            assert(seq_dv(v.updated_body@) =~= prologue(st0) + st0.tail + splice_head(
                st0.pending,
                b.skip(i + 1),
            ));
        }
        match it {
            ModuleItem::Stmt(s) => {
                let ghost st1 = pass_item(st0, ItemV::Stmt(s.deep_view()));
                let back = ModuleItem::Stmt(s);
                proof {
                    lemma_seq_dv_insert(prev.remove(idx as int), idx as int, back);
                }
                v.updated_body.insert(idx, back);
                proof {
                    assert(idx < v.updated_body.len());
                }
                v.cursor = idx + 1;
                proof {
                    lemma_prologue_len(st1);
                    assert(seq_dv(v.updated_body@) =~= prologue(st1) + st1.tail + splice_head(
                        st1.pending,
                        b.skip(i + 1),
                    ));
                }
            },
            ModuleItem::ExportAll { path } => {
                v.visit_export_all(path, Ghost(st0), Ghost(b.skip(i + 1)));
            },
            ModuleItem::ExportDecl(d) => {
                v.visit_export_decl(d, Ghost(st0), Ghost(b.skip(i + 1)));
            },
            ModuleItem::ExportDefaultDecl(d) => {
                v.visit_export_default_decl(d, Ghost(st0), Ghost(b.skip(i + 1)));
            },
            ModuleItem::ExportDefaultExpr { value } => {
                v.visit_export_default_expr(value, Ghost(st0), Ghost(b.skip(i + 1)));
            },
        }
        proof {
            lemma_step_item_counts(raw, sti);
            i = i + 1;
            assert(b.take(i).drop_last() =~= b.take(i - 1));
            assert(b.take(i).last() == b[i - 1]);
            assert(lower_st(b.take(i)) == step_item(raw, sti));
        }
    }
    proof {
        let stn = lower_st(b.take(i));
        lemma_prologue_len(stn);
        assert(seq_dv(v.updated_body@).len() == v.updated_body@.len());
        assert(splice_head(stn.pending, b.skip(i)).len() == b.skip(i).len());
        assert(i == b.len());
        assert(b.take(i) =~= b);
        assert(v.updated_body.deep_view() =~= seq_dv(v.updated_body@));
        assert(v.updated_body.deep_view() =~= spec_lower(b));
    }
    v.updated_body
}

} // verus!

use module_exports::ast::{
    Assigned, Binding, DeclKind, Declarator, DefaultDecl, EnumArg, ExportedDecl, Init, ModuleItem,
    Stmt, VarKind,
};
use module_exports::visitor::module_exports_transform;

fn other(p: u64) -> ModuleItem {
    ModuleItem::Stmt(Stmt::Other(p))
}

fn ident_decl(name: &str, init: Option<Init>) -> Declarator {
    Declarator { name: Binding::Ident(name.to_string()), init }
}

fn export_var(kind: VarKind, decls: Vec<Declarator>) -> ModuleItem {
    ModuleItem::ExportDecl(ExportedDecl::Var { kind, decls })
}

fn is_flag(it: &ModuleItem) -> bool {
    matches!(it, ModuleItem::Stmt(Stmt::EsModuleFlag))
}

fn chain_of(it: &ModuleItem) -> Option<&Vec<String>> {
    match it {
        ModuleItem::Stmt(Stmt::VoidChain(ns)) => Some(ns),
        _ => None,
    }
}

fn assert_export_assign_ident(it: &ModuleItem, key: &str, value: &str) {
    match it {
        ModuleItem::Stmt(Stmt::ExportAssign { key: k, value: Assigned::Ident(v) }) => {
            assert_eq!(k, key);
            assert_eq!(v, value);
        }
        _ => panic!("expected exports.{} = {};", key, value),
    }
}

fn assert_export_assign_expr(it: &ModuleItem, key: &str, payload: u64) {
    match it {
        ModuleItem::Stmt(Stmt::ExportAssign { key: k, value: Assigned::Expr(p) }) => {
            assert_eq!(k, key);
            assert_eq!(*p, payload);
        }
        _ => panic!("expected exports.{} = <expr {}>;", key, payload),
    }
}

fn assert_decl(it: &ModuleItem, kind: DeclKind, name: &str, payload: u64) {
    match it {
        ModuleItem::Stmt(Stmt::Decl { kind: k, name: n, payload: p }) => {
            assert_eq!(*k, kind);
            assert_eq!(n, name);
            assert_eq!(*p, payload);
        }
        _ => panic!("expected a retained declaration of {}", name),
    }
}

#[test]
fn empty_module_stays_empty() {
    let out = module_exports_transform(vec![]);
    assert!(out.is_empty());
}

#[test]
fn module_without_exports_is_untouched() {
    let out = module_exports_transform(vec![other(7), other(8)]);
    assert_eq!(out.len(), 2);
    assert!(matches!(&out[0], ModuleItem::Stmt(Stmt::Other(7))));
    assert!(matches!(&out[1], ModuleItem::Stmt(Stmt::Other(8))));
}

#[test]
fn default_expr_lowers_to_exports_default() {
    // `export default 42;` becomes exactly `exports.default = 42;`,
    // preceded by the flag.
    let out = module_exports_transform(vec![ModuleItem::ExportDefaultExpr { value: 42 }]);
    assert_eq!(out.len(), 2);
    assert!(is_flag(&out[0]));
    assert_export_assign_expr(&out[1], "default", 42);
}

#[test]
fn flag_appears_once_at_index_zero() {
    let out = module_exports_transform(vec![
        other(1),
        ModuleItem::ExportDefaultExpr { value: 42 },
        ModuleItem::ExportDefaultExpr { value: 43 },
    ]);
    assert_eq!(out.len(), 4);
    assert!(is_flag(&out[0]));
    assert!(out.iter().skip(1).all(|it| !is_flag(it)));
    assert!(matches!(&out[1], ModuleItem::Stmt(Stmt::Other(1))));
    assert_export_assign_expr(&out[2], "default", 42);
    assert_export_assign_expr(&out[3], "default", 43);
}

#[test]
fn void_chain_holds_names_in_source_order() {
    // export let a = 1, b = 2, c = 3;  (all plain initializers collapse)
    let out = module_exports_transform(vec![export_var(
        VarKind::Let,
        vec![
            ident_decl("a", Some(Init::Plain(1))),
            ident_decl("b", Some(Init::Plain(2))),
            ident_decl("c", Some(Init::Plain(3))),
        ],
    )]);
    assert_eq!(out.len(), 5);
    assert!(is_flag(&out[0]));
    let ns = chain_of(&out[1]).expect("void chain at index 1");
    assert_eq!(ns, &vec!["a".to_string(), "b".to_string(), "c".to_string()]);
    assert_eq!(out.iter().filter(|it| chain_of(it).is_some()).count(), 1);
    assert_export_assign_expr(&out[2], "a", 1);
    assert_export_assign_expr(&out[3], "b", 2);
    assert_export_assign_expr(&out[4], "c", 3);
}

#[test]
fn non_export_statements_keep_relative_order() {
    let out = module_exports_transform(vec![
        other(1),
        ModuleItem::ExportDecl(ExportedDecl::Class { name: "X".to_string(), payload: 10 }),
        other(2),
    ]);
    assert_eq!(out.len(), 6);
    assert!(is_flag(&out[0]));
    assert_eq!(chain_of(&out[1]).expect("void chain"), &vec!["X".to_string()]);
    assert!(matches!(&out[2], ModuleItem::Stmt(Stmt::Other(1))));
    assert_decl(&out[3], DeclKind::Class, "X", 10);
    assert_export_assign_ident(&out[4], "X", "X");
    assert!(matches!(&out[5], ModuleItem::Stmt(Stmt::Other(2))));
}

#[test]
fn two_star_exports_share_one_helper() {
    let out = module_exports_transform(vec![
        ModuleItem::ExportAll { path: "./a".to_string() },
        ModuleItem::ExportAll { path: "./b".to_string() },
    ]);
    assert_eq!(out.len(), 4);
    assert!(is_flag(&out[0]));
    assert!(matches!(&out[1], ModuleItem::Stmt(Stmt::StarHelper)));
    match (&out[2], &out[3]) {
        (
            ModuleItem::Stmt(Stmt::StarCall { path: p1 }),
            ModuleItem::Stmt(Stmt::StarCall { path: p2 }),
        ) => {
            assert_eq!(p1, "./a");
            assert_eq!(p2, "./b");
        }
        _ => panic!("expected two call sites"),
    }
    let helpers = out
        .iter()
        .filter(|it| matches!(it, ModuleItem::Stmt(Stmt::StarHelper)))
        .count();
    assert_eq!(helpers, 1);
}

#[test]
fn helper_stands_after_chain_and_before_calls() {
    let out = module_exports_transform(vec![
        ModuleItem::ExportDecl(ExportedDecl::Func { name: "f".to_string(), payload: 3 }),
        ModuleItem::ExportAll { path: "m".to_string() },
    ]);
    assert_eq!(out.len(), 6);
    assert!(is_flag(&out[0]));
    assert_eq!(chain_of(&out[1]).expect("void chain"), &vec!["f".to_string()]);
    assert!(matches!(&out[2], ModuleItem::Stmt(Stmt::StarHelper)));
    assert_decl(&out[3], DeclKind::Func, "f", 3);
    assert_export_assign_ident(&out[4], "f", "f");
    assert!(matches!(&out[5], ModuleItem::Stmt(Stmt::StarCall { .. })));
}

#[test]
fn anonymous_defaults_get_distinct_names() {
    let out = module_exports_transform(vec![
        ModuleItem::ExportDefaultDecl(DefaultDecl::Func { name: None, payload: 1 }),
        ModuleItem::ExportDefaultDecl(DefaultDecl::Func { name: None, payload: 2 }),
    ]);
    assert_eq!(out.len(), 5);
    assert!(is_flag(&out[0]));
    assert_decl(&out[1], DeclKind::Func, "default_1", 1);
    assert_export_assign_ident(&out[2], "default", "default_1");
    assert_decl(&out[3], DeclKind::Func, "default_2", 2);
    assert_export_assign_ident(&out[4], "default", "default_2");
}

#[test]
fn default_name_counters_are_per_kind() {
    let out = module_exports_transform(vec![
        ModuleItem::ExportDefaultDecl(DefaultDecl::Class { name: None, payload: 1 }),
        ModuleItem::ExportDefaultDecl(DefaultDecl::Func { name: None, payload: 2 }),
    ]);
    assert_eq!(out.len(), 5);
    assert_decl(&out[1], DeclKind::Class, "default_1", 1);
    assert_decl(&out[3], DeclKind::Func, "default_1", 2);
}

#[test]
fn synthetic_names_print_in_decimal() {
    let mut input = Vec::new();
    for p in 0..12u64 {
        input.push(ModuleItem::ExportDefaultDecl(DefaultDecl::Func { name: None, payload: p }));
    }
    let out = module_exports_transform(input);
    assert_eq!(out.len(), 25);
    assert_decl(&out[19], DeclKind::Func, "default_10", 9);
    assert_decl(&out[23], DeclKind::Func, "default_12", 11);
}

#[test]
fn named_default_class_keeps_its_name() {
    let out = module_exports_transform(vec![ModuleItem::ExportDefaultDecl(DefaultDecl::Class {
        name: Some("X".to_string()),
        payload: 11,
    })]);
    assert_eq!(out.len(), 3);
    assert!(is_flag(&out[0]));
    assert_decl(&out[1], DeclKind::Class, "X", 11);
    assert_export_assign_ident(&out[2], "default", "X");
}

#[test]
fn arrow_initializer_keeps_its_declaration() {
    // export const f = () => 1;
    let out = module_exports_transform(vec![export_var(
        VarKind::Const,
        vec![ident_decl("f", Some(Init::ArrowExpr(9)))],
    )]);
    assert_eq!(out.len(), 4);
    assert!(is_flag(&out[0]));
    assert_eq!(chain_of(&out[1]).expect("void chain"), &vec!["f".to_string()]);
    assert_decl(&out[2], DeclKind::Var(VarKind::Const), "f", 9);
    assert_export_assign_ident(&out[3], "f", "f");
}

#[test]
fn plain_initializer_collapses_without_local_binding() {
    // export const x = 1;
    let out = module_exports_transform(vec![export_var(
        VarKind::Const,
        vec![ident_decl("x", Some(Init::Plain(5)))],
    )]);
    assert_eq!(out.len(), 3);
    assert!(is_flag(&out[0]));
    assert_eq!(chain_of(&out[1]).expect("void chain"), &vec!["x".to_string()]);
    assert_export_assign_expr(&out[2], "x", 5);
    assert!(out
        .iter()
        .all(|it| !matches!(it, ModuleItem::Stmt(Stmt::Decl { .. }))));
}

#[test]
fn var_keyword_is_retained_for_function_initializer() {
    let out = module_exports_transform(vec![export_var(
        VarKind::Var,
        vec![ident_decl("g", Some(Init::FuncExpr(4)))],
    )]);
    assert_decl(&out[2], DeclKind::Var(VarKind::Var), "g", 4);
}

#[test]
fn enum_initializer_is_spliced_into_call() {
    // export let Foo;  followed by the already-lowered enum IIFE over Foo.
    let out = module_exports_transform(vec![
        export_var(VarKind::Let, vec![ident_decl("Foo", None)]),
        ModuleItem::Stmt(Stmt::EnumCall {
            name: "Foo".to_string(),
            rhs: EnumArg::Orig(3),
            payload: 4,
        }),
    ]);
    assert_eq!(out.len(), 3);
    assert!(is_flag(&out[0]));
    assert_eq!(chain_of(&out[1]).expect("void chain"), &vec!["Foo".to_string()]);
    match &out[2] {
        ModuleItem::Stmt(Stmt::EnumCall { name, rhs, payload }) => {
            assert_eq!(name, "Foo");
            assert_eq!(*payload, 4);
            match rhs {
                EnumArg::Spliced { name: spliced, rest } => {
                    assert_eq!(spliced, "Foo");
                    assert!(matches!(**rest, EnumArg::Orig(3)));
                }
                _ => panic!("expected the export spliced into the right operand"),
            }
        }
        _ => panic!("expected the enum call statement"),
    }
    // no separate exports.Foo = ...; is emitted
    assert!(out
        .iter()
        .all(|it| !matches!(it, ModuleItem::Stmt(Stmt::ExportAssign { .. }))));
}

#[test]
fn enum_splice_requires_matching_name() {
    let out = module_exports_transform(vec![
        export_var(VarKind::Let, vec![ident_decl("Foo", None)]),
        ModuleItem::Stmt(Stmt::EnumCall {
            name: "Bar".to_string(),
            rhs: EnumArg::Orig(3),
            payload: 4,
        }),
    ]);
    assert_eq!(out.len(), 3);
    match &out[2] {
        ModuleItem::Stmt(Stmt::EnumCall { name, rhs, .. }) => {
            assert_eq!(name, "Bar");
            assert!(matches!(rhs, EnumArg::Orig(3)));
        }
        _ => panic!("expected the call statement unchanged"),
    }
}

#[test]
fn no_initializer_without_enum_call_emits_nothing() {
    let out = module_exports_transform(vec![
        export_var(VarKind::Let, vec![ident_decl("Foo", None)]),
        other(9),
    ]);
    assert_eq!(out.len(), 3);
    assert!(is_flag(&out[0]));
    assert_eq!(chain_of(&out[1]).expect("void chain"), &vec!["Foo".to_string()]);
    assert!(matches!(&out[2], ModuleItem::Stmt(Stmt::Other(9))));
}

#[test]
fn unsupported_declaration_passes_through() {
    let out = module_exports_transform(vec![ModuleItem::ExportDecl(ExportedDecl::Other(5))]);
    assert_eq!(out.len(), 1);
    assert!(matches!(&out[0], ModuleItem::ExportDecl(ExportedDecl::Other(5))));
}

#[test]
fn unsupported_default_declaration_passes_through() {
    let out =
        module_exports_transform(vec![ModuleItem::ExportDefaultDecl(DefaultDecl::Other(6))]);
    assert_eq!(out.len(), 1);
    assert!(matches!(&out[0], ModuleItem::ExportDefaultDecl(DefaultDecl::Other(6))));
}

#[test]
fn pattern_binding_passes_through() {
    let out = module_exports_transform(vec![export_var(
        VarKind::Const,
        vec![Declarator { name: Binding::Pattern(2), init: Some(Init::Plain(3)) }],
    )]);
    assert_eq!(out.len(), 1);
    match &out[0] {
        ModuleItem::ExportDecl(ExportedDecl::Var { kind: VarKind::Const, decls }) => {
            assert_eq!(decls.len(), 1);
            assert!(matches!(decls[0].name, Binding::Pattern(2)));
        }
        _ => panic!("expected the construct untouched"),
    }
}

#[test]
fn class_and_function_exports_chain_in_order() {
    let out = module_exports_transform(vec![
        ModuleItem::ExportDecl(ExportedDecl::Class { name: "A".to_string(), payload: 1 }),
        ModuleItem::ExportDecl(ExportedDecl::Func { name: "b".to_string(), payload: 2 }),
    ]);
    assert_eq!(out.len(), 6);
    assert!(is_flag(&out[0]));
    assert_eq!(
        chain_of(&out[1]).expect("void chain"),
        &vec!["A".to_string(), "b".to_string()]
    );
    assert_decl(&out[2], DeclKind::Class, "A", 1);
    assert_export_assign_ident(&out[3], "A", "A");
    assert_decl(&out[4], DeclKind::Func, "b", 2);
    assert_export_assign_ident(&out[5], "b", "b");
}

#[test]
fn statement_before_star_export_stays_in_place() {
    let out = module_exports_transform(vec![other(1), ModuleItem::ExportAll {
        path: "m".to_string(),
    }]);
    assert_eq!(out.len(), 4);
    assert!(is_flag(&out[0]));
    assert!(matches!(&out[1], ModuleItem::Stmt(Stmt::StarHelper)));
    assert!(matches!(&out[2], ModuleItem::Stmt(Stmt::Other(1))));
    assert!(matches!(&out[3], ModuleItem::Stmt(Stmt::StarCall { .. })));
}

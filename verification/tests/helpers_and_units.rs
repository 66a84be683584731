use swc_ecma_transforms_module::ast::{Kind, Node, Span, VarDeclKind};
use swc_ecma_transforms_module::export_map::ExportMap;
use swc_ecma_transforms_module::exports::{
    add_module_item_meta, build_export_call, build_module_item_export_all, ModuleItemMeta,
};
use swc_ecma_transforms_module::fold::{
    fold_node, replace_assign_expr, replace_update_expr, Flags, FoldCtx,
};
use swc_ecma_transforms_module::hoist::hoist_variables;
use swc_ecma_transforms_module::symbol::{is_eq_sym, local_name_for_src, ExportKey};

fn sp(ctxt: u32) -> Span {
    Span { lo: 0, hi: 0, ctxt }
}

fn node(kind: Kind, children: Vec<Node>) -> Node {
    Node { kind, sym: String::new(), raw: None, span: sp(0), mark: 0, bits: 0, children }
}

fn text(kind: Kind, sym: &str) -> Node {
    Node { kind, sym: sym.to_string(), raw: None, span: sp(0), mark: 0, bits: 0, children: vec![] }
}

fn id(kind: Kind, sym: &str, ctxt: u32, mark: u32) -> Node {
    Node { kind, sym: sym.to_string(), raw: None, span: sp(ctxt), mark, bits: 0, children: vec![] }
}

fn absent() -> Node {
    node(Kind::Absent, vec![])
}

fn list(items: Vec<Node>) -> Node {
    node(Kind::List, items)
}

fn binding(sym: &str, ctxt: u32) -> Node {
    let mut b = id(Kind::BindingIdent, sym, ctxt, 0);
    b.children = vec![absent()];
    b
}

fn show(n: &Node) -> String {
    let mut s = format!("{:?}", n.kind);
    if !n.sym.is_empty() {
        s.push(':');
        s.push_str(&n.sym);
    }
    if !n.children.is_empty() {
        let parts: Vec<String> = n.children.iter().map(show).collect();
        s.push('(');
        s.push_str(&parts.join(", "));
        s.push(')');
    }
    s
}

fn flags() -> Flags {
    Flags { tla: false, enter_async_fn: false, enter_fn: false }
}

fn key(sym: &str, ctxt: Option<u32>) -> ExportKey {
    ExportKey { sym: sym.to_string(), ctxt }
}

#[test]
fn local_name_strips_path_and_extension() {
    assert_eq!(local_name_for_src("./foo.js"), "_foo");
    assert_eq!(local_name_for_src("a/b/c.mjs"), "_c");
    assert_eq!(local_name_for_src("react"), "_react");
    assert_eq!(local_name_for_src("@scope/pkg"), "_pkg");
}

#[test]
fn local_name_makes_a_valid_identifier() {
    assert_eq!(local_name_for_src("./my-lib.js"), "_mylib");
    assert_eq!(local_name_for_src("123"), "_123");
    assert_eq!(local_name_for_src(""), "_");
}

#[test]
fn local_name_of_reserved_word_and_underscore() {
    assert_eq!(local_name_for_src("./class.js"), "_class");
    assert_eq!(local_name_for_src("_x"), "__x");
}

#[test]
fn is_eq_sym_compares_name_and_context() {
    assert!(is_eq_sym(&key("a", Some(1)), &key("a", Some(1))));
    assert!(!is_eq_sym(&key("a", Some(1)), &key("a", Some(2))));
    assert!(!is_eq_sym(&key("a", Some(1)), &key("b", Some(1))));
    assert!(!is_eq_sym(&key("a", Some(1)), &key("a", None)));
    assert!(!is_eq_sym(&key("a", None), &key("a", Some(1))));
    assert!(is_eq_sym(&key("a", None), &key("a", None)));
}

#[test]
fn export_map_appends_names_per_key() {
    let mut m = ExportMap::new();
    assert!(m.get(&key("a", Some(1))).is_none());
    m.add(key("a", Some(1)), "a".to_string());
    m.add(key("b", Some(1)), "b".to_string());
    m.add(key("a", Some(1)), "alias".to_string());
    assert_eq!(m.get(&key("a", Some(1))).unwrap(), &vec!["a".to_string(), "alias".to_string()]);
    assert_eq!(m.get(&key("b", Some(1))).unwrap(), &vec!["b".to_string()]);
    assert!(m.get(&key("a", Some(2))).is_none());
}

fn meta(src: &str, names: &[&str], all: bool) -> ModuleItemMeta {
    ModuleItemMeta {
        exports: names.iter().map(|n| (n.to_string(), text(Kind::ExprIdent, n))).collect(),
        has_export_all: all,
        src: src.to_string(),
        stmts: vec![],
    }
}

#[test]
fn module_item_meta_merges_same_source() {
    let mut list = vec![];
    add_module_item_meta(&mut list, meta("a", &["x"], false));
    add_module_item_meta(&mut list, meta("b", &["y"], false));
    add_module_item_meta(&mut list, meta("a", &["z"], true));
    assert_eq!(list.len(), 2);
    assert_eq!(list[0].src, "a");
    assert_eq!(list[1].src, "b");
    let names: Vec<&str> = list[0].exports.iter().map(|e| e.0.as_str()).collect();
    assert_eq!(names, vec!["x", "z"]);
    assert!(list[0].has_export_all);
    assert!(!list[1].has_export_all);
}

#[test]
fn export_call_of_no_one_and_many_names() {
    assert!(build_export_call(vec![]).is_empty());
    let one = build_export_call(vec![("a".to_string(), text(Kind::ExprIdent, "a"))]);
    assert_eq!(one.len(), 1);
    assert_eq!(
        show(&one[0]),
        "ExprStmt(CallExpr(ExprIdent:_export, List(ExprOrSpread(Absent, Str:a), ExprOrSpread(Absent, ExprIdent:a)), Absent))"
    );
    let many = build_export_call(vec![
        ("a".to_string(), text(Kind::ExprIdent, "a")),
        ("my-name".to_string(), text(Kind::ExprIdent, "b")),
    ]);
    assert_eq!(many.len(), 1);
    assert_eq!(
        show(&many[0]),
        "ExprStmt(CallExpr(ExprIdent:_export, List(ExprOrSpread(Absent, ObjectLit(List(KeyValueProp(Ident:a, ExprIdent:a), KeyValueProp(Str:my-name, ExprIdent:b))))), Absent))"
    );
}

#[test]
fn export_all_setter_copies_every_export() {
    let stmts = build_module_item_export_all(meta("./lib.js", &["extra"], true));
    let shown: Vec<String> = stmts.iter().map(show).collect();
    assert_eq!(shown.len(), 4);
    assert_eq!(
        shown[0],
        "VarDecl { var_kind: Var }(List(VarDeclarator(PatExpr(ExprIdent:exportObj), ObjectLit(List))))"
    );
    assert_eq!(
        shown[1],
        "ForInStmt(VarDecl { var_kind: Var }(List(VarDeclarator(PatExpr(ExprIdent:key), Absent))), ExprIdent:_lib, BlockStmt(List(IfStmt(BinExpr:&&(BinExpr:!==(ExprIdent:key, Str:default), BinExpr:!==(ExprIdent:key, Str:__esModule)), BlockStmt(List(ExprStmt(AssignExpr:=(MemberExpr(ExprIdent:exportObj, ComputedPropName(ExprIdent:key)), MemberExpr(ExprIdent:_lib, ComputedPropName(ExprIdent:key)))))), Absent))))"
    );
    assert_eq!(shown[2], "ExprStmt(AssignExpr:=(MemberExpr(ExprIdent:exportObj, Ident:extra), ExprIdent:extra))");
    assert_eq!(
        shown[3],
        "ExprStmt(CallExpr(ExprIdent:_export, List(ExprOrSpread(Absent, ExprIdent:exportObj)), Absent))"
    );
}

#[test]
fn setter_without_export_all_exports_names() {
    let stmts = build_module_item_export_all(meta("./lib.js", &["a"], false));
    assert_eq!(stmts.len(), 1);
    assert_eq!(
        show(&stmts[0]),
        "ExprStmt(CallExpr(ExprIdent:_export, List(ExprOrSpread(Absent, Str:a), ExprOrSpread(Absent, ExprIdent:a)), Absent))"
    );
}

fn map_with(entries: &[(&str, u32, &[&str])]) -> ExportMap {
    let mut m = ExportMap::new();
    for (sym, ctxt, names) in entries {
        for n in names.iter() {
            m.add(key(sym, Some(*ctxt)), n.to_string());
        }
    }
    m
}

fn assign(left: Node, right: Node) -> Node {
    let mut a = node(Kind::AssignExpr, vec![left, right]);
    a.sym = "=".to_string();
    a
}

#[test]
fn assignment_to_exported_binding_is_reexported() {
    let m = map_with(&[("x", 1, &["x", "y"])]);
    let ctx = FoldCtx { root_mark: 0, allow_top_level_this: false, export_map: &m };
    let a = assign(id(Kind::ExprIdent, "x", 1, 0), text(Kind::Number, "1"));
    let r = replace_assign_expr(&ctx, a);
    assert_eq!(
        show(&r),
        "CallExpr(ExprIdent:_export, List(ExprOrSpread(Absent, Str:y), ExprOrSpread(Absent, CallExpr(ExprIdent:_export, List(ExprOrSpread(Absent, Str:x), ExprOrSpread(Absent, AssignExpr:=(ExprIdent:x, Number:1))), Absent))), Absent)"
    );
    let other = assign(id(Kind::ExprIdent, "x", 2, 0), text(Kind::Number, "1"));
    assert_eq!(show(&replace_assign_expr(&ctx, other)), "AssignExpr:=(ExprIdent:x, Number:1)");
}

#[test]
fn destructuring_assignment_exports_each_binding() {
    let m = map_with(&[("a", 1, &["a"]), ("c", 1, &["c1", "c2"])]);
    let ctx = FoldCtx { root_mark: 0, allow_top_level_this: false, export_map: &m };
    let pat = node(Kind::ArrayPat, vec![list(vec![binding("a", 1), binding("b", 1), binding("c", 1)]), absent()]);
    let r = replace_assign_expr(&ctx, assign(pat, text(Kind::ExprIdent, "arr")));
    let s = show(&r);
    assert!(s.starts_with("SeqExpr(List(AssignExpr:=(ArrayPat("));
    assert_eq!(s.matches("ExprIdent:_export").count(), 3);
    assert!(s.contains("ExprOrSpread(Absent, Str:a), ExprOrSpread(Absent, ExprIdent:a)"));
    assert!(s.contains("ExprOrSpread(Absent, Str:c), ExprOrSpread(Absent, ExprIdent:c)"));
    assert!(!s.contains("Str:b"));
}

#[test]
fn postfix_update_of_exported_binding() {
    let m = map_with(&[("n", 1, &["n"])]);
    let ctx = FoldCtx { root_mark: 0, allow_top_level_this: false, export_map: &m };
    let mut u = node(Kind::UpdateExpr { prefix: false }, vec![id(Kind::ExprIdent, "n", 1, 0)]);
    u.sym = "++".to_string();
    assert_eq!(
        show(&replace_update_expr(&ctx, u)),
        "SeqExpr(List(CallExpr(ExprIdent:_export, List(ExprOrSpread(Absent, Str:n), ExprOrSpread(Absent, BinExpr:+(UnaryExpr:+(ExprIdent:n), Number:1))), Absent), UpdateExpr { prefix: false }:++(ExprIdent:n)))"
    );
    let mut p = node(Kind::UpdateExpr { prefix: true }, vec![id(Kind::ExprIdent, "n", 1, 0)]);
    p.sym = "++".to_string();
    assert_eq!(show(&replace_update_expr(&ctx, p)), "UpdateExpr { prefix: true }:++(ExprIdent:n)");
}

#[test]
fn this_at_top_level_becomes_void_zero() {
    let m = ExportMap::new();
    let ctx = FoldCtx { root_mark: 0, allow_top_level_this: false, export_map: &m };
    let mut fl = flags();
    assert_eq!(show(&fold_node(&ctx, &mut fl, text(Kind::ThisExpr, ""))), "UnaryExpr:void(Number:0)");
    let allow = FoldCtx { root_mark: 0, allow_top_level_this: true, export_map: &m };
    assert_eq!(show(&fold_node(&allow, &mut fl, text(Kind::ThisExpr, ""))), "ThisExpr");
    let mut inside = Flags { tla: false, enter_async_fn: false, enter_fn: true };
    assert_eq!(show(&fold_node(&ctx, &mut inside, text(Kind::ThisExpr, ""))), "ThisExpr");
}

fn function(is_async: bool, body: Vec<Node>) -> Node {
    node(Kind::Function { is_async }, vec![list(vec![]), list(vec![]), node(Kind::BlockStmt, vec![list(body)]), absent(), absent()])
}

fn expr_stmt(e: Node) -> Node {
    node(Kind::ExprStmt, vec![e])
}

#[test]
fn await_outside_async_function_sets_top_level_await() {
    let m = ExportMap::new();
    let ctx = FoldCtx { root_mark: 0, allow_top_level_this: false, export_map: &m };
    let aw = || node(Kind::AwaitExpr, vec![text(Kind::ExprIdent, "p")]);
    let mut fl = flags();
    let decl = node(Kind::FnDecl, vec![id(Kind::Ident, "f", 1, 0), function(true, vec![expr_stmt(aw())])]);
    fold_node(&ctx, &mut fl, decl);
    assert!(!fl.tla);
    assert!(!fl.enter_fn && !fl.enter_async_fn);
    fold_node(&ctx, &mut fl, expr_stmt(aw()));
    assert!(fl.tla);
}

#[test]
fn this_inside_function_declaration_is_kept() {
    let m = ExportMap::new();
    let ctx = FoldCtx { root_mark: 0, allow_top_level_this: false, export_map: &m };
    let mut fl = flags();
    let decl = node(Kind::FnDecl, vec![id(Kind::Ident, "f", 1, 0), function(false, vec![expr_stmt(text(Kind::ThisExpr, ""))])]);
    let r = fold_node(&ctx, &mut fl, decl);
    assert!(show(&r).contains("ExprStmt(ThisExpr)"));
    assert!(!fl.enter_fn);
}

#[test]
fn module_name_import_and_meta_are_rewritten() {
    let m = ExportMap::new();
    let ctx = FoldCtx { root_mark: 7, allow_top_level_this: false, export_map: &m };
    let mut fl = flags();
    assert_eq!(show(&fold_node(&ctx, &mut fl, id(Kind::ExprIdent, "__moduleName", 3, 7))), "MemberExpr(ExprIdent:_context, Ident:id)");
    assert_eq!(show(&fold_node(&ctx, &mut fl, id(Kind::ExprIdent, "__moduleName", 3, 8))), "ExprIdent:__moduleName");
    let call = node(
        Kind::CallExpr,
        vec![node(Kind::Import, vec![]), list(vec![node(Kind::ExprOrSpread, vec![absent(), text(Kind::Str, "./x.js")])]), absent()],
    );
    assert_eq!(
        show(&fold_node(&ctx, &mut fl, call)),
        "CallExpr(MemberExpr(ExprIdent:_context, Ident:import), List(ExprOrSpread(Absent, Str:./x.js)), Absent)"
    );
    let meta = node(Kind::MetaPropExpr { meta_kind: swc_ecma_transforms_module::ast::MetaPropKind::ImportMeta }, vec![]);
    assert_eq!(show(&fold_node(&ctx, &mut fl, meta)), "MemberExpr(ExprIdent:_context, Ident:meta)");
    let short = id(Kind::PropShorthand, "__moduleName", 3, 7);
    assert_eq!(show(&fold_node(&ctx, &mut fl, short)), "KeyValueProp(Ident:__moduleName, MemberExpr(ExprIdent:_context, Ident:id))");
}

fn var_decl(decls: Vec<Node>) -> Node {
    node(Kind::VarDecl { var_kind: VarDeclKind::Var }, vec![list(decls)])
}

fn declarator(name: Node, init: Node) -> Node {
    node(Kind::VarDeclarator, vec![name, init])
}

#[test]
fn hoisting_declares_and_exports_uninitialized() {
    let m = map_with(&[("b", 1, &["b"])]);
    let mut exports = vec![];
    let mut declares = vec![];
    let s = var_decl(vec![declarator(binding("a", 1), text(Kind::Number, "1")), declarator(binding("b", 1), absent())]);
    let r = hoist_variables(&m, &mut exports, &mut declares, s);
    assert_eq!(show(&r), "ExprStmt(SeqExpr(List(AssignExpr:=(BindingIdent:a(Absent), Number:1))))");
    let names: Vec<&str> = declares.iter().map(|d| d.sym.as_str()).collect();
    assert_eq!(names, vec!["a", "b"]);
    assert_eq!(declares[1].span.ctxt, 1);
    assert_eq!(exports.len(), 1);
    assert_eq!(exports[0].0, "b");
    assert_eq!(show(&exports[0].1), "UnaryExpr:void(Number:0)");
}

#[test]
fn hoisting_declaration_without_initializer_leaves_empty_statement() {
    let m = ExportMap::new();
    let mut exports = vec![];
    let mut declares = vec![];
    let r = hoist_variables(&m, &mut exports, &mut declares, var_decl(vec![declarator(binding("a", 1), absent())]));
    assert_eq!(show(&r), "EmptyStmt");
    assert_eq!(declares.len(), 1);
    assert!(exports.is_empty());
}

#[test]
fn hoisting_for_in_head_becomes_pattern() {
    let m = ExportMap::new();
    let mut exports = vec![];
    let mut declares = vec![];
    let s = node(
        Kind::ForInStmt,
        vec![var_decl(vec![declarator(binding("k", 1), absent())]), text(Kind::ExprIdent, "o"), node(Kind::BlockStmt, vec![list(vec![])])],
    );
    let r = hoist_variables(&m, &mut exports, &mut declares, s);
    assert_eq!(show(&r), "ForInStmt(BindingIdent:k(Absent), ExprIdent:o, BlockStmt(List))");
    assert_eq!(declares.len(), 1);
}

#[test]
fn hoisting_for_statement_head_becomes_assignment() {
    let m = ExportMap::new();
    let mut exports = vec![];
    let mut declares = vec![];
    let s = node(
        Kind::ForStmt,
        vec![var_decl(vec![declarator(binding("i", 1), text(Kind::Number, "0"))]), absent(), absent(), node(Kind::EmptyStmt, vec![])],
    );
    let r = hoist_variables(&m, &mut exports, &mut declares, s);
    assert_eq!(show(&r), "ForStmt(SeqExpr(List(AssignExpr:=(BindingIdent:i(Absent), Number:0))), Absent, Absent, EmptyStmt)");
    let let_head = node(
        Kind::ForStmt,
        vec![node(Kind::VarDecl { var_kind: VarDeclKind::Let }, vec![list(vec![declarator(binding("j", 1), absent())])]), absent(), absent(), node(Kind::EmptyStmt, vec![])],
    );
    let r2 = hoist_variables(&m, &mut exports, &mut declares, let_head);
    assert!(show(&r2).starts_with("ForStmt(VarDecl { var_kind: Let }"));
    assert_eq!(declares.len(), 1);
}

#[test]
fn expressions_inside_carried_forms_are_rewritten() {
    let m = ExportMap::new();
    let ctx = FoldCtx { root_mark: 0, allow_top_level_this: false, export_map: &m };
    let mut fl = flags();
    let carried = node(Kind::Carried, vec![text(Kind::ThisExpr, ""), node(Kind::AwaitExpr, vec![text(Kind::ExprIdent, "p")])]);
    let r = fold_node(&ctx, &mut fl, carried);
    assert_eq!(show(&r), "Carried(UnaryExpr:void(Number:0), AwaitExpr(ExprIdent:p))");
    assert!(fl.tla);
    let opaque = node(Kind::Opaque, vec![]);
    assert_eq!(show(&fold_node(&ctx, &mut fl, opaque)), "Opaque");
}

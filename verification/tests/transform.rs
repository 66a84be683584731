use swc_common::FileName;
use swc_ecma_transforms_module::ast::{Kind, Node, Span, VarDeclKind};
use swc_ecma_transforms_module::system_js::{
    accepts_module, system_js, system_js_with_resolver, Config, ImportResolver, NoopImportResolver,
};

fn sp(ctxt: u32) -> Span {
    Span { lo: 0, hi: 0, ctxt }
}

fn node(kind: Kind, children: Vec<Node>) -> Node {
    Node { kind, sym: String::new(), raw: None, span: sp(0), mark: 0, bits: 0, children }
}

fn text(kind: Kind, sym: &str) -> Node {
    Node { kind, sym: sym.to_string(), raw: None, span: sp(0), mark: 0, bits: 0, children: vec![] }
}

fn id(kind: Kind, sym: &str) -> Node {
    Node { kind, sym: sym.to_string(), raw: None, span: sp(1), mark: 1, bits: 0, children: vec![] }
}

fn absent() -> Node {
    node(Kind::Absent, vec![])
}

fn list(items: Vec<Node>) -> Node {
    node(Kind::List, items)
}

fn binding(sym: &str) -> Node {
    let mut b = id(Kind::BindingIdent, sym);
    b.children = vec![absent()];
    b
}

fn module(items: Vec<Node>) -> Node {
    node(Kind::Module, vec![list(items)])
}

fn expr_stmt(e: Node) -> Node {
    node(Kind::ExprStmt, vec![e])
}

fn function(is_async: bool, body: Vec<Node>) -> Node {
    node(Kind::Function { is_async }, vec![list(vec![]), list(vec![]), node(Kind::BlockStmt, vec![list(body)]), absent(), absent()])
}

fn import_decl(specs: Vec<Node>, src: &str) -> Node {
    node(Kind::ImportDecl, vec![list(specs), text(Kind::Str, src), absent()])
}

fn var_decl(decls: Vec<Node>) -> Node {
    node(Kind::VarDecl { var_kind: VarDeclKind::Var }, vec![list(decls)])
}

fn show(n: &Node) -> String {
    let mut s = format!("{:?}", n.kind);
    if !n.sym.is_empty() {
        s.push(':');
        s.push_str(&n.sym);
    }
    if !n.children.is_empty() {
        let parts: Vec<String> = n.children.iter().map(show).collect();
        s.push('(');
        s.push_str(&parts.join(", "));
        s.push(')');
    }
    s
}

fn shown(v: &[Node]) -> Vec<String> {
    v.iter().map(show).collect()
}

/// The parts of `System.register(deps, function (_export, _context) { body })`.
struct Parts {
    deps: Vec<String>,
    body: Vec<Node>,
    setters: Vec<Node>,
    execute: Vec<Node>,
    execute_is_async: bool,
}

fn parts(out: &Node) -> Parts {
    assert_eq!(out.kind, Kind::Module);
    let stmts = &out.children[0].children;
    assert_eq!(stmts.len(), 1);
    let call = &stmts[0].children[0];
    assert_eq!(call.kind, Kind::CallExpr);
    assert_eq!(call.children[0].sym, "System.register");
    let args = &call.children[1].children;
    assert_eq!(args.len(), 2);
    let deps = args[0].children[1].children[0].children.iter().map(|d| d.children[1].sym.clone()).collect();
    let f = &args[1].children[1].children[1];
    assert_eq!(show(&f.children[0]), "List(Param(List, BindingIdent:_export(Absent)), Param(List, BindingIdent:_context(Absent)))");
    let body = f.children[2].children[0].children.clone();
    let ret = body.last().unwrap();
    assert_eq!(ret.kind, Kind::ReturnStmt);
    let props = &ret.children[0].children[0].children;
    assert_eq!(props[0].children[0].sym, "setters");
    assert_eq!(props[1].children[0].sym, "execute");
    let setters = props[0].children[1].children[0].children.clone();
    let exec_fn = &props[1].children[1].children[1];
    let execute_is_async = exec_fn.kind == (Kind::Function { is_async: true });
    let execute = exec_fn.children[2].children[0].children.clone();
    Parts { deps, body, setters, execute, execute_is_async }
}

fn transform(items: Vec<Node>) -> Parts {
    let mut pass = system_js(1, Config::default());
    let out = pass.fold_module(module(items)).ok().unwrap();
    parts(&out)
}

#[test]
fn empty_module_registers_nothing() {
    let mut pass = system_js(1, Config::default());
    let out = pass.fold_module(module(vec![])).ok().unwrap();
    assert_eq!(
        show(&out),
        "Module(List(ExprStmt(CallExpr(ExprIdent:System.register, List(ExprOrSpread(Absent, ArrayLit(List)), ExprOrSpread(Absent, FnExpr(Absent, Function { is_async: false }(List(Param(List, BindingIdent:_export(Absent)), Param(List, BindingIdent:_context(Absent))), List, BlockStmt(List(ExprStmt(Str:use strict), ReturnStmt(ObjectLit(List(KeyValueProp(Ident:setters, ArrayLit(List)), KeyValueProp(Ident:execute, FnExpr(Absent, Function { is_async: false }(List, List, BlockStmt(List), Absent, Absent)))))))), Absent, Absent)))), Absent))))"
    );
}

#[test]
fn default_import_becomes_setter() {
    let p = transform(vec![import_decl(vec![node(Kind::ImportDefaultSpecifier, vec![id(Kind::Ident, "x")])], "./dep.js")]);
    assert_eq!(p.deps, vec!["./dep.js"]);
    assert_eq!(
        shown(&p.body)[..2],
        ["ExprStmt(Str:use strict)".to_string(), "VarDecl { var_kind: Var }(List(VarDeclarator(BindingIdent:x(Absent), Absent)))".to_string()]
    );
    assert_eq!(p.setters.len(), 1);
    assert_eq!(
        show(&p.setters[0]),
        "ExprOrSpread(Absent, FnExpr(Absent, Function { is_async: false }(List(Param(List, BindingIdent:_dep(Absent))), List, BlockStmt(List(ExprStmt(AssignExpr:=(ExprIdent:x, MemberExpr(ExprIdent:_dep, Ident:default))))), Absent, Absent)))"
    );
    assert!(p.execute.is_empty());
}

#[test]
fn imports_of_one_source_share_one_setter() {
    let p = transform(vec![
        import_decl(vec![node(Kind::ImportDefaultSpecifier, vec![id(Kind::Ident, "a")])], "lib"),
        import_decl(vec![node(Kind::ImportStarAsSpecifier, vec![id(Kind::Ident, "ns")])], "other"),
        import_decl(vec![node(Kind::ImportNamedSpecifier, vec![id(Kind::Ident, "b"), id(Kind::Ident, "orig")])], "lib"),
    ]);
    assert_eq!(p.deps, vec!["lib", "other"]);
    assert_eq!(p.setters.len(), 2);
    let first = show(&p.setters[0]);
    assert!(first.contains("AssignExpr:=(ExprIdent:a, MemberExpr(ExprIdent:_lib, Ident:default))"));
    assert!(first.contains("AssignExpr:=(ExprIdent:b, MemberExpr(ExprIdent:_lib, Ident:orig))"));
    assert!(show(&p.setters[1]).contains("AssignExpr:=(ExprIdent:ns, ExprIdent:_other)"));
    assert_eq!(
        show(&p.body[1]),
        "VarDecl { var_kind: Var }(List(VarDeclarator(BindingIdent:a(Absent), Absent), VarDeclarator(BindingIdent:ns(Absent), Absent), VarDeclarator(BindingIdent:b(Absent), Absent)))"
    );
}

#[test]
fn export_default_expression_exports_in_execute() {
    let p = transform(vec![node(Kind::ExportDefaultExpr, vec![text(Kind::Number, "42")])]);
    assert_eq!(
        shown(&p.execute),
        vec!["ExprStmt(CallExpr(ExprIdent:_export, List(ExprOrSpread(Absent, Str:default), ExprOrSpread(Absent, Number:42)), Absent))"]
    );
}

#[test]
fn exported_function_is_hoisted_and_exported() {
    let decl = node(Kind::FnDecl, vec![id(Kind::Ident, "f"), function(false, vec![])]);
    let p = transform(vec![node(Kind::ExportDecl, vec![decl])]);
    let body = shown(&p.body);
    assert_eq!(body.len(), 4);
    assert!(body[1].starts_with("FnDecl(Ident:f, Function"));
    assert_eq!(body[2], "ExprStmt(CallExpr(ExprIdent:_export, List(ExprOrSpread(Absent, Str:f), ExprOrSpread(Absent, ExprIdent:f)), Absent))");
}

#[test]
fn exported_variables_are_hoisted() {
    let decl = var_decl(vec![
        node(Kind::VarDeclarator, vec![binding("a"), text(Kind::Number, "1")]),
        node(Kind::VarDeclarator, vec![binding("b"), absent()]),
    ]);
    let p = transform(vec![node(Kind::ExportDecl, vec![decl])]);
    let body = shown(&p.body);
    assert_eq!(
        body[1],
        "VarDecl { var_kind: Var }(List(VarDeclarator(BindingIdent:a(Absent), Absent), VarDeclarator(BindingIdent:b(Absent), Absent)))"
    );
    assert_eq!(
        body[2],
        "ExprStmt(CallExpr(ExprIdent:_export, List(ExprOrSpread(Absent, Str:b), ExprOrSpread(Absent, UnaryExpr:void(Number:0))), Absent))"
    );
    assert_eq!(
        shown(&p.execute),
        vec!["ExprStmt(SeqExpr(List(CallExpr(ExprIdent:_export, List(ExprOrSpread(Absent, Str:a), ExprOrSpread(Absent, AssignExpr:=(BindingIdent:a(Absent), Number:1))), Absent))))"]
    );
}

#[test]
fn several_exports_are_published_in_one_call() {
    let f = node(Kind::ExportDecl, vec![node(Kind::FnDecl, vec![id(Kind::Ident, "f"), function(false, vec![])])]);
    let c = node(Kind::ExportDecl, vec![node(Kind::ClassDecl, vec![id(Kind::Ident, "C"), node(Kind::Opaque, vec![])])]);
    let p = transform(vec![f, c]);
    let body = shown(&p.body);
    assert_eq!(body[1], "VarDecl { var_kind: Var }(List(VarDeclarator(BindingIdent:C(Absent), Absent)))");
    assert_eq!(
        body[3],
        "ExprStmt(CallExpr(ExprIdent:_export, List(ExprOrSpread(Absent, ObjectLit(List(KeyValueProp(Ident:f, ExprIdent:f), KeyValueProp(Ident:C, UnaryExpr:void(Number:0)))))), Absent))"
    );
    assert_eq!(
        shown(&p.execute),
        vec!["ExprStmt(CallExpr(ExprIdent:_export, List(ExprOrSpread(Absent, Str:C), ExprOrSpread(Absent, AssignExpr:=(ExprIdent:C, ClassExpr(Ident:C, Opaque)))), Absent))"]
    );
}

#[test]
fn class_declaration_is_assigned_in_execute() {
    let p = transform(vec![node(Kind::ClassDecl, vec![id(Kind::Ident, "A"), node(Kind::Opaque, vec![])])]);
    assert_eq!(show(&p.body[1]), "VarDecl { var_kind: Var }(List(VarDeclarator(BindingIdent:A(Absent), Absent)))");
    assert_eq!(shown(&p.execute), vec!["ExprStmt(AssignExpr:=(ExprIdent:A, ClassExpr(Ident:A, Opaque)))"]);
}

#[test]
fn export_from_reexports_in_setter() {
    let spec = node(Kind::ExportNamedSpecifier, vec![id(Kind::Ident, "a"), id(Kind::Ident, "b")]);
    let p = transform(vec![node(Kind::NamedExport, vec![list(vec![spec]), text(Kind::Str, "./m.js"), absent()])]);
    assert_eq!(p.deps, vec!["./m.js"]);
    assert_eq!(
        show(&p.setters[0]),
        "ExprOrSpread(Absent, FnExpr(Absent, Function { is_async: false }(List(Param(List, BindingIdent:_m(Absent))), List, BlockStmt(List(ExprStmt(CallExpr(ExprIdent:_export, List(ExprOrSpread(Absent, Str:b), ExprOrSpread(Absent, MemberExpr(ExprIdent:_m, Ident:a))), Absent)))), Absent, Absent)))"
    );
}

#[test]
fn export_star_copies_all_exports() {
    let p = transform(vec![node(Kind::ExportAll, vec![text(Kind::Str, "./all.js"), absent()])]);
    assert_eq!(p.deps, vec!["./all.js"]);
    let s = show(&p.setters[0]);
    assert!(s.contains("BindingIdent:_all(Absent)"));
    assert!(s.contains("ForInStmt("));
    assert!(s.contains("ExprStmt(CallExpr(ExprIdent:_export, List(ExprOrSpread(Absent, ExprIdent:exportObj)), Absent))"));
}

#[test]
fn local_export_of_hoisted_function() {
    let f = node(Kind::FnDecl, vec![id(Kind::Ident, "g"), function(false, vec![])]);
    let spec = node(Kind::ExportNamedSpecifier, vec![id(Kind::Ident, "g"), id(Kind::Ident, "h")]);
    let p = transform(vec![f, node(Kind::NamedExport, vec![list(vec![spec]), absent(), absent()])]);
    assert_eq!(
        show(&p.body[2]),
        "ExprStmt(CallExpr(ExprIdent:_export, List(ExprOrSpread(Absent, Str:h), ExprOrSpread(Absent, ExprIdent:g)), Absent))"
    );
}

#[test]
fn local_export_of_imported_name() {
    let imp = import_decl(vec![node(Kind::ImportDefaultSpecifier, vec![id(Kind::Ident, "x")])], "m");
    let spec = node(Kind::ExportNamedSpecifier, vec![id(Kind::Ident, "x"), id(Kind::Ident, "y")]);
    let p = transform(vec![imp, node(Kind::NamedExport, vec![list(vec![spec]), absent(), absent()])]);
    assert_eq!(
        shown(&p.execute),
        vec!["ExprStmt(CallExpr(ExprIdent:_export, List(ExprOrSpread(Absent, Str:x), ExprOrSpread(Absent, ExprIdent:y)), Absent))"]
    );
}

#[test]
fn assignment_to_local_export_is_reexported() {
    let decl = var_decl(vec![node(Kind::VarDeclarator, vec![binding("v"), absent()])]);
    let spec = node(Kind::ExportNamedSpecifier, vec![id(Kind::Ident, "v"), absent()]);
    let mut a = node(Kind::AssignExpr, vec![id(Kind::ExprIdent, "v"), text(Kind::Number, "2")]);
    a.sym = "=".to_string();
    let p = transform(vec![decl, node(Kind::NamedExport, vec![list(vec![spec]), absent(), absent()]), expr_stmt(a)]);
    assert_eq!(
        show(&p.body[2]),
        "ExprStmt(CallExpr(ExprIdent:_export, List(ExprOrSpread(Absent, Str:v), ExprOrSpread(Absent, UnaryExpr:void(Number:0))), Absent))"
    );
    assert_eq!(
        shown(&p.execute),
        vec!["ExprStmt(CallExpr(ExprIdent:_export, List(ExprOrSpread(Absent, Str:v), ExprOrSpread(Absent, AssignExpr:=(ExprIdent:v, Number:2))), Absent))"]
    );
}

#[test]
fn top_level_await_makes_execute_async() {
    let aw = node(Kind::AwaitExpr, vec![id(Kind::ExprIdent, "p")]);
    let p = transform(vec![expr_stmt(aw)]);
    assert!(p.execute_is_async);
    let q = transform(vec![expr_stmt(id(Kind::ExprIdent, "p"))]);
    assert!(!q.execute_is_async);
}

#[test]
fn top_level_this_is_void_unless_allowed() {
    let p = transform(vec![expr_stmt(text(Kind::ThisExpr, ""))]);
    assert_eq!(shown(&p.execute), vec!["ExprStmt(UnaryExpr:void(Number:0))"]);
    let mut pass = system_js(1, Config { allow_top_level_this: true });
    let out = pass.fold_module(module(vec![expr_stmt(text(Kind::ThisExpr, ""))])).ok().unwrap();
    assert_eq!(shown(&parts(&out).execute), vec!["ExprStmt(ThisExpr)"]);
}

#[test]
fn empty_statements_are_dropped() {
    let p = transform(vec![node(Kind::EmptyStmt, vec![]), expr_stmt(id(Kind::ExprIdent, "p"))]);
    assert_eq!(shown(&p.execute), vec!["ExprStmt(ExprIdent:p)"]);
}

#[test]
fn dependencies_keep_shebang_and_span() {
    let mut m = module(vec![]);
    m.raw = Some("#!/usr/bin/env node".to_string());
    m.span = Span { lo: 3, hi: 9, ctxt: 0 };
    let mut pass = system_js(1, Config::default());
    let out = pass.fold_module(m).ok().unwrap();
    assert_eq!(out.raw, Some("#!/usr/bin/env node".to_string()));
    assert_eq!(out.span, Span { lo: 3, hi: 9, ctxt: 0 });
}

struct Prefix;

impl ImportResolver for Prefix {
    fn resolve_import(&self, _base: &FileName, module_specifier: &str) -> Result<String, anyhow::Error> {
        if module_specifier == "bad" {
            Err(anyhow::Error::msg("cannot resolve"))
        } else {
            Ok(format!("/abs/{}", module_specifier))
        }
    }
}

#[test]
fn resolver_rewrites_sources() {
    let mut pass = system_js_with_resolver(Prefix, FileName::Anon, 1, Config::default());
    let imp = import_decl(vec![node(Kind::ImportDefaultSpecifier, vec![id(Kind::Ident, "x")])], "dep");
    let out = pass.fold_module(module(vec![imp])).ok().unwrap();
    let p = parts(&out);
    assert_eq!(p.deps, vec!["/abs/dep"]);
    assert!(show(&p.setters[0]).contains("BindingIdent:_dep(Absent)"));
}

#[test]
fn resolver_failure_is_reported() {
    let mut pass = system_js_with_resolver(Prefix, FileName::Anon, 1, Config::default());
    let imp = import_decl(vec![], "bad");
    match pass.fold_module(module(vec![imp])) {
        Ok(_) => panic!("the import should not resolve"),
        Err(e) => {
            assert_eq!(e.specifier, "bad");
            assert_eq!(e.cause.to_string(), "cannot resolve");
        }
    }
}

#[test]
fn export_star_source_is_not_resolved() {
    let mut pass = system_js_with_resolver(Prefix, FileName::Anon, 1, Config::default());
    let out = pass.fold_module(module(vec![node(Kind::ExportAll, vec![text(Kind::Str, "bad"), absent()])])).ok().unwrap();
    assert_eq!(parts(&out).deps, vec!["bad"]);
}

#[test]
fn noop_resolver_keeps_specifier() {
    let r = NoopImportResolver.resolve_import(&FileName::Anon, "./a.js");
    assert_eq!(r.ok().unwrap(), "./a.js");
}

#[test]
fn rejected_loop_head_is_not_accepted() {
    let bad = node(Kind::ForInStmt, vec![var_decl(vec![]), id(Kind::ExprIdent, "o"), node(Kind::BlockStmt, vec![list(vec![])])]);
    assert!(!accepts_module(&module(vec![bad])));
    let good = node(
        Kind::ForInStmt,
        vec![var_decl(vec![node(Kind::VarDeclarator, vec![binding("k"), absent()])]), id(Kind::ExprIdent, "o"), node(Kind::BlockStmt, vec![list(vec![])])],
    );
    assert!(accepts_module(&module(vec![good])));
}

#[test]
fn config_default_does_not_allow_top_level_this() {
    assert!(!Config::default().allow_top_level_this);
}

#[test]
fn declarations_accumulate_across_modules() {
    let mut pass = system_js(1, Config::default());
    let first = import_decl(vec![node(Kind::ImportDefaultSpecifier, vec![id(Kind::Ident, "a")])], "x");
    pass.fold_module(module(vec![first])).ok().unwrap();
    let out = pass.fold_module(module(vec![])).ok().unwrap();
    let p = parts(&out);
    assert!(p.deps.is_empty());
    assert_eq!(show(&p.body[1]), "VarDecl { var_kind: Var }(List(VarDeclarator(BindingIdent:a(Absent), Absent)))");
}

#[test]
fn fold_node_rewrites_outside_modules() {
    let mut pass = system_js(5, Config::default());
    let mut n = id(Kind::ExprIdent, "__moduleName");
    n.mark = 5;
    assert_eq!(show(&pass.fold_node(n)), "MemberExpr(ExprIdent:_context, Ident:id)");
}

/// The number of children of the kinds that occur below, `None` for a list.
fn arity(k: Kind) -> Option<usize> {
    match k {
        Kind::List => None,
        Kind::Module | Kind::ExprStmt | Kind::BlockStmt | Kind::ReturnStmt | Kind::ObjectLit
        | Kind::ArrayLit | Kind::VarDecl { .. } | Kind::UnaryExpr | Kind::SeqExpr
        | Kind::ComputedPropName | Kind::PatExpr | Kind::BindingIdent | Kind::AwaitExpr => Some(1),
        Kind::ExprOrSpread | Kind::FnExpr | Kind::Param | Kind::KeyValueProp | Kind::VarDeclarator
        | Kind::MemberExpr | Kind::AssignExpr | Kind::BinExpr | Kind::ClassExpr | Kind::FnDecl => Some(2),
        Kind::CallExpr | Kind::ForInStmt | Kind::IfStmt => Some(3),
        Kind::Function { .. } => Some(5),
        Kind::Str | Kind::Ident | Kind::ExprIdent | Kind::Number | Kind::Absent | Kind::Opaque
        | Kind::ThisExpr => Some(0),
        other => panic!("no arity listed for {:?}", other),
    }
}

fn check_arities(n: &Node) {
    if let Some(a) = arity(n.kind) {
        assert_eq!(n.children.len(), a, "{:?}", n.kind);
    }
    for c in &n.children {
        check_arities(c);
    }
}

#[test]
fn transformed_module_is_well_formed() {
    let import = import_decl(vec![node(Kind::ImportDefaultSpecifier, vec![id(Kind::Ident, "x")])], "./dep.js");
    let export_var = node(
        Kind::ExportDecl,
        vec![var_decl(vec![node(Kind::VarDeclarator, vec![binding("v"), text(Kind::Number, "1")])])],
    );
    let export_class = node(Kind::ExportDecl, vec![node(Kind::ClassDecl, vec![id(Kind::Ident, "C"), node(Kind::Opaque, vec![])])]);
    let export_fn = node(Kind::ExportDecl, vec![node(Kind::FnDecl, vec![id(Kind::Ident, "f"), function(false, vec![])])]);
    let star = node(Kind::ExportAll, vec![text(Kind::Str, "./all.js"), absent()]);
    let for_in = node(
        Kind::ForInStmt,
        vec![var_decl(vec![node(Kind::VarDeclarator, vec![binding("k"), absent()])]), id(Kind::ExprIdent, "o"), node(Kind::BlockStmt, vec![list(vec![])])],
    );
    let this_stmt = expr_stmt(text(Kind::ThisExpr, ""));
    let await_stmt = expr_stmt(node(Kind::AwaitExpr, vec![id(Kind::ExprIdent, "p")]));
    let mut pass = system_js(1, Config::default());
    let out = pass
        .fold_module(module(vec![import, export_var, export_class, export_fn, star, for_in, this_stmt, await_stmt]))
        .ok()
        .unwrap();
    check_arities(&out);
    let p = parts(&out);
    assert_eq!(p.deps, vec!["./dep.js", "./all.js"]);
    assert!(p.execute_is_async);
}

struct Recorder {
    calls: std::rc::Rc<std::cell::RefCell<Vec<(String, String)>>>,
}

impl ImportResolver for Recorder {
    fn resolve_import(&self, base: &FileName, module_specifier: &str) -> Result<String, anyhow::Error> {
        self.calls.borrow_mut().push((base.to_string(), module_specifier.to_string()));
        Ok(format!("{}#{}", module_specifier, self.calls.borrow().len()))
    }
}

#[test]
fn resolver_gets_each_source_with_base_in_order() {
    let calls = std::rc::Rc::new(std::cell::RefCell::new(vec![]));
    let recorder = Recorder { calls: calls.clone() };
    let base = FileName::Custom("base.js".to_string());
    let base_text = base.to_string();
    let mut pass = system_js_with_resolver(recorder, base, 1, Config::default());
    let first = import_decl(vec![node(Kind::ImportDefaultSpecifier, vec![id(Kind::Ident, "a")])], "one");
    let spec = node(Kind::ExportNamedSpecifier, vec![id(Kind::Ident, "b"), absent()]);
    let reexport = node(Kind::NamedExport, vec![list(vec![spec]), text(Kind::Str, "two"), absent()]);
    let star = node(Kind::ExportAll, vec![text(Kind::Str, "three"), absent()]);
    let out = pass.fold_module(module(vec![first, star, reexport])).ok().unwrap();
    assert_eq!(parts(&out).deps, vec!["one#1", "three", "two#2"]);
    let seen = calls.borrow().clone();
    assert_eq!(seen, vec![(base_text.clone(), "one".to_string()), (base_text, "two".to_string())]);
}

#[test]
fn noop_resolver_gives_the_same_module_as_no_resolver() {
    let items = || {
        vec![
            import_decl(vec![node(Kind::ImportDefaultSpecifier, vec![id(Kind::Ident, "a")])], "./one.js"),
            node(Kind::ExportAll, vec![text(Kind::Str, "./two.js"), absent()]),
        ]
    };
    let mut plain = system_js(1, Config::default());
    let mut noop = system_js_with_resolver(NoopImportResolver, FileName::Anon, 1, Config::default());
    let a = plain.fold_module(module(items())).ok().unwrap();
    let b = noop.fold_module(module(items())).ok().unwrap();
    assert_eq!(show(&a), show(&b));
}

#[test]
fn await_inside_a_carried_form_makes_execute_async() {
    let aw = node(Kind::AwaitExpr, vec![id(Kind::ExprIdent, "p")]);
    let p = transform(vec![expr_stmt(node(Kind::Carried, vec![aw]))]);
    assert!(p.execute_is_async);
    assert_eq!(shown(&p.execute), vec!["ExprStmt(Carried(AwaitExpr(ExprIdent:p)))"]);
}

//! The transform keeps syntax trees well-formed.
use vstd::prelude::*;
use crate::ast::{
    Kind, SNode, Span, VarDeclKind, absent, arity, as_arg, assign, bin, block, call, computed_member, dummy_sp,
    expr_stmt, fn_expr, function, key_value, list, member, mk, num_lit, object_lit, params_of,
    is_name_kind, positions_ok, quote_ident, seq_expr, str_lit, undefined_expr, var_decl, var_declarator, binding_ident,
    well_formed, with_children, with_kind,
};
use crate::exports::{
    SMeta, add_meta, find_src, lemma_find_src, merge_meta, export_all_stmts, export_call_stmts, export_obj, export_obj_assign, export_prop, key_ident,
    prop_key, setter_body,
};
use crate::hoist::{
    HoistAcc, declarator_init, declarator_name, declared_ident, decls_of, hoist_bindings,
    hoist_declarators, hoist_for_var_decl, hoist_stmt, undefined_exports,
};
use crate::items::{
    ImportAcc, SCollected, SItemAcc, class_assign, class_expr, export_expr, export_from_entry,
    export_from_specs, export_local_specs, export_member_prop, export_name, import_spec_step,
    import_specs, member_of, process_export_decl, process_export_default_decl, process_item,
    process_items, resolve_targets, resolves, root_fn_idents,
};
use crate::symbol::local_name_of;
use crate::system_js::{
    SState, collect_phase, env_of, execute_list, module_body, transform, use_strict, array_lit, declare_declarator, declare_stmts, declared_binding, dep_args, register_call,
    register_module, return_stmt, setter_args,
};
use crate::fold::{
    Flags, SBinding, SEnv, binding_export_calls, binding_expr, bindings, context_ident, export_call,
    export_ident, fold, fold_children, fold_list, ident_key, module_name_ident,
    nest_export_calls, replace_assign, replace_update, unary,
};
use crate::laws::law_fold_list_len;

verus! {

/// A node whose children are well-formed and have the number that its kind
/// asks for is well-formed.
proof fn lemma_wf(n: SNode)
    requires
        match arity(n.kind) {
            Some(a) => n.children.len() == a,
            None => true,
        },
        positions_ok(n),
        forall|i: int| 0 <= i < n.children.len() ==> well_formed(#[trigger] n.children[i]),
    ensures
        well_formed(n),
{
}

proof fn lemma_wf_children(n: SNode)
    requires
        well_formed(n),
    ensures
        match arity(n.kind) {
            Some(a) => n.children.len() == a,
            None => true,
        },
        positions_ok(n),
        forall|i: int| 0 <= i < n.children.len() ==> well_formed(#[trigger] n.children[i]),
{
}

proof fn lemma_wf_leaf(n: SNode)
    requires
        arity(n.kind) == Some(0nat) || arity(n.kind) is None,
        n.children.len() == 0,
    ensures
        well_formed(n),
{
    lemma_wf(n);
}

proof fn lemma_wf_member(obj: SNode, prop: Seq<char>)
    requires
        well_formed(obj),
    ensures
        well_formed(member(obj, prop)),
{
    lemma_wf_leaf(quote_ident(Kind::Ident, prop));
    let m = member(obj, prop);
    assert(m.children[0] == obj);
    lemma_wf(m);
}

proof fn lemma_wf_as_arg(e: SNode)
    requires
        well_formed(e),
    ensures
        well_formed(as_arg(e)),
{
    lemma_wf_leaf(crate::ast::absent());
    let a = as_arg(e);
    assert(a.children[1] == e);
    lemma_wf(a);
}

proof fn lemma_wf_list(items: Seq<SNode>)
    requires
        forall|i: int| 0 <= i < items.len() ==> well_formed(#[trigger] items[i]),
    ensures
        well_formed(list(items)),
{
    lemma_wf(list(items));
}

proof fn lemma_wf_export_call(name: Seq<char>, span: crate::ast::Span, arg: SNode)
    requires
        well_formed(arg),
    ensures
        well_formed(export_call(name, span, arg)),
{
    lemma_wf_leaf(str_lit(name));
    lemma_wf_as_arg(str_lit(name));
    lemma_wf_leaf(export_ident());
    lemma_wf_leaf(crate::ast::absent());
    let args = seq![as_arg(str_lit(name)), arg];
    assert forall|i: int| 0 <= i < args.len() implies well_formed(#[trigger] args[i]) by {
        if i == 0 {
            assert(args[i] == as_arg(str_lit(name)));
        } else {
            assert(args[i] == arg);
        }
    }
    lemma_wf_list(args);
    let c = export_call(name, span, arg);
    assert(c.children[1] == list(args));
    lemma_wf(c);
}

proof fn lemma_wf_nest(names: Seq<Seq<char>>, e: SNode)
    requires
        well_formed(e),
    ensures
        well_formed(nest_export_calls(names, e)),
    decreases names.len(),
{
    if names.len() > 0 {
        lemma_wf_nest(names.drop_last(), e);
        lemma_wf_as_arg(nest_export_calls(names.drop_last(), e));
        lemma_wf_export_call(names.last(), dummy_sp(), as_arg(nest_export_calls(names.drop_last(), e)));
    }
}

proof fn lemma_wf_seq_expr(exprs: Seq<SNode>)
    requires
        forall|i: int| 0 <= i < exprs.len() ==> well_formed(#[trigger] exprs[i]),
    ensures
        well_formed(seq_expr(exprs)),
{
    lemma_wf_list(exprs);
    let s = seq_expr(exprs);
    assert(s.children[0] == list(exprs));
    lemma_wf(s);
}

proof fn lemma_wf_binding_export_calls(
    m: Map<(Seq<char>, Option<u32>), Seq<Seq<char>>>,
    bs: Seq<SBinding>,
)
    ensures
        forall|i: int| 0 <= i < binding_export_calls(m, bs).len() ==> well_formed(#[trigger] binding_export_calls(m, bs)[i]),
    decreases bs.len(),
{
    if bs.len() > 0 {
        lemma_wf_binding_export_calls(m, bs.drop_last());
        let b = bs.last();
        lemma_wf_leaf(binding_expr(b));
        lemma_wf_as_arg(binding_expr(b));
        lemma_wf_export_call(b.0, dummy_sp(), as_arg(binding_expr(b)));
        let front = binding_export_calls(m, bs.drop_last());
        let key = (b.0, Some(b.1));
        let back = if m.dom().contains(key) {
            Seq::new(m[key].len(), |_i: int| export_call(b.0, dummy_sp(), as_arg(binding_expr(b))))
        } else {
            Seq::empty()
        };
        assert(binding_export_calls(m, bs) == front + back);
        assert forall|i: int| 0 <= i < (front + back).len() implies well_formed(#[trigger] (front + back)[i]) by {
            if i < front.len() {
                assert((front + back)[i] == front[i]);
            } else {
                assert((front + back)[i] == back[i - front.len()]);
            }
        }
    }
}

proof fn lemma_wf_replace_assign(env: SEnv, a: SNode)
    requires
        well_formed(a),
    ensures
        well_formed(replace_assign(env, a)),
{
    if a.children.len() == 2 {
        let left = a.children[0];
        if crate::ast::is_pat_kind(left.kind) {
            match left.kind {
                Kind::BindingIdent => {
                    if env.export_map.dom().contains(ident_key(left)) {
                        lemma_wf_nest(env.export_map[ident_key(left)], a);
                    }
                },
                Kind::ObjectPat | Kind::ArrayPat => {
                    let calls = binding_export_calls(env.export_map, bindings(left));
                    lemma_wf_binding_export_calls(env.export_map, bindings(left));
                    let exprs = seq![a] + calls;
                    assert forall|i: int| 0 <= i < exprs.len() implies well_formed(#[trigger] exprs[i]) by {
                        if i == 0 {
                            assert(exprs[i] == a);
                        } else {
                            assert(exprs[i] == calls[i - 1]);
                        }
                    }
                    lemma_wf_seq_expr(exprs);
                },
                _ => {},
            }
        } else if left.kind == Kind::ExprIdent {
            if env.export_map.dom().contains(ident_key(left)) {
                lemma_wf_nest(env.export_map[ident_key(left)], a);
            }
        }
    }
}

proof fn lemma_wf_replace_update(env: SEnv, u: SNode)
    requires
        well_formed(u),
    ensures
        well_formed(replace_update(env, u)),
{
    match u.kind {
        Kind::UpdateExpr { prefix } => {
            if !prefix && u.children.len() == 1 && u.children[0].kind == Kind::ExprIdent
                && env.export_map.dom().contains(ident_key(u.children[0])) {
                let arg = u.children[0];
                let un = unary("+"@, arg);
                assert(un.children[0] == arg);
                lemma_wf(un);
                lemma_wf_leaf(num_lit("1"@, dummy_sp()));
                let b = bin("+"@, un, num_lit("1"@, dummy_sp()));
                assert(b.children[0] == un);
                lemma_wf(b);
                let nested = nest_export_calls(env.export_map[ident_key(arg)], b);
                lemma_wf_nest(env.export_map[ident_key(arg)], b);
                let exprs = seq![nested, u];
                assert forall|i: int| 0 <= i < exprs.len() implies well_formed(#[trigger] exprs[i]) by {
                    if i == 0 {
                        assert(exprs[i] == nested);
                    } else {
                        assert(exprs[i] == u);
                    }
                }
                lemma_wf_seq_expr(exprs);
            }
        },
        _ => {},
    }
}

proof fn lemma_wf_module_name(env: SEnv, id: SNode)
    requires
        well_formed(id),
    ensures
        well_formed(module_name_ident(env, id)),
{
    lemma_wf_leaf(context_ident());
    lemma_wf_member(context_ident(), "id"@);
}

/// The rewriting keeps a well-formed tree well-formed.
pub proof fn law_fold_well_formed(env: SEnv, fl: Flags, n: SNode)
    requires
        well_formed(n),
    ensures
        well_formed(fold(env, fl, n).1),
    decreases n, 1int,
{
    lemma_wf_children(n);
    lemma_wf_leaf(context_ident());
    match n.kind {
        Kind::ExprIdent => {
            lemma_wf_module_name(env, n);
        },
        Kind::AssignExpr => {
            if n.children.len() == 2 {
                law_fold_well_formed(env, fl, n.children[0]);
                let (fl1, left) = fold(env, fl, n.children[0]);
                let r = n.children[1];
                let right = if r.kind == Kind::ExprIdent {
                    lemma_wf_module_name(env, r);
                    module_name_ident(env, r)
                } else {
                    law_fold_well_formed(env, fl1, r);
                    fold(env, fl1, r).1
                };
                let a = with_children(n, seq![left, right]);
                assert(a.children[0] == left && a.children[1] == right);
                lemma_wf(a);
                lemma_wf_replace_assign(env, a);
            } else {
                lemma_fold_children_wf(env, fl, n);
            }
        },
        Kind::UpdateExpr { .. } => {
            lemma_wf_replace_update(env, n);
        },
        Kind::CallExpr => {
            if n.children.len() == 3 {
                law_fold_well_formed(env, fl, n.children[1]);
                let args = fold(env, fl, n.children[1]).1;
                let callee = if n.children[0].kind == Kind::Import {
                    lemma_wf_member(context_ident(), "import"@);
                    member(context_ident(), "import"@)
                } else {
                    n.children[0]
                };
                let c = with_children(n, seq![callee, args, n.children[2]]);
                assert(c.children[0] == callee && c.children[1] == args && c.children[2] == n.children[2]);
                lemma_wf(c);
            } else {
                lemma_fold_children_wf(env, fl, n);
            }
        },
        Kind::MetaPropExpr { .. } => {
            lemma_wf_member(context_ident(), "meta"@);
        },
        Kind::ThisExpr => {
            let z = num_lit("0"@, dummy_sp());
            lemma_wf_leaf(z);
            let u = undefined_expr(dummy_sp());
            assert(u.children[0] == z);
            lemma_wf(u);
        },
        Kind::FnDecl => {
            if n.children.len() == 2 {
                match n.children[1].kind {
                    Kind::Function { is_async } => {
                        let fl1 = Flags {
                            enter_async_fn: if is_async { true } else { fl.enter_async_fn },
                            enter_fn: true,
                            ..fl
                        };
                        lemma_fold_children_wf(env, fl1, n);
                    },
                    _ => {
                        lemma_fold_children_wf(env, fl, n);
                    },
                }
            } else {
                lemma_fold_children_wf(env, fl, n);
            }
        },
        Kind::PropShorthand => {
            let k = with_kind(n, Kind::Ident);
            lemma_wf_leaf(k);
            let v0 = with_kind(n, Kind::ExprIdent);
            lemma_wf_leaf(v0);
            lemma_wf_module_name(env, v0);
            let v = module_name_ident(env, v0);
            let kv = key_value(k, v);
            assert(kv.children[0] == k && kv.children[1] == v);
            lemma_wf(kv);
        },
        Kind::KeyValueProp => {
            if n.children.len() == 2 {
                let v = n.children[1];
                let v2 = if v.kind == Kind::ExprIdent {
                    lemma_wf_module_name(env, v);
                    module_name_ident(env, v)
                } else {
                    v
                };
                let kv = with_children(n, seq![n.children[0], v2]);
                assert(kv.children[0] == n.children[0] && kv.children[1] == v2);
                lemma_wf(kv);
            }
        },
        Kind::AwaitExpr | Kind::AssignProp | Kind::GetterProp | Kind::SetterProp | Kind::MethodProp
        | Kind::Opaque | Kind::OpaqueModuleDecl => {},
        _ => {
            lemma_fold_children_wf(env, fl, n);
        },
    }
}

proof fn lemma_fold_children_wf(env: SEnv, fl: Flags, n: SNode)
    requires
        well_formed(n),
    ensures
        well_formed(fold_children(env, fl, n).1),
    decreases n, 0int,
{
    lemma_wf_children(n);
    lemma_fold_list_wf(env, fl, n.children);
    law_fold_list_len(env, fl, n.children);
    lemma_fold_list_keeps_names(env, fl, n.children);
    let cs = fold_list(env, fl, n.children).1;
    lemma_wf(with_children(n, cs));
}

/// The rewriting keeps identifiers, string literals and absent fields as
/// they are.
proof fn lemma_fold_keeps_name(env: SEnv, fl: Flags, n: SNode)
    requires
        n.kind == Kind::Ident || n.kind == Kind::Str || n.kind == Kind::Absent,
    ensures
        fold(env, fl, n).1.kind == n.kind,
{
    assert(fold(env, fl, n) == fold_children(env, fl, n));
}

proof fn lemma_fold_list_keeps_names(env: SEnv, fl: Flags, s: Seq<SNode>)
    ensures
        forall|i: int|
            0 <= i < s.len() && (s[i].kind == Kind::Ident || s[i].kind == Kind::Str || s[i].kind == Kind::Absent)
                ==> #[trigger] fold_list(env, fl, s).1[i].kind == s[i].kind,
    decreases s.len(),
{
    if s.len() > 0 {
        lemma_fold_list_keeps_names(env, fl, s.drop_last());
        law_fold_list_len(env, fl, s.drop_last());
        let (fl1, r1) = fold_list(env, fl, s.drop_last());
        let x = fold(env, fl1, s.last()).1;
        if s.last().kind == Kind::Ident || s.last().kind == Kind::Str || s.last().kind == Kind::Absent {
            lemma_fold_keeps_name(env, fl1, s.last());
        }
        assert forall|i: int|
            0 <= i < s.len() && (s[i].kind == Kind::Ident || s[i].kind == Kind::Str || s[i].kind == Kind::Absent)
                implies #[trigger] fold_list(env, fl, s).1[i].kind == s[i].kind by {
            if i < s.len() - 1 {
                assert(r1.push(x)[i] == r1[i]);
                assert(s.drop_last()[i] == s[i]);
            }
        }
    }
}

proof fn lemma_fold_list_wf(env: SEnv, fl: Flags, s: Seq<SNode>)
    requires
        forall|i: int| 0 <= i < s.len() ==> well_formed(#[trigger] s[i]),
    ensures
        forall|i: int| 0 <= i < fold_list(env, fl, s).1.len() ==> well_formed(#[trigger] fold_list(env, fl, s).1[i]),
    decreases s, 2int,
{
    if s.len() > 0 {
        let init = s.drop_last();
        assert forall|i: int| 0 <= i < init.len() implies well_formed(#[trigger] init[i]) by {
            assert(init[i] == s[i]);
        }
        lemma_fold_list_wf(env, fl, init);
        let (fl1, r1) = fold_list(env, fl, init);
        assert(well_formed(s[s.len() - 1]));
        law_fold_well_formed(env, fl1, s.last());
        let x = fold(env, fl1, s.last()).1;
        assert forall|i: int| 0 <= i < r1.push(x).len() implies well_formed(#[trigger] r1.push(x)[i]) by {
            if i < r1.len() {
                assert(r1.push(x)[i] == r1[i]);
            }
        }
    }
}

// --- whole trees ---------------------------------------------------------------

/// Every node of `s` is well-formed.
pub open spec fn all_wf(s: Seq<SNode>) -> bool {
    forall|i: int| 0 <= i < s.len() ==> well_formed(#[trigger] s[i])
}

/// Every exported value is well-formed.
pub open spec fn exports_wf(e: Seq<(Seq<char>, SNode)>) -> bool {
    forall|i: int| 0 <= i < e.len() ==> well_formed(#[trigger] e[i].1)
}

/// The statements and exported values of a dependency are well-formed.
pub open spec fn meta_wf(m: SMeta) -> bool {
    all_wf(m.stmts) && exports_wf(m.exports)
}

pub open spec fn metas_wf(ms: Seq<SMeta>) -> bool {
    forall|i: int| 0 <= i < ms.len() ==> meta_wf(#[trigger] ms[i])
}

/// The trees that the transform has collected are well-formed.
pub open spec fn collected_wf(c: SCollected) -> bool {
    all_wf(c.declare_var_idents) && exports_wf(c.exports) && metas_wf(c.metas)
}

pub open spec fn acc_wf(a: SItemAcc) -> bool {
    collected_wf(a.c) && all_wf(a.before) && all_wf(a.execute)
}

proof fn lemma_all_wf_push(s: Seq<SNode>, x: SNode)
    requires
        all_wf(s),
        well_formed(x),
    ensures
        all_wf(s.push(x)),
{
    assert forall|i: int| 0 <= i < s.push(x).len() implies well_formed(#[trigger] s.push(x)[i]) by {
        if i < s.len() {
            assert(s.push(x)[i] == s[i]);
        }
    }
}

proof fn lemma_all_wf_add(s: Seq<SNode>, t: Seq<SNode>)
    requires
        all_wf(s),
        all_wf(t),
    ensures
        all_wf(s + t),
{
    assert forall|i: int| 0 <= i < (s + t).len() implies well_formed(#[trigger] (s + t)[i]) by {
        if i < s.len() {
            assert((s + t)[i] == s[i]);
        } else {
            assert((s + t)[i] == t[i - s.len()]);
        }
    }
}

proof fn lemma_all_wf_empty()
    ensures
        all_wf(Seq::<SNode>::empty()),
{
}

proof fn lemma_all_wf1(a: SNode)
    requires
        well_formed(a),
    ensures
        all_wf(seq![a]),
{
    let s = seq![a];
    assert forall|i: int| 0 <= i < s.len() implies well_formed(#[trigger] s[i]) by {
        assert(s[i] == a);
    }
}

proof fn lemma_all_wf2(a: SNode, b: SNode)
    requires
        well_formed(a),
        well_formed(b),
    ensures
        all_wf(seq![a, b]),
{
    let s = seq![a, b];
    assert forall|i: int| 0 <= i < s.len() implies well_formed(#[trigger] s[i]) by {
        if i == 0 {
            assert(s[i] == a);
        } else {
            assert(s[i] == b);
        }
    }
}

proof fn lemma_all_wf3(a: SNode, b: SNode, c: SNode)
    requires
        well_formed(a),
        well_formed(b),
        well_formed(c),
    ensures
        all_wf(seq![a, b, c]),
{
    let s = seq![a, b, c];
    assert forall|i: int| 0 <= i < s.len() implies well_formed(#[trigger] s[i]) by {
        if i == 0 {
            assert(s[i] == a);
        } else if i == 1 {
            assert(s[i] == b);
        } else {
            assert(s[i] == c);
        }
    }
}

proof fn lemma_exports_wf_push(e: Seq<(Seq<char>, SNode)>, x: (Seq<char>, SNode))
    requires
        exports_wf(e),
        well_formed(x.1),
    ensures
        exports_wf(e.push(x)),
{
    assert forall|i: int| 0 <= i < e.push(x).len() implies well_formed(#[trigger] e.push(x)[i].1) by {
        if i < e.len() {
            assert(e.push(x)[i] == e[i]);
        }
    }
}

proof fn lemma_exports_wf_add(e: Seq<(Seq<char>, SNode)>, f: Seq<(Seq<char>, SNode)>)
    requires
        exports_wf(e),
        exports_wf(f),
    ensures
        exports_wf(e + f),
{
    assert forall|i: int| 0 <= i < (e + f).len() implies well_formed(#[trigger] (e + f)[i].1) by {
        if i < e.len() {
            assert((e + f)[i] == e[i]);
        } else {
            assert((e + f)[i] == f[i - e.len()]);
        }
    }
}

/// A node is well-formed where its children are and its kind accepts them.
proof fn lemma_wf_node(n: SNode)
    requires
        match arity(n.kind) {
            Some(a) => n.children.len() == a,
            None => true,
        },
        positions_ok(n),
        all_wf(n.children),
    ensures
        well_formed(n),
{
    lemma_wf(n);
}

proof fn lemma_wf_mk1(kind: Kind, span: Span, a: SNode)
    requires
        arity(kind) == Some(1nat),
        positions_ok(mk(kind, span, seq![a])),
        well_formed(a),
    ensures
        well_formed(mk(kind, span, seq![a])),
{
    lemma_all_wf1(a);
    lemma_wf_node(mk(kind, span, seq![a]));
}

proof fn lemma_wf_mk2(kind: Kind, span: Span, a: SNode, b: SNode)
    requires
        arity(kind) == Some(2nat),
        positions_ok(mk(kind, span, seq![a, b])),
        well_formed(a),
        well_formed(b),
    ensures
        well_formed(mk(kind, span, seq![a, b])),
{
    lemma_all_wf2(a, b);
    lemma_wf_node(mk(kind, span, seq![a, b]));
}

proof fn lemma_wf_mk3(kind: Kind, span: Span, a: SNode, b: SNode, c: SNode)
    requires
        arity(kind) == Some(3nat),
        positions_ok(mk(kind, span, seq![a, b, c])),
        well_formed(a),
        well_formed(b),
        well_formed(c),
    ensures
        well_formed(mk(kind, span, seq![a, b, c])),
{
    lemma_all_wf3(a, b, c);
    lemma_wf_node(mk(kind, span, seq![a, b, c]));
}

proof fn lemma_wf_list_all(items: Seq<SNode>)
    requires
        all_wf(items),
    ensures
        well_formed(list(items)),
{
    lemma_wf_node(list(items));
}

proof fn lemma_wf_expr_stmt(e: SNode)
    requires
        well_formed(e),
    ensures
        well_formed(expr_stmt(e)),
{
    lemma_wf_mk1(Kind::ExprStmt, dummy_sp(), e);
}

proof fn lemma_wf_assign(span: Span, l: SNode, r: SNode)
    requires
        well_formed(l),
        well_formed(r),
    ensures
        well_formed(assign(span, l, r)),
{
    let a = assign(span, l, r);
    lemma_all_wf2(l, r);
    lemma_wf_node(a);
}

proof fn lemma_wf_ident_as(n: SNode, kind: Kind)
    requires
        well_formed(n),
        n.kind == Kind::Ident,
        arity(kind) == Some(0nat),
        positions_ok(with_kind(n, kind)),
    ensures
        well_formed(with_kind(n, kind)),
{
    lemma_wf_children(n);
    lemma_wf_leaf(with_kind(n, kind));
}

proof fn lemma_wf_call(span: Span, callee: SNode, args: Seq<SNode>)
    requires
        well_formed(callee),
        all_wf(args),
    ensures
        well_formed(call(span, callee, args)),
{
    lemma_wf_list_all(args);
    lemma_wf_leaf(absent());
    lemma_wf_mk3(Kind::CallExpr, span, callee, list(args), absent());
}

proof fn lemma_wf_object_lit(props: Seq<SNode>)
    requires
        all_wf(props),
    ensures
        well_formed(object_lit(props)),
{
    lemma_wf_list_all(props);
    lemma_wf_mk1(Kind::ObjectLit, dummy_sp(), list(props));
}

proof fn lemma_wf_block(stmts: Seq<SNode>)
    requires
        all_wf(stmts),
    ensures
        well_formed(block(stmts)),
{
    lemma_wf_list_all(stmts);
    lemma_wf_mk1(Kind::BlockStmt, dummy_sp(), list(stmts));
}

proof fn lemma_wf_fn_expr(params: Seq<SNode>, body: Seq<SNode>, is_async: bool)
    requires
        all_wf(params),
        all_wf(body),
    ensures
        well_formed(fn_expr(params, body, is_async)),
{
    let ps = params_of(params);
    assert forall|i: int| 0 <= i < ps.len() implies well_formed(#[trigger] ps[i]) by {
        lemma_all_wf_empty();
        lemma_wf_list_all(Seq::<SNode>::empty());
        lemma_wf_mk2(Kind::Param, dummy_sp(), list(Seq::empty()), params[i]);
    }
    lemma_wf_list_all(ps);
    lemma_all_wf_empty();
    lemma_wf_list_all(Seq::<SNode>::empty());
    lemma_wf_block(body);
    lemma_wf_leaf(absent());
    let f = function(params, body, is_async);
    let kids = seq![list(ps), list(Seq::empty()), block(body), absent(), absent()];
    assert(f.children == kids);
    assert forall|i: int| 0 <= i < kids.len() implies well_formed(#[trigger] kids[i]) by {
        if i == 0 {
            assert(kids[i] == list(ps));
        } else if i == 1 {
            assert(kids[i] == list(Seq::<SNode>::empty()));
        } else if i == 2 {
            assert(kids[i] == block(body));
        } else {
            assert(kids[i] == absent());
        }
    }
    lemma_wf_node(f);
    lemma_wf_mk2(Kind::FnExpr, dummy_sp(), absent(), f);
}

proof fn lemma_wf_binding_ident(sym: Seq<char>)
    ensures
        well_formed(binding_ident(sym)),
{
    lemma_wf_leaf(absent());
    lemma_all_wf1(absent());
    lemma_wf_node(binding_ident(sym));
}

proof fn lemma_wf_var_decl(decls: Seq<SNode>)
    requires
        all_wf(decls),
    ensures
        well_formed(var_decl(decls)),
{
    lemma_wf_list_all(decls);
    lemma_wf_mk1(Kind::VarDecl { var_kind: VarDeclKind::Var }, dummy_sp(), list(decls));
}

proof fn lemma_wf_array_lit(elems: Seq<SNode>)
    requires
        all_wf(elems),
    ensures
        well_formed(array_lit(elems)),
{
    lemma_wf_list_all(elems);
    lemma_wf_mk1(Kind::ArrayLit, dummy_sp(), list(elems));
}

proof fn lemma_wf_export_call_stmts(exports: Seq<(Seq<char>, SNode)>)
    requires
        exports_wf(exports),
    ensures
        all_wf(export_call_stmts(exports)),
{
    if exports.len() == 0 {
    } else if exports.len() == 1 {
        lemma_wf_as_arg(exports[0].1);
        lemma_wf_export_call(exports[0].0, dummy_sp(), as_arg(exports[0].1));
        lemma_wf_expr_stmt(export_call(exports[0].0, dummy_sp(), as_arg(exports[0].1)));
        lemma_all_wf1(expr_stmt(export_call(exports[0].0, dummy_sp(), as_arg(exports[0].1))));
    } else {
        let props = exports.map_values(|e: (Seq<char>, SNode)| export_prop(e));
        assert forall|i: int| 0 <= i < props.len() implies well_formed(#[trigger] props[i]) by {
            let e = exports[i];
            lemma_wf_leaf(quote_ident(Kind::Ident, e.0));
            lemma_wf_leaf(str_lit(e.0));
            lemma_wf_mk2(Kind::KeyValueProp, dummy_sp(), prop_key(e.0), e.1);
        }
        lemma_wf_object_lit(props);
        lemma_wf_as_arg(object_lit(props));
        lemma_all_wf1(as_arg(object_lit(props)));
        lemma_wf_leaf(export_ident());
        lemma_wf_call(dummy_sp(), export_ident(), seq![as_arg(object_lit(props))]);
        lemma_wf_expr_stmt(call(dummy_sp(), export_ident(), seq![as_arg(object_lit(props))]));
        lemma_all_wf1(expr_stmt(call(dummy_sp(), export_ident(), seq![as_arg(object_lit(props))])));
    }
}

proof fn lemma_wf_export_all_stmts(target: Seq<char>)
    ensures
        all_wf(export_all_stmts(target)),
{
    let target_ident = quote_ident(Kind::ExprIdent, target);
    lemma_wf_leaf(target_ident);
    lemma_wf_leaf(export_obj());
    lemma_wf_leaf(key_ident());
    lemma_wf_leaf(absent());
    lemma_wf_leaf(str_lit("default"@));
    lemma_wf_leaf(str_lit("__esModule"@));
    // var exportObj = {};
    lemma_wf_mk1(Kind::PatExpr, dummy_sp(), export_obj());
    lemma_all_wf_empty();
    lemma_wf_object_lit(Seq::empty());
    lemma_wf_mk2(Kind::VarDeclarator, dummy_sp(), mk(Kind::PatExpr, dummy_sp(), seq![export_obj()]), object_lit(Seq::empty()));
    let d1 = var_declarator(dummy_sp(), mk(Kind::PatExpr, dummy_sp(), seq![export_obj()]), object_lit(Seq::empty()));
    lemma_all_wf1(d1);
    lemma_wf_var_decl(seq![d1]);
    // for (var key in target) { if (..) { exportObj[key] = target[key]; } }
    lemma_wf_mk1(Kind::PatExpr, dummy_sp(), key_ident());
    lemma_wf_mk2(Kind::VarDeclarator, dummy_sp(), mk(Kind::PatExpr, dummy_sp(), seq![key_ident()]), absent());
    let d2 = var_declarator(dummy_sp(), mk(Kind::PatExpr, dummy_sp(), seq![key_ident()]), absent());
    lemma_all_wf1(d2);
    lemma_wf_var_decl(seq![d2]);
    let b1 = bin("!=="@, key_ident(), str_lit("default"@));
    let b2 = bin("!=="@, key_ident(), str_lit("__esModule"@));
    lemma_all_wf2(key_ident(), str_lit("default"@));
    lemma_wf_node(b1);
    lemma_all_wf2(key_ident(), str_lit("__esModule"@));
    lemma_wf_node(b2);
    let test = bin("&&"@, b1, b2);
    lemma_all_wf2(b1, b2);
    lemma_wf_node(test);
    lemma_wf_mk1(Kind::ComputedPropName, dummy_sp(), key_ident());
    let key_prop = mk(Kind::ComputedPropName, dummy_sp(), seq![key_ident()]);
    lemma_wf_mk2(Kind::MemberExpr, dummy_sp(), export_obj(), key_prop);
    lemma_wf_mk2(Kind::MemberExpr, dummy_sp(), target_ident, key_prop);
    let copy = expr_stmt(assign(dummy_sp(), computed_member(export_obj(), key_ident()), computed_member(target_ident, key_ident())));
    lemma_wf_assign(dummy_sp(), computed_member(export_obj(), key_ident()), computed_member(target_ident, key_ident()));
    lemma_wf_expr_stmt(assign(dummy_sp(), computed_member(export_obj(), key_ident()), computed_member(target_ident, key_ident())));
    lemma_all_wf1(copy);
    lemma_wf_block(seq![copy]);
    lemma_wf_mk3(Kind::IfStmt, dummy_sp(), test, block(seq![copy]), absent());
    let if_stmt = mk(Kind::IfStmt, dummy_sp(), seq![test, block(seq![copy]), absent()]);
    lemma_all_wf1(if_stmt);
    lemma_wf_block(seq![if_stmt]);
    lemma_wf_mk3(Kind::ForInStmt, dummy_sp(), var_decl(seq![d2]), target_ident, block(seq![if_stmt]));
    let for_in = mk(Kind::ForInStmt, dummy_sp(), seq![var_decl(seq![d2]), target_ident, block(seq![if_stmt])]);
    lemma_all_wf2(var_decl(seq![d1]), for_in);
    assert(export_all_stmts(target) == seq![var_decl(seq![d1]), for_in]);
}

proof fn lemma_wf_setter_body(m: SMeta)
    requires
        meta_wf(m),
    ensures
        all_wf(setter_body(m)),
{
    if !m.has_export_all {
        lemma_wf_export_call_stmts(m.exports);
        lemma_all_wf_add(m.stmts, export_call_stmts(m.exports));
    } else {
        lemma_wf_export_all_stmts(local_name_of(m.src));
        let assigns = m.exports.map_values(|e: (Seq<char>, SNode)| export_obj_assign(e));
        assert forall|i: int| 0 <= i < assigns.len() implies well_formed(#[trigger] assigns[i]) by {
            let e = m.exports[i];
            lemma_wf_leaf(export_obj());
            lemma_wf_member(export_obj(), e.0);
            lemma_wf_assign(dummy_sp(), member(export_obj(), e.0), e.1);
            lemma_wf_expr_stmt(assign(dummy_sp(), member(export_obj(), e.0), e.1));
        }
        lemma_wf_leaf(export_obj());
        lemma_wf_as_arg(export_obj());
        lemma_all_wf1(as_arg(export_obj()));
        lemma_wf_leaf(export_ident());
        lemma_wf_call(dummy_sp(), export_ident(), seq![as_arg(export_obj())]);
        let last = expr_stmt(call(dummy_sp(), export_ident(), seq![as_arg(export_obj())]));
        lemma_wf_expr_stmt(call(dummy_sp(), export_ident(), seq![as_arg(export_obj())]));
        lemma_all_wf1(last);
        lemma_all_wf_add(m.stmts, export_all_stmts(local_name_of(m.src)));
        lemma_all_wf_add(m.stmts + export_all_stmts(local_name_of(m.src)), assigns);
        lemma_all_wf_add(m.stmts + export_all_stmts(local_name_of(m.src)) + assigns, seq![last]);
    }
}

proof fn lemma_wf_dependencies(metas: Seq<SMeta>)
    requires
        metas_wf(metas),
    ensures
        all_wf(dep_args(metas)),
        all_wf(setter_args(metas)),
{
    assert forall|i: int| 0 <= i < dep_args(metas).len() implies well_formed(#[trigger] dep_args(metas)[i]) by {
        lemma_wf_leaf(str_lit(metas[i].src));
        lemma_wf_as_arg(str_lit(metas[i].src));
    }
    assert forall|i: int| 0 <= i < setter_args(metas).len() implies well_formed(#[trigger] setter_args(metas)[i]) by {
        let m = metas[i];
        assert(meta_wf(m));
        lemma_wf_setter_body(m);
        lemma_wf_binding_ident(local_name_of(m.src));
        lemma_all_wf1(binding_ident(local_name_of(m.src)));
        lemma_wf_fn_expr(seq![binding_ident(local_name_of(m.src))], setter_body(m), false);
        lemma_wf_as_arg(fn_expr(seq![binding_ident(local_name_of(m.src))], setter_body(m), false));
    }
}

proof fn lemma_wf_declare_stmts(ds: Seq<SNode>)
    ensures
        all_wf(declare_stmts(ds)),
{
    if ds.len() > 0 {
        let decls = ds.map_values(|i: SNode| declare_declarator(i));
        assert forall|j: int| 0 <= j < decls.len() implies well_formed(#[trigger] decls[j]) by {
            let i = ds[j];
            lemma_wf_leaf(absent());
            lemma_all_wf1(absent());
            lemma_wf_node(declared_binding(i));
            lemma_wf_mk2(Kind::VarDeclarator, i.span, declared_binding(i), absent());
        }
        lemma_wf_var_decl(decls);
        lemma_all_wf1(var_decl(decls));
    }
}

proof fn lemma_wf_return_stmt(setters: Seq<SNode>, execute: Seq<SNode>, is_async: bool)
    requires
        all_wf(setters),
        all_wf(execute),
    ensures
        well_formed(return_stmt(setters, execute, is_async)),
{
    lemma_wf_leaf(quote_ident(Kind::Ident, "setters"@));
    lemma_wf_leaf(quote_ident(Kind::Ident, "execute"@));
    lemma_wf_array_lit(setters);
    lemma_all_wf_empty();
    lemma_wf_fn_expr(Seq::empty(), execute, is_async);
    let p1 = key_value(quote_ident(Kind::Ident, "setters"@), array_lit(setters));
    let p2 = key_value(quote_ident(Kind::Ident, "execute"@), fn_expr(Seq::empty(), execute, is_async));
    lemma_wf_mk2(Kind::KeyValueProp, dummy_sp(), quote_ident(Kind::Ident, "setters"@), array_lit(setters));
    lemma_wf_mk2(Kind::KeyValueProp, dummy_sp(), quote_ident(Kind::Ident, "execute"@), fn_expr(Seq::empty(), execute, is_async));
    lemma_all_wf2(p1, p2);
    lemma_wf_object_lit(seq![p1, p2]);
    lemma_wf_mk1(Kind::ReturnStmt, dummy_sp(), object_lit(seq![p1, p2]));
}

proof fn lemma_wf_register_module(m: SNode, deps: Seq<SNode>, body: Seq<SNode>)
    requires
        m.kind == Kind::Module,
        all_wf(deps),
        all_wf(body),
    ensures
        well_formed(register_module(m, deps, body)),
{
    lemma_wf_array_lit(deps);
    lemma_wf_as_arg(array_lit(deps));
    lemma_wf_binding_ident("_export"@);
    lemma_wf_binding_ident("_context"@);
    lemma_all_wf2(binding_ident("_export"@), binding_ident("_context"@));
    lemma_wf_fn_expr(seq![binding_ident("_export"@), binding_ident("_context"@)], body, false);
    let f = fn_expr(seq![binding_ident("_export"@), binding_ident("_context"@)], body, false);
    lemma_wf_as_arg(f);
    lemma_all_wf2(as_arg(array_lit(deps)), as_arg(f));
    lemma_wf_leaf(quote_ident(Kind::ExprIdent, "System.register"@));
    lemma_wf_call(dummy_sp(), quote_ident(Kind::ExprIdent, "System.register"@), seq![as_arg(array_lit(deps)), as_arg(f)]);
    lemma_wf_expr_stmt(register_call(deps, body));
    lemma_all_wf1(expr_stmt(register_call(deps, body)));
    lemma_wf_list_all(seq![expr_stmt(register_call(deps, body))]);
    lemma_all_wf1(list(seq![expr_stmt(register_call(deps, body))]));
    lemma_wf_node(register_module(m, deps, body));
}

// --- the collection of the items ------------------------------------------------

proof fn lemma_wf_add_meta(list: Seq<SMeta>, m: SMeta)
    requires
        metas_wf(list),
        meta_wf(m),
    ensures
        metas_wf(add_meta(list, m)),
{
    lemma_find_src(list, m.src);
    let i = find_src(list, m.src);
    let r = add_meta(list, m);
    if i >= 0 {
        let a = list[i];
        assert(meta_wf(a));
        lemma_all_wf_add(a.stmts, m.stmts);
        lemma_exports_wf_add(a.exports, m.exports);
        assert(meta_wf(merge_meta(a, m)));
        assert forall|j: int| 0 <= j < r.len() implies meta_wf(#[trigger] r[j]) by {
            if j != i {
                assert(r[j] == list[j]);
            }
        }
    } else {
        assert forall|j: int| 0 <= j < r.len() implies meta_wf(#[trigger] r[j]) by {
            if j < list.len() {
                assert(r[j] == list[j]);
            }
        }
    }
}

/// The name node of a module export name as an expression or member property.
proof fn lemma_wf_export_name_uses(n: SNode)
    requires
        well_formed(n),
        is_name_kind(n.kind),
    ensures
        well_formed(export_expr(n)),
        well_formed(export_member_prop(n)),
{
    lemma_wf_children(n);
    lemma_wf_leaf(str_lit(n.sym));
    if n.kind == Kind::Str {
        lemma_wf_mk1(Kind::ComputedPropName, n.span, str_lit(n.sym));
    } else {
        lemma_wf_ident_as(n, Kind::ExprIdent);
    }
}

proof fn lemma_wf_import_spec_step(alias: Seq<char>, acc: ImportAcc, sp: SNode)
    requires
        all_wf(acc.declares),
        all_wf(acc.setters),
        well_formed(sp),
    ensures
        all_wf(import_spec_step(alias, acc, sp).declares),
        all_wf(import_spec_step(alias, acc, sp).setters),
{
    lemma_wf_children(sp);
    let source = quote_ident(Kind::ExprIdent, alias);
    lemma_wf_leaf(source);
    if sp.children.len() > 0 {
        let local = sp.children[0];
        match sp.kind {
            Kind::ImportDefaultSpecifier => {
                lemma_all_wf_push(acc.declares, local);
                lemma_wf_ident_as(local, Kind::ExprIdent);
                lemma_wf_member(source, "default"@);
                lemma_wf_assign(sp.span, with_kind(local, Kind::ExprIdent), member(source, "default"@));
                lemma_wf_expr_stmt(assign(sp.span, with_kind(local, Kind::ExprIdent), member(source, "default"@)));
                lemma_all_wf_push(acc.setters, expr_stmt(assign(sp.span, with_kind(local, Kind::ExprIdent), member(source, "default"@))));
            },
            Kind::ImportNamedSpecifier => {
                if sp.children.len() == 2 {
                    let imported = sp.children[1];
                    let prop = if imported.kind == Kind::Absent {
                        local
                    } else {
                        lemma_wf_export_name_uses(imported);
                        export_member_prop(imported)
                    };
                    lemma_all_wf_push(acc.declares, local);
                    lemma_wf_ident_as(local, Kind::ExprIdent);
                    lemma_wf_mk2(Kind::MemberExpr, dummy_sp(), source, prop);
                    lemma_wf_assign(sp.span, with_kind(local, Kind::ExprIdent), member_of(source, prop));
                    lemma_wf_expr_stmt(assign(sp.span, with_kind(local, Kind::ExprIdent), member_of(source, prop)));
                    lemma_all_wf_push(acc.setters, expr_stmt(assign(sp.span, with_kind(local, Kind::ExprIdent), member_of(source, prop))));
                }
            },
            Kind::ImportStarAsSpecifier => {
                lemma_all_wf_push(acc.declares, local);
                lemma_wf_ident_as(local, Kind::ExprIdent);
                lemma_wf_assign(sp.span, with_kind(local, Kind::ExprIdent), source);
                lemma_wf_expr_stmt(assign(sp.span, with_kind(local, Kind::ExprIdent), source));
                lemma_all_wf_push(acc.setters, expr_stmt(assign(sp.span, with_kind(local, Kind::ExprIdent), source)));
            },
            _ => {},
        }
    }
}

proof fn lemma_wf_import_specs(alias: Seq<char>, acc: ImportAcc, sps: Seq<SNode>)
    requires
        all_wf(acc.declares),
        all_wf(acc.setters),
        all_wf(sps),
    ensures
        all_wf(import_specs(alias, acc, sps).declares),
        all_wf(import_specs(alias, acc, sps).setters),
    decreases sps.len(),
{
    if sps.len() > 0 {
        assert(all_wf(sps.drop_last())) by {
            assert forall|i: int| 0 <= i < sps.drop_last().len() implies well_formed(#[trigger] sps.drop_last()[i]) by {
                assert(sps.drop_last()[i] == sps[i]);
            }
        }
        lemma_wf_import_specs(alias, acc, sps.drop_last());
        assert(well_formed(sps[sps.len() - 1]));
        lemma_wf_import_spec_step(alias, import_specs(alias, acc, sps.drop_last()), sps.last());
    }
}

proof fn lemma_wf_export_from_specs(metas: Seq<SMeta>, src: Seq<char>, sps: Seq<SNode>)
    requires
        metas_wf(metas),
        all_wf(sps),
    ensures
        metas_wf(export_from_specs(metas, src, sps)),
    decreases sps.len(),
{
    if sps.len() > 0 {
        assert(all_wf(sps.drop_last())) by {
            assert forall|i: int| 0 <= i < sps.drop_last().len() implies well_formed(#[trigger] sps.drop_last()[i]) by {
                assert(sps.drop_last()[i] == sps[i]);
            }
        }
        lemma_wf_export_from_specs(metas, src, sps.drop_last());
        let sp = sps.last();
        assert(well_formed(sps[sps.len() - 1]));
        lemma_wf_children(sp);
        let source = quote_ident(Kind::ExprIdent, local_name_of(src));
        lemma_wf_leaf(source);
        let e = export_from_entry(local_name_of(src), sp);
        assert(exports_wf(e)) by {
            match sp.kind {
                Kind::ExportNamedSpecifier => {
                    if sp.children.len() == 2 {
                        lemma_wf_export_name_uses(sp.children[0]);
                        lemma_wf_mk2(Kind::MemberExpr, dummy_sp(), source, export_member_prop(sp.children[0]));
                    }
                },
                Kind::ExportDefaultSpecifier => {
                    lemma_wf_member(source, "default"@);
                },
                _ => {},
            }
        }
        lemma_all_wf_empty();
        lemma_wf_add_meta(
            export_from_specs(metas, src, sps.drop_last()),
            SMeta { exports: e, has_export_all: false, src, stmts: Seq::empty() },
        );
    }
}

proof fn lemma_wf_export_local_specs(acc: SItemAcc, sps: Seq<SNode>)
    requires
        acc_wf(acc),
        all_wf(sps),
    ensures
        acc_wf(export_local_specs(acc, sps)),
    decreases sps.len(),
{
    if sps.len() > 0 {
        assert(all_wf(sps.drop_last())) by {
            assert forall|i: int| 0 <= i < sps.drop_last().len() implies well_formed(#[trigger] sps.drop_last()[i]) by {
                assert(sps.drop_last()[i] == sps[i]);
            }
        }
        lemma_wf_export_local_specs(acc, sps.drop_last());
        let a1 = export_local_specs(acc, sps.drop_last());
        let sp = sps.last();
        assert(well_formed(sps[sps.len() - 1]));
        lemma_wf_children(sp);
        if sp.kind == Kind::ExportNamedSpecifier && sp.children.len() == 2 {
            let orig = sp.children[0];
            let exported = sp.children[1];
            lemma_wf_export_name_uses(orig);
            if exported.kind != Kind::Absent {
                lemma_wf_export_name_uses(exported);
            }
            let name = if exported.kind == Kind::Absent { export_name(orig).0 } else { export_name(exported).0 };
            lemma_exports_wf_push(a1.c.exports, (name, export_expr(orig)));
            let v = export_expr(if exported.kind == Kind::Absent { orig } else { exported });
            lemma_wf_as_arg(v);
            lemma_wf_export_call(export_name(orig).0, dummy_sp(), as_arg(v));
            lemma_wf_expr_stmt(export_call(export_name(orig).0, dummy_sp(), as_arg(v)));
            lemma_all_wf_push(a1.execute, expr_stmt(export_call(export_name(orig).0, dummy_sp(), as_arg(v))));
        }
    }
}

proof fn lemma_wf_class_assign(ident: SNode, class_e: SNode)
    requires
        well_formed(ident),
        ident.kind == Kind::Ident,
        well_formed(class_e),
    ensures
        well_formed(class_assign(ident, class_e)),
{
    lemma_wf_ident_as(ident, Kind::ExprIdent);
    lemma_wf_assign(dummy_sp(), with_kind(ident, Kind::ExprIdent), class_e);
    lemma_wf_expr_stmt(assign(dummy_sp(), with_kind(ident, Kind::ExprIdent), class_e));
}

proof fn lemma_wf_undefined()
    ensures
        well_formed(undefined_expr(dummy_sp())),
{
    let z = num_lit("0"@, dummy_sp());
    lemma_wf_leaf(z);
    let u = undefined_expr(dummy_sp());
    assert(u.children[0] == z);
    lemma_wf(u);
}

proof fn lemma_wf_process_export_decl(acc: SItemAcc, d: SNode)
    requires
        acc_wf(acc),
        well_formed(d),
    ensures
        acc_wf(process_export_decl(acc, d)),
{
    lemma_wf_children(d);
    let c = acc.c;
    match d.kind {
        Kind::ClassDecl => {
            let ident = d.children[0];
            lemma_wf_undefined();
            lemma_exports_wf_push(c.exports, (ident.sym, undefined_expr(dummy_sp())));
            lemma_all_wf_push(c.declare_var_idents, ident);
            lemma_wf_mk2(Kind::ClassExpr, dummy_sp(), ident, d.children[1]);
            lemma_wf_class_assign(ident, class_expr(ident, d.children[1]));
            lemma_all_wf_push(acc.execute, class_assign(ident, class_expr(ident, d.children[1])));
        },
        Kind::FnDecl => {
            let ident = d.children[0];
            lemma_wf_ident_as(ident, Kind::ExprIdent);
            lemma_exports_wf_push(c.exports, (ident.sym, with_kind(ident, Kind::ExprIdent)));
            lemma_all_wf_push(acc.before, d);
        },
        Kind::VarDecl { .. } => {
            lemma_all_wf_push(acc.execute, d);
        },
        _ => {},
    }
}

proof fn lemma_wf_process_export_default_decl(acc: SItemAcc, d: SNode)
    requires
        acc_wf(acc),
        well_formed(d),
    ensures
        acc_wf(process_export_default_decl(acc, d)),
{
    lemma_wf_children(d);
    let c = acc.c;
    if (d.kind == Kind::ClassExpr || d.kind == Kind::FnExpr) && d.children.len() == 2 {
        let ident = d.children[0];
        if ident.kind != Kind::Absent {
            if d.kind == Kind::ClassExpr {
                lemma_wf_undefined();
                lemma_exports_wf_push(c.exports, ("default"@, undefined_expr(dummy_sp())));
                lemma_all_wf_push(c.declare_var_idents, ident);
                lemma_wf_class_assign(ident, d);
                lemma_all_wf_push(acc.execute, class_assign(ident, d));
            } else {
                lemma_wf_ident_as(ident, Kind::ExprIdent);
                lemma_exports_wf_push(c.exports, ("default"@, with_kind(ident, Kind::ExprIdent)));
                lemma_wf_mk2(Kind::FnDecl, dummy_sp(), ident, d.children[1]);
                lemma_all_wf_push(acc.before, mk(Kind::FnDecl, dummy_sp(), seq![ident, d.children[1]]));
            }
        } else {
            lemma_exports_wf_push(c.exports, ("default"@, d));
        }
    }
}

proof fn lemma_wf_process_item(acc: SItemAcc, item: SNode, src: Seq<char>)
    requires
        acc_wf(acc),
        well_formed(item),
    ensures
        acc_wf(process_item(acc, item, src)),
{
    lemma_wf_children(item);
    let c = acc.c;
    match item.kind {
        Kind::ImportDecl => {
            if item.children.len() == 3 {
                lemma_wf_children(item.children[0]);
                let a0 = ImportAcc { declares: c.declare_var_idents, import_names: c.import_ident_names, setters: Seq::empty() };
                lemma_all_wf_empty();
                lemma_wf_import_specs(local_name_of(src), a0, item.children[0].children);
                let ia = import_specs(local_name_of(src), a0, item.children[0].children);
                lemma_wf_add_meta(c.metas, SMeta { exports: Seq::empty(), has_export_all: false, src, stmts: ia.setters });
            }
        },
        Kind::NamedExport => {
            if item.children.len() == 3 {
                lemma_wf_children(item.children[0]);
                if item.children[1].kind != Kind::Absent {
                    lemma_wf_export_from_specs(c.metas, src, item.children[0].children);
                } else {
                    lemma_wf_export_local_specs(acc, item.children[0].children);
                }
            }
        },
        Kind::ExportDecl => {
            if item.children.len() == 1 {
                lemma_wf_process_export_decl(acc, item.children[0]);
            }
        },
        Kind::ExportDefaultDecl => {
            if item.children.len() == 1 {
                lemma_wf_process_export_default_decl(acc, item.children[0]);
            }
        },
        Kind::ExportDefaultExpr => {
            if item.children.len() == 1 {
                lemma_wf_as_arg(item.children[0]);
                lemma_wf_export_call("default"@, item.span, as_arg(item.children[0]));
                lemma_wf_expr_stmt(export_call("default"@, item.span, as_arg(item.children[0])));
                lemma_all_wf_push(acc.execute, expr_stmt(export_call("default"@, item.span, as_arg(item.children[0]))));
            }
        },
        Kind::ExportAll => {
            if item.children.len() == 2 {
                lemma_all_wf_empty();
                lemma_wf_add_meta(
                    c.metas,
                    SMeta { exports: Seq::empty(), has_export_all: true, src: item.children[0].sym, stmts: Seq::empty() },
                );
            }
        },
        Kind::ClassDecl => {
            let ident = item.children[0];
            lemma_all_wf_push(c.declare_var_idents, ident);
            lemma_wf_mk2(Kind::ClassExpr, dummy_sp(), ident, item.children[1]);
            lemma_wf_class_assign(ident, class_expr(ident, item.children[1]));
            lemma_all_wf_push(acc.execute, class_assign(ident, class_expr(ident, item.children[1])));
        },
        Kind::FnDecl => {
            lemma_all_wf_push(acc.before, item);
        },
        Kind::OpaqueModuleDecl => {},
        _ => {
            lemma_all_wf_push(acc.execute, item);
        },
    }
}

proof fn lemma_wf_process_items(acc: SItemAcc, items: Seq<SNode>, resolved: Seq<Seq<char>>)
    requires
        acc_wf(acc),
        all_wf(items),
    ensures
        acc_wf(process_items(acc, items, resolved)),
    decreases items.len(),
{
    if items.len() > 0 {
        let k = resolve_targets(items.drop_last()).len() as int;
        assert(all_wf(items.drop_last())) by {
            assert forall|i: int| 0 <= i < items.drop_last().len() implies well_formed(#[trigger] items.drop_last()[i]) by {
                assert(items.drop_last()[i] == items[i]);
            }
        }
        lemma_wf_process_items(acc, items.drop_last(), resolved.take(k));
        assert(well_formed(items[items.len() - 1]));
        lemma_wf_process_item(
            process_items(acc, items.drop_last(), resolved.take(k)),
            items.last(),
            if resolves(items.last()) { resolved[k] } else { Seq::empty() },
        );
    }
}

// --- hoisting and `execute` -------------------------------------------------------

pub open spec fn hoist_acc_wf(a: HoistAcc) -> bool {
    all_wf(a.declares) && exports_wf(a.exports)
}

proof fn lemma_wf_hoist_bindings(
    m: Map<(Seq<char>, Option<u32>), Seq<Seq<char>>>,
    acc: HoistAcc,
    bs: Seq<SBinding>,
    has_init: bool,
)
    requires
        hoist_acc_wf(acc),
    ensures
        hoist_acc_wf(hoist_bindings(m, acc, bs, has_init)),
    decreases bs.len(),
{
    if bs.len() > 0 {
        lemma_wf_hoist_bindings(m, acc, bs.drop_last(), has_init);
        let prev = hoist_bindings(m, acc, bs.drop_last(), has_init);
        let b = bs.last();
        lemma_wf_leaf(declared_ident(b));
        lemma_all_wf_push(prev.declares, declared_ident(b));
        let key = (b.0, Some(b.1));
        if !has_init && m.dom().contains(key) {
            let u = undefined_exports(m[key]);
            lemma_wf_undefined();
            assert(exports_wf(u));
            lemma_exports_wf_add(prev.exports, u);
        }
    }
}

proof fn lemma_wf_declarator_parts(d: SNode)
    requires
        well_formed(d),
    ensures
        well_formed(declarator_name(d)),
        well_formed(declarator_init(d)),
{
    lemma_wf_children(d);
    lemma_wf_leaf(absent());
}

proof fn lemma_wf_hoist_declarators(
    m: Map<(Seq<char>, Option<u32>), Seq<Seq<char>>>,
    acc: HoistAcc,
    ds: Seq<SNode>,
)
    requires
        hoist_acc_wf(acc),
        all_wf(ds),
    ensures
        hoist_acc_wf(hoist_declarators(m, acc, ds).0),
        all_wf(hoist_declarators(m, acc, ds).1),
    decreases ds.len(),
{
    if ds.len() == 0 {
        lemma_all_wf_empty();
    } else {
        assert(all_wf(ds.drop_last())) by {
            assert forall|i: int| 0 <= i < ds.drop_last().len() implies well_formed(#[trigger] ds.drop_last()[i]) by {
                assert(ds.drop_last()[i] == ds[i]);
            }
        }
        lemma_wf_hoist_declarators(m, acc, ds.drop_last());
        let (acc1, es) = hoist_declarators(m, acc, ds.drop_last());
        let d = ds.last();
        assert(well_formed(ds[ds.len() - 1]));
        lemma_wf_declarator_parts(d);
        let name = declarator_name(d);
        let init = declarator_init(d);
        lemma_wf_hoist_bindings(m, acc1, bindings(name), init.kind != Kind::Absent);
        if init.kind != Kind::Absent {
            lemma_wf_assign(dummy_sp(), name, init);
            lemma_all_wf_push(es, assign(dummy_sp(), name, init));
        }
    }
}

proof fn lemma_wf_decls_of(vd: SNode)
    requires
        well_formed(vd),
    ensures
        all_wf(decls_of(vd)),
{
    lemma_wf_children(vd);
    if vd.children.len() >= 1 {
        lemma_wf_children(vd.children[0]);
    }
}

proof fn lemma_wf_hoist_stmt(m: Map<(Seq<char>, Option<u32>), Seq<Seq<char>>>, acc: HoistAcc, s: SNode)
    requires
        hoist_acc_wf(acc),
        well_formed(s),
    ensures
        hoist_acc_wf(hoist_stmt(m, acc, s).0),
        well_formed(hoist_stmt(m, acc, s).1),
{
    lemma_wf_children(s);
    lemma_wf_leaf(absent());
    match s.kind {
        Kind::VarDecl { .. } => {
            lemma_wf_decls_of(s);
            lemma_wf_hoist_declarators(m, acc, decls_of(s));
            let es = hoist_declarators(m, acc, decls_of(s)).1;
            if es.len() > 0 {
                lemma_wf_seq_expr(es);
                lemma_wf_expr_stmt(seq_expr(es));
            } else {
                lemma_wf_leaf(mk(Kind::EmptyStmt, dummy_sp(), Seq::empty()));
            }
        },
        Kind::ForStmt => {
            if s.children.len() == 4 && s.children[0].kind == (Kind::VarDecl { var_kind: VarDeclKind::Var }) {
                let vd = s.children[0];
                lemma_wf_decls_of(vd);
                lemma_wf_hoist_declarators(m, acc, decls_of(vd));
                let es = hoist_declarators(m, acc, decls_of(vd)).1;
                let x = if es.len() == 0 {
                    absent()
                } else {
                    lemma_wf_seq_expr(es);
                    seq_expr(es)
                };
                let kids = s.children.update(0, x);
                assert forall|i: int| 0 <= i < kids.len() implies well_formed(#[trigger] kids[i]) by {}
                lemma_wf_node(with_children(s, kids));
            }
        },
        Kind::ForInStmt => {
            if s.children.len() == 3 {
                let left = s.children[0];
                if left.kind == (Kind::VarDecl { var_kind: VarDeclKind::Var }) && decls_of(left).len() > 0 {
                    lemma_wf_decls_of(left);
                    let d = decls_of(left)[0];
                    lemma_wf_declarator_parts(d);
                    lemma_wf_hoist_bindings(m, acc, bindings(declarator_name(d)), declarator_init(d).kind != Kind::Absent);
                }
                let l2 = hoist_for_var_decl(m, acc, left).1;
                let kids = s.children.update(0, l2);
                assert forall|i: int| 0 <= i < kids.len() implies well_formed(#[trigger] kids[i]) by {}
                lemma_wf_node(with_children(s, kids));
            }
        },
        Kind::ForOfStmt => {
            if s.children.len() == 4 {
                let left = s.children[1];
                if left.kind == (Kind::VarDecl { var_kind: VarDeclKind::Var }) && decls_of(left).len() > 0 {
                    lemma_wf_decls_of(left);
                    let d = decls_of(left)[0];
                    lemma_wf_declarator_parts(d);
                    lemma_wf_hoist_bindings(m, acc, bindings(declarator_name(d)), declarator_init(d).kind != Kind::Absent);
                }
                let l2 = hoist_for_var_decl(m, acc, left).1;
                let kids = s.children.update(1, l2);
                assert forall|i: int| 0 <= i < kids.len() implies well_formed(#[trigger] kids[i]) by {}
                lemma_wf_node(with_children(s, kids));
            }
        },
        _ => {},
    }
}

proof fn lemma_wf_execute_list(env: SEnv, acc: HoistAcc, fl: Flags, s: Seq<SNode>)
    requires
        hoist_acc_wf(acc),
        all_wf(s),
    ensures
        hoist_acc_wf(execute_list(env, acc, fl, s).0),
        all_wf(execute_list(env, acc, fl, s).2),
    decreases s.len(),
{
    if s.len() == 0 {
        lemma_all_wf_empty();
    } else {
        assert(all_wf(s.drop_last())) by {
            assert forall|i: int| 0 <= i < s.drop_last().len() implies well_formed(#[trigger] s.drop_last()[i]) by {
                assert(s.drop_last()[i] == s[i]);
            }
        }
        lemma_wf_execute_list(env, acc, fl, s.drop_last());
        let (a1, f1, r1) = execute_list(env, acc, fl, s.drop_last());
        assert(well_formed(s[s.len() - 1]));
        lemma_wf_hoist_stmt(env.export_map, a1, s.last());
        let (a2, h) = hoist_stmt(env.export_map, a1, s.last());
        law_fold_well_formed(env, f1, h);
        let x = fold(env, f1, h).1;
        if x.kind != Kind::EmptyStmt {
            lemma_all_wf_push(r1, x);
        }
    }
}

/// The transform of a well-formed module is a well-formed module, and what
/// it keeps for later modules stays well-formed.
pub proof fn law_transform_well_formed(st: SState, m: SNode, resolved: Seq<Seq<char>>)
    requires
        m.kind == Kind::Module,
        well_formed(m),
        collected_wf(st.c),
    ensures
        well_formed(transform(st, m, resolved).1),
        collected_wf(transform(st, m, resolved).0.c),
{
    lemma_wf_children(m);
    lemma_wf_children(m.children[0]);
    let items = module_body(m);
    assert(all_wf(items));
    let c0 = SCollected { root_fn_decl_idents: st.c.root_fn_decl_idents + root_fn_idents(items), ..st.c };
    let acc0 = SItemAcc { c: c0, before: Seq::empty(), execute: Seq::empty() };
    lemma_all_wf_empty();
    lemma_wf_process_items(acc0, items, resolved);
    let acc = collect_phase(st, m, resolved);
    let env = env_of(st, acc);
    lemma_fold_list_wf(env, st.flags, acc.before);
    let (fl1, before) = fold_list(env, st.flags, acc.before);
    let h0 = HoistAcc { exports: acc.c.exports, declares: acc.c.declare_var_idents };
    lemma_wf_execute_list(env, h0, fl1, acc.execute);
    let (h, fl2, execute) = execute_list(env, h0, fl1, acc.execute);
    let metas = acc.c.metas;
    lemma_wf_dependencies(metas);
    lemma_wf_return_stmt(setter_args(metas), execute, fl2.tla);
    lemma_wf_leaf(str_lit("use strict"@));
    lemma_wf_expr_stmt(str_lit("use strict"@));
    lemma_all_wf1(use_strict());
    lemma_wf_declare_stmts(h.declares);
    lemma_wf_export_call_stmts(h.exports);
    lemma_all_wf1(return_stmt(setter_args(metas), execute, fl2.tla));
    let body = seq![use_strict()] + declare_stmts(h.declares) + before + export_call_stmts(h.exports) + seq![
        return_stmt(setter_args(metas), execute, fl2.tla),
    ];
    lemma_all_wf_add(seq![use_strict()], declare_stmts(h.declares));
    lemma_all_wf_add(seq![use_strict()] + declare_stmts(h.declares), before);
    lemma_all_wf_add(seq![use_strict()] + declare_stmts(h.declares) + before, export_call_stmts(h.exports));
    lemma_all_wf_add(
        seq![use_strict()] + declare_stmts(h.declares) + before + export_call_stmts(h.exports),
        seq![return_stmt(setter_args(metas), execute, fl2.tla)],
    );
    lemma_wf_register_module(m, dep_args(metas), body);
    let st2 = transform(st, m, resolved).0;
    assert(exports_wf(st2.c.exports));
    assert(metas_wf(st2.c.metas));
}

} // verus!

//! What the transform does with each kind of top-level item, stated over
//! the trees it produces.
use vstd::prelude::*;
use crate::ast::{Kind, SNode, as_arg, bin, dummy_sp, num_lit, quote_ident};
use crate::fold::{
    Flags, SEnv, binding_export_calls, binding_expr, bindings, bindings_list, export_call, export_ident, fold, fold_children,
    fold_list, nest_export_calls, replace_assign, replace_update, unary,
};
use crate::export_map::add_export_name_spec;
use crate::exports::{SMeta, add_meta, export_all_stmts, export_obj, export_obj_assign, export_prop, find_src, lemma_find_src, setter_body};
use crate::hoist::{HoistAcc, declarator_name, decls_of, hoist_stmt};
use crate::symbol::local_name_of;
use crate::items::{
    ImportAcc, SItemAcc, export_from_entry, export_local_step, export_names_of, export_var_bindings, has_ident_named,
    import_spec_step, process_export_decl, process_export_default_decl, process_item, process_items, resolve_targets,
    root_fn_idents,
};
use crate::system_js::{SState, collect_phase, env_of, execute_list, module_body, state_env, transform};

verus! {

// --- the order of `execute` ------------------------------------------------------

/// The statements of the `execute` function of a transformed module: read
/// off the tree, `System.register(deps, function (..) { ..; return { setters,
/// execute: function () { <these> } } })`.
pub open spec fn execute_of(out: SNode) -> Seq<SNode> {
    let call = out.children[0].children[0].children[0];
    let module_fn = call.children[1].children[1].children[1].children[1];
    let body = module_fn.children[2].children[0].children;
    let ret = body.last();
    let execute_prop = ret.children[0].children[0].children[1];
    execute_prop.children[1].children[1].children[2].children[0].children
}

/// Every item is an expression statement.
pub open spec fn all_expr_stmts(items: Seq<SNode>) -> bool {
    forall|i: int| 0 <= i < items.len() ==> (#[trigger] items[i]).kind == Kind::ExprStmt
}

proof fn lemma_all_expr_stmts_drop_last(items: Seq<SNode>)
    requires
        all_expr_stmts(items),
        items.len() > 0,
    ensures
        all_expr_stmts(items.drop_last()),
        items.last().kind == Kind::ExprStmt,
{
    assert forall|i: int| 0 <= i < items.drop_last().len() implies (#[trigger] items.drop_last()[i]).kind == Kind::ExprStmt by {
        assert(items.drop_last()[i] == items[i]);
    }
    assert(items[items.len() - 1].kind == Kind::ExprStmt);
}

proof fn lemma_plain_items(acc: SItemAcc, items: Seq<SNode>, resolved: Seq<Seq<char>>)
    requires
        all_expr_stmts(items),
    ensures
        process_items(acc, items, resolved) == (SItemAcc { execute: acc.execute + items, ..acc }),
        resolve_targets(items).len() == 0,
        root_fn_idents(items) == Seq::<SNode>::empty(),
    decreases items.len(),
{
    if items.len() == 0 {
        assert(acc.execute + items =~= acc.execute);
    } else {
        lemma_all_expr_stmts_drop_last(items);
        let k = resolve_targets(items.drop_last()).len() as int;
        lemma_plain_items(acc, items.drop_last(), resolved.take(k));
        assert(acc.execute + items =~= (acc.execute + items.drop_last()).push(items.last()));
    }
}

proof fn lemma_fold_keeps_expr_stmt(env: SEnv, fl: Flags, s: SNode)
    requires
        s.kind == Kind::ExprStmt,
    ensures
        fold(env, fl, s).1.kind == Kind::ExprStmt,
{
    assert(fold(env, fl, s) == fold_children(env, fl, s));
}

proof fn lemma_plain_execute(env: SEnv, acc: HoistAcc, fl: Flags, s: Seq<SNode>)
    requires
        all_expr_stmts(s),
    ensures
        execute_list(env, acc, fl, s) == (acc, fold_list(env, fl, s).0, fold_list(env, fl, s).1),
    decreases s.len(),
{
    if s.len() > 0 {
        lemma_all_expr_stmts_drop_last(s);
        lemma_plain_execute(env, acc, fl, s.drop_last());
        let f1 = fold_list(env, fl, s.drop_last()).0;
        assert(hoist_stmt(env.export_map, acc, s.last()) == (acc, s.last()));
        lemma_fold_keeps_expr_stmt(env, f1, s.last());
    }
}

/// Rewriting a list rewrites each item in its place: the item at `i` of the
/// result is the item at `i` of the input, rewritten with the state that the
/// items before it left.
pub proof fn law_fold_list_in_place(env: SEnv, fl: Flags, s: Seq<SNode>, i: int)
    requires
        0 <= i < s.len(),
    ensures
        fold_list(env, fl, s).1[i] == fold(env, fold_list(env, fl, s.take(i)).0, s[i]).1,
    decreases s.len(),
{
    crate::laws::law_fold_list_len(env, fl, s.drop_last());
    if i < s.len() - 1 {
        law_fold_list_in_place(env, fl, s.drop_last(), i);
        assert(s.drop_last().take(i) =~= s.take(i));
        assert(s.drop_last()[i] == s[i]);
    } else {
        assert(s.take(i) =~= s.drop_last());
    }
}

/// The statements of `execute` for two runs of statements one after the
/// other are those of the first run followed by those of the second, the
/// second started from the state that the first left.
pub proof fn law_execute_list_append(env: SEnv, acc: HoistAcc, fl: Flags, s1: Seq<SNode>, s2: Seq<SNode>)
    ensures
        ({
            let (a1, f1, r1) = execute_list(env, acc, fl, s1);
            let (a2, f2, r2) = execute_list(env, a1, f1, s2);
            execute_list(env, acc, fl, s1 + s2) == (a2, f2, r1 + r2)
        }),
    decreases s2.len(),
{
    if s2.len() == 0 {
        assert(s1 + s2 =~= s1);
        let r1 = execute_list(env, acc, fl, s1).2;
        assert(r1 + Seq::<SNode>::empty() =~= r1);
    } else {
        law_execute_list_append(env, acc, fl, s1, s2.drop_last());
        assert((s1 + s2).drop_last() =~= s1 + s2.drop_last());
        assert((s1 + s2).last() == s2.last());
        let r1 = execute_list(env, acc, fl, s1).2;
        let (a1, f1, _r) = execute_list(env, acc, fl, s1);
        let r2 = execute_list(env, a1, f1, s2.drop_last()).2;
        let x = s2.last();
        assert(forall|y: SNode| #[trigger] (r1 + r2).push(y) =~= r1 + r2.push(y));
    }
}

/// A single statement gives `execute` the statement hoisted and rewritten,
/// or nothing where that is an empty statement.
pub proof fn law_execute_list_single(env: SEnv, acc: HoistAcc, fl: Flags, x: SNode)
    ensures
        ({
            let (a, h) = hoist_stmt(env.export_map, acc, x);
            let (f, y) = fold(env, fl, h);
            execute_list(env, acc, fl, seq![x]) == (a, f, if y.kind == Kind::EmptyStmt {
                Seq::<SNode>::empty()
            } else {
                seq![y]
            })
        }),
{
    assert(seq![x].drop_last() =~= Seq::<SNode>::empty());
    assert(seq![x].last() == x);
    assert(execute_list(env, acc, fl, Seq::<SNode>::empty()) == (acc, fl, Seq::<SNode>::empty()));
    assert(Seq::<SNode>::empty().push(fold(env, fl, hoist_stmt(env.export_map, acc, x).1).1) =~= seq![
        fold(env, fl, hoist_stmt(env.export_map, acc, x).1).1
    ]);
}

/// The `execute` function runs the module's statements in their order: for
/// a module of expression statements it holds each of them, rewritten, in
/// the same order (the rewriting threads its state from each statement to
/// the next).
pub proof fn law_execute_keeps_statement_order(st: SState, m: SNode, resolved: Seq<Seq<char>>)
    requires
        all_expr_stmts(module_body(m)),
    ensures
        execute_of(transform(st, m, resolved).1) == fold_list(state_env(st), st.flags, module_body(m)).1,
        execute_of(transform(st, m, resolved).1).len() == module_body(m).len(),
        forall|i: int|
            0 <= i < module_body(m).len() ==> #[trigger] execute_of(transform(st, m, resolved).1)[i] == fold(
                state_env(st),
                fold_list(state_env(st), st.flags, module_body(m).take(i)).0,
                module_body(m)[i],
            ).1,
{
    let items = module_body(m);
    lemma_plain_items(
        SItemAcc {
            c: crate::items::SCollected { root_fn_decl_idents: st.c.root_fn_decl_idents + root_fn_idents(items), ..st.c },
            before: Seq::empty(),
            execute: Seq::empty(),
        },
        items,
        resolved,
    );
    let acc = collect_phase(st, m, resolved);
    assert(acc.execute =~= items);
    assert(acc.before =~= Seq::<SNode>::empty());
    assert(st.c.root_fn_decl_idents + root_fn_idents(items) =~= st.c.root_fn_decl_idents);
    let env = env_of(st, acc);
    assert(env == state_env(st));
    assert(fold_list(env, st.flags, acc.before) == (st.flags, Seq::<SNode>::empty()));
    lemma_plain_execute(env, HoistAcc { exports: acc.c.exports, declares: acc.c.declare_var_idents }, st.flags, items);
    crate::laws::law_fold_list_len(env, st.flags, items);
    assert forall|i: int| 0 <= i < items.len() implies #[trigger] execute_of(transform(st, m, resolved).1)[i] == fold(
        env,
        fold_list(env, st.flags, items.take(i)).0,
        items[i],
    ).1 by {
        law_fold_list_in_place(env, st.flags, items, i);
    }
}

// --- assignments to patterns ----------------------------------------------------

/// The `_export(name, name)` call that publishes the binding `b`.
pub open spec fn publish_call(b: (Seq<char>, u32, u32)) -> SNode {
    export_call(b.0, dummy_sp(), as_arg(binding_expr(b)))
}

/// The binding `b` is exported.
pub open spec fn is_exported(m: Map<(Seq<char>, Option<u32>), Seq<Seq<char>>>, b: (Seq<char>, u32, u32)) -> bool {
    m.dom().contains((b.0, Some(b.1)))
}

proof fn lemma_binding_export_calls_members(m: Map<(Seq<char>, Option<u32>), Seq<Seq<char>>>, bs: Seq<(Seq<char>, u32, u32)>)
    ensures
        forall|j: int|
            0 <= j < bs.len() && is_exported(m, #[trigger] bs[j]) && m[(bs[j].0, Some(bs[j].1))].len() > 0
                ==> binding_export_calls(m, bs).contains(publish_call(bs[j])),
        forall|k: int|
            #![trigger binding_export_calls(m, bs)[k]]
            0 <= k < binding_export_calls(m, bs).len() ==> exists|j: int|
                0 <= j < bs.len() && is_exported(m, #[trigger] bs[j]) && binding_export_calls(m, bs)[k] == publish_call(bs[j]),
    decreases bs.len(),
{
    if bs.len() > 0 {
        let init = bs.drop_last();
        lemma_binding_export_calls_members(m, init);
        let b = bs.last();
        let front = binding_export_calls(m, init);
        let key = (b.0, Some(b.1));
        let back = if m.dom().contains(key) {
            Seq::new(m[key].len(), |_i: int| export_call(b.0, dummy_sp(), as_arg(binding_expr(b))))
        } else {
            Seq::empty()
        };
        let all = binding_export_calls(m, bs);
        assert(all == front + back);
        assert forall|j: int|
            0 <= j < bs.len() && is_exported(m, #[trigger] bs[j]) && m[(bs[j].0, Some(bs[j].1))].len() > 0
                implies all.contains(publish_call(bs[j])) by {
            if j < bs.len() - 1 {
                assert(init[j] == bs[j]);
                let k = choose|k: int| 0 <= k < front.len() && front[k] == publish_call(init[j]);
                assert(all[k] == front[k]);
            } else {
                assert(all[front.len() as int] == back[0]);
            }
        }
        assert forall|k: int| #![trigger all[k]] 0 <= k < all.len() implies exists|j: int|
            0 <= j < bs.len() && is_exported(m, #[trigger] bs[j]) && all[k] == publish_call(bs[j]) by {
            if k < front.len() {
                assert(all[k] == front[k]);
                let j = choose|j: int| 0 <= j < init.len() && is_exported(m, #[trigger] init[j]) && front[k] == publish_call(init[j]);
                assert(bs[j] == init[j]);
            } else {
                assert(all[k] == back[k - front.len()]);
                assert(bs[bs.len() - 1] == b);
            }
        }
    }
}

/// An assignment to an object or array pattern becomes the sequence of the
/// assignment and `_export` calls: every binding of the pattern that is
/// exported is published by an `_export("name", name)` call, and every call
/// publishes an exported binding of the pattern.
pub proof fn law_pattern_assignment_publishes_bindings(env: SEnv, a: SNode)
    requires
        a.children.len() == 2,
        a.children[0].kind == Kind::ObjectPat || a.children[0].kind == Kind::ArrayPat,
    ensures
        ({
            let r = replace_assign(env, a);
            let elems = r.children[0].children;
            let bs = bindings(a.children[0]);
            &&& r.kind == Kind::SeqExpr
            &&& elems.len() >= 1
            &&& elems[0] == a
            &&& forall|j: int|
                0 <= j < bs.len() && is_exported(env.export_map, #[trigger] bs[j]) && env.export_map[(bs[j].0, Some(bs[j].1))].len() > 0
                    ==> elems.contains(publish_call(bs[j]))
            &&& forall|k: int|
                #![trigger elems[k]]
                1 <= k < elems.len() ==> exists|j: int|
                    0 <= j < bs.len() && is_exported(env.export_map, #[trigger] bs[j]) && elems[k] == publish_call(bs[j])
        }),
{
    let left = a.children[0];
    let bs = bindings(left);
    let calls = binding_export_calls(env.export_map, bs);
    lemma_binding_export_calls_members(env.export_map, bs);
    let elems = seq![a] + calls;
    assert(replace_assign(env, a).children[0].children == elems);
    assert forall|j: int|
        0 <= j < bs.len() && is_exported(env.export_map, #[trigger] bs[j]) && env.export_map[(bs[j].0, Some(bs[j].1))].len() > 0
            implies elems.contains(publish_call(bs[j])) by {
        let k = choose|k: int| 0 <= k < calls.len() && calls[k] == publish_call(bs[j]);
        assert(elems[k + 1] == calls[k]);
    }
    assert forall|k: int| #![trigger elems[k]] 1 <= k < elems.len() implies exists|j: int|
        0 <= j < bs.len() && is_exported(env.export_map, #[trigger] bs[j]) && elems[k] == publish_call(bs[j]) by {
        assert(elems[k] == calls[k - 1]);
    }
}

/// The binding that the identifier `id` introduces.
pub open spec fn ident_binding(id: SNode) -> (Seq<char>, u32, u32) {
    (id.sym, id.span.ctxt, id.mark)
}

/// The properties of a shorthand object pattern `{a, b, ..}`: each is an
/// `AssignPatProp` whose key is an identifier.
pub open spec fn shorthand_props(props: Seq<SNode>) -> bool {
    forall|i: int|
        0 <= i < props.len() ==> {
            &&& (#[trigger] props[i]).kind == Kind::AssignPatProp
            &&& props[i].children.len() == 2
            &&& props[i].children[0].kind == Kind::Ident
        }
}

proof fn lemma_shorthand_bindings(props: Seq<SNode>)
    requires
        shorthand_props(props),
    ensures
        bindings_list(props) == props.map_values(|q: SNode| ident_binding(q.children[0])),
    decreases props.len(),
{
    if props.len() > 0 {
        let init = props.drop_last();
        assert forall|i: int| 0 <= i < init.len() implies {
            &&& (#[trigger] init[i]).kind == Kind::AssignPatProp
            &&& init[i].children.len() == 2
            &&& init[i].children[0].kind == Kind::Ident
        } by {
            assert(init[i] == props[i]);
        }
        lemma_shorthand_bindings(init);
        let q = props.last();
        assert(props[props.len() - 1] == q);
        assert(bindings(q) == bindings(q.children[0]));
        assert(props.map_values(|q: SNode| ident_binding(q.children[0])) =~= init.map_values(
            |q: SNode| ident_binding(q.children[0]),
        ).push(ident_binding(q.children[0])));
    } else {
        assert(props.map_values(|q: SNode| ident_binding(q.children[0])) =~= Seq::<(Seq<char>, u32, u32)>::empty());
    }
}

/// A shorthand object pattern `{a, b, ..}` without a type annotation binds
/// the identifiers of its properties, in order.
pub proof fn law_shorthand_object_pattern_bindings(p: SNode)
    requires
        p.kind == Kind::ObjectPat,
        p.children.len() == 2,
        p.children[0].kind == Kind::List,
        p.children[1].kind == Kind::Absent,
        shorthand_props(p.children[0].children),
    ensures
        bindings(p) == p.children[0].children.map_values(|q: SNode| ident_binding(q.children[0])),
{
    let props = p.children[0].children;
    lemma_shorthand_bindings(props);
    assert(p.children.drop_last() =~= seq![p.children[0]]);
    assert(seq![p.children[0]].drop_last() =~= Seq::<SNode>::empty());
    assert(bindings(p.children[0]) == bindings_list(props));
    assert(bindings_list(seq![p.children[0]]) =~= bindings_list(Seq::<SNode>::empty()) + bindings(p.children[0]));
    assert(bindings_list(seq![p.children[0]]) =~= bindings_list(props));
    assert(bindings(p) == bindings_list(p.children));
    assert(p.children.last() == p.children[1]);
    assert(bindings(p.children[1]) == Seq::<(Seq<char>, u32, u32)>::empty());
    assert(bindings_list(p.children) == bindings_list(p.children.drop_last()) + bindings(p.children[1]));
    assert(bindings_list(p.children) =~= bindings_list(props));
}

/// `({a, b} = obj)`: every shorthand property whose identifier is exported
/// under at least one name is published by `_export("a", a)` after the
/// assignment.
pub proof fn law_shorthand_object_assignment_publishes(env: SEnv, a: SNode, i: int)
    requires
        a.children.len() == 2,
        a.children[0].kind == Kind::ObjectPat,
        a.children[0].children.len() == 2,
        a.children[0].children[0].kind == Kind::List,
        a.children[0].children[1].kind == Kind::Absent,
        shorthand_props(a.children[0].children[0].children),
        0 <= i < a.children[0].children[0].children.len(),
        is_exported(env.export_map, ident_binding(a.children[0].children[0].children[i].children[0])),
        env.export_map[(a.children[0].children[0].children[i].children[0].sym, Some(a.children[0].children[0].children[i].children[0].span.ctxt))].len() > 0,
    ensures
        replace_assign(env, a).kind == Kind::SeqExpr,
        replace_assign(env, a).children[0].children[0] == a,
        replace_assign(env, a).children[0].children.contains(
            publish_call(ident_binding(a.children[0].children[0].children[i].children[0])),
        ),
{
    let p = a.children[0];
    law_shorthand_object_pattern_bindings(p);
    law_pattern_assignment_publishes_bindings(env, a);
    let bs = bindings(p);
    assert(bs[i] == ident_binding(p.children[0].children[i].children[0]));
}

// --- assignments and updates of exported identifiers -----------------------------

/// The name that the call `_export("name", arg)` publishes.
pub open spec fn published_name(c: SNode) -> Seq<char> {
    c.children[1].children[0].children[1].sym
}

/// The value that the call `_export("name", arg)` publishes.
pub open spec fn published_value(c: SNode) -> SNode {
    c.children[1].children[1].children[1]
}

/// `c` is a call of `_export` with two arguments.
pub open spec fn is_export_call(c: SNode) -> bool {
    &&& c.kind == Kind::CallExpr
    &&& c.children.len() == 3
    &&& c.children[0] == export_ident()
    &&& c.children[1].children.len() == 2
    &&& c.children[1].children[0].children.len() == 2
    &&& c.children[1].children[0].children[1].kind == Kind::Str
    &&& c.children[1].children[1].children.len() == 2
}

/// What is left of `n` once `k` enclosing `_export` calls are taken off.
pub open spec fn peel_export_calls(n: SNode, k: nat) -> SNode
    decreases k,
{
    if k == 0 {
        n
    } else {
        peel_export_calls(published_value(n), (k - 1) as nat)
    }
}

/// Publishing `e` under the names `ns` wraps it in one `_export` call per
/// name: the last name outermost, the first innermost, and `e` inside.
pub proof fn law_nested_export_calls(ns: Seq<Seq<char>>, e: SNode)
    ensures
        peel_export_calls(nest_export_calls(ns, e), ns.len()) == e,
        forall|k: nat|
            k < ns.len() ==> is_export_call(#[trigger] peel_export_calls(nest_export_calls(ns, e), k))
                && published_name(peel_export_calls(nest_export_calls(ns, e), k)) == ns[ns.len() - 1 - k],
    decreases ns.len(),
{
    if ns.len() > 0 {
        let init = ns.drop_last();
        law_nested_export_calls(init, e);
        let r = nest_export_calls(ns, e);
        let inner = nest_export_calls(init, e);
        assert(published_value(r) == inner);
        assert(peel_export_calls(r, ns.len()) == peel_export_calls(inner, init.len()));
        assert forall|k: nat| k < ns.len() implies is_export_call(#[trigger] peel_export_calls(r, k))
            && published_name(peel_export_calls(r, k)) == ns[ns.len() - 1 - k] by {
            if k > 0 {
                assert(peel_export_calls(r, k) == peel_export_calls(inner, (k - 1) as nat));
                assert(init[init.len() - 1 - (k - 1)] == ns[ns.len() - 1 - k]);
            }
        }
    }
}

/// An assignment to an identifier (`x = v`, or a binding identifier as the
/// left side) is published under every export name of `x`: wrapped in one
/// `_export` call per name, the last name outermost, with the assignment
/// innermost; an identifier that is not exported leaves it as it is.
pub proof fn law_identifier_assignment_publishes(env: SEnv, a: SNode)
    requires
        a.children.len() == 2,
        a.children[0].kind == Kind::ExprIdent || a.children[0].kind == Kind::BindingIdent,
    ensures
        ({
            let key = (a.children[0].sym, Some(a.children[0].span.ctxt));
            let r = replace_assign(env, a);
            &&& !env.export_map.dom().contains(key) ==> r == a
            &&& env.export_map.dom().contains(key) ==> {
                let ns = env.export_map[key];
                &&& peel_export_calls(r, ns.len()) == a
                &&& forall|k: nat|
                    k < ns.len() ==> is_export_call(#[trigger] peel_export_calls(r, k))
                        && published_name(peel_export_calls(r, k)) == ns[ns.len() - 1 - k]
            }
        }),
{
    let key = (a.children[0].sym, Some(a.children[0].span.ctxt));
    if env.export_map.dom().contains(key) {
        law_nested_export_calls(env.export_map[key], a);
    }
}

/// A postfix update `x++` of an exported identifier becomes the sequence
/// of the new value `+x + 1`, published under every export name of `x`, and
/// the update itself; a prefix update, or one of an identifier that is not
/// exported, is left as it is.
pub proof fn law_postfix_update_publishes(env: SEnv, u: SNode, prefix: bool)
    requires
        u.kind == (Kind::UpdateExpr { prefix }),
        u.children.len() == 1,
        u.children[0].kind == Kind::ExprIdent,
    ensures
        ({
            let x = u.children[0];
            let key = (x.sym, Some(x.span.ctxt));
            let r = replace_update(env, u);
            &&& (prefix || !env.export_map.dom().contains(key)) ==> r == u
            &&& (!prefix && env.export_map.dom().contains(key)) ==> {
                let ns = env.export_map[key];
                let elems = r.children[0].children;
                let value = peel_export_calls(elems[0], ns.len());
                &&& r.kind == Kind::SeqExpr
                &&& elems.len() == 2
                &&& elems[1] == u
                &&& forall|k: nat|
                    k < ns.len() ==> is_export_call(#[trigger] peel_export_calls(elems[0], k))
                        && published_name(peel_export_calls(elems[0], k)) == ns[ns.len() - 1 - k]
                &&& value.kind == Kind::BinExpr
                &&& value.sym == "+"@
                &&& value.children[0].kind == Kind::UnaryExpr
                &&& value.children[0].sym == "+"@
                &&& value.children[0].children[0] == x
                &&& value.children[1].kind == Kind::Number
                &&& value.children[1].sym == "1"@
            }
        }),
{
    let x = u.children[0];
    let key = (x.sym, Some(x.span.ctxt));
    if !prefix && env.export_map.dom().contains(key) {
        let e = bin("+"@, unary("+"@, x), num_lit("1"@, dummy_sp()));
        law_nested_export_calls(env.export_map[key], e);
    }
}

// --- imports, re-exports and default exports ---------------------------------------

/// A named import specifier adds one setter statement that assigns its local
/// binding from the member of the module object named after the imported
/// name, or after the local name where none is given; the local is declared.
pub proof fn law_named_import_reads_its_name(alias: Seq<char>, acc: ImportAcc, sp: SNode)
    requires
        sp.kind == Kind::ImportNamedSpecifier,
        sp.children.len() == 2,
    ensures
        ({
            let r = import_spec_step(alias, acc, sp);
            let local = sp.children[0];
            let imported = sp.children[1];
            let assign = r.setters.last().children[0];
            let source = assign.children[1];
            &&& r.declares == acc.declares.push(local)
            &&& r.setters.len() == acc.setters.len() + 1
            &&& r.setters.drop_last() == acc.setters
            &&& r.setters.last().kind == Kind::ExprStmt
            &&& assign.kind == Kind::AssignExpr
            &&& assign.children[0].kind == Kind::ExprIdent
            &&& assign.children[0].sym == local.sym
            &&& source.kind == Kind::MemberExpr
            &&& source.children[0] == quote_ident(Kind::ExprIdent, alias)
            &&& imported.kind == Kind::Absent ==> source.children[1] == local
            &&& imported.kind == Kind::Ident ==> source.children[1] == imported
            &&& imported.kind == Kind::Str ==> {
                &&& source.children[1].kind == Kind::ComputedPropName
                &&& source.children[1].children[0].sym == imported.sym
            }
        }),
{
    let r = import_spec_step(alias, acc, sp);
    assert(r.setters.drop_last() =~= acc.setters);
}

/// `import d from ..` sets its local from the member `default` of the
/// module object, and `import * as ns from ..` sets it to the module object
/// itself; either way the local is declared and recorded as imported.
pub proof fn law_default_and_namespace_import(alias: Seq<char>, acc: ImportAcc, sp: SNode)
    requires
        sp.kind == Kind::ImportDefaultSpecifier || sp.kind == Kind::ImportStarAsSpecifier,
        sp.children.len() >= 1,
    ensures
        ({
            let r = import_spec_step(alias, acc, sp);
            let local = sp.children[0];
            let assign = r.setters.last().children[0];
            let source = assign.children[1];
            &&& r.declares == acc.declares.push(local)
            &&& r.import_names == acc.import_names.push(local.sym)
            &&& r.setters.len() == acc.setters.len() + 1
            &&& r.setters.drop_last() == acc.setters
            &&& r.setters.last().kind == Kind::ExprStmt
            &&& assign.kind == Kind::AssignExpr
            &&& assign.children[0].kind == Kind::ExprIdent
            &&& assign.children[0].sym == local.sym
            &&& sp.kind == Kind::ImportDefaultSpecifier ==> {
                &&& source.kind == Kind::MemberExpr
                &&& source.children[0] == quote_ident(Kind::ExprIdent, alias)
                &&& source.children[1].kind == Kind::Ident
                &&& source.children[1].sym == "default"@
            }
            &&& sp.kind == Kind::ImportStarAsSpecifier ==> source == quote_ident(Kind::ExprIdent, alias)
        }),
{
    let r = import_spec_step(alias, acc, sp);
    assert(r.setters.drop_last() =~= acc.setters);
}

/// `export v from ..` publishes the name `v` with the member `default` of
/// the module object, and `export * as ns from ..` the name `ns` with the
/// module object itself.
pub proof fn law_reexport_default_and_namespace(alias: Seq<char>, sp: SNode)
    requires
        sp.kind == Kind::ExportDefaultSpecifier || sp.kind == Kind::ExportNamespaceSpecifier,
        sp.children.len() == 1,
    ensures
        ({
            let e = export_from_entry(alias, sp);
            &&& e.len() == 1
            &&& e[0].0 == sp.children[0].sym
            &&& sp.kind == Kind::ExportDefaultSpecifier ==> {
                &&& e[0].1.kind == Kind::MemberExpr
                &&& e[0].1.children[0] == quote_ident(Kind::ExprIdent, alias)
                &&& e[0].1.children[1].kind == Kind::Ident
                &&& e[0].1.children[1].sym == "default"@
            }
            &&& sp.kind == Kind::ExportNamespaceSpecifier ==> e[0].1 == quote_ident(Kind::ExprIdent, alias)
        }),
{
}

/// The name that `export { x } from ..` publishes is `x`, and the one that
/// `export { x as y } from ..` publishes is `y`; the value is the member `x`
/// of the module object.
pub proof fn law_reexport_name(alias: Seq<char>, sp: SNode)
    requires
        sp.kind == Kind::ExportNamedSpecifier,
        sp.children.len() == 2,
    ensures
        ({
            let e = export_from_entry(alias, sp);
            let orig = sp.children[0];
            let exported = sp.children[1];
            &&& e.len() == 1
            &&& e[0].0 == (if exported.kind == Kind::Absent { orig.sym } else { exported.sym })
            &&& e[0].1.kind == Kind::MemberExpr
            &&& e[0].1.children[0] == quote_ident(Kind::ExprIdent, alias)
            &&& orig.kind == Kind::Ident ==> e[0].1.children[1] == orig
        }),
{
}

/// `export default class ..` and `export default function ..` record exactly
/// one export, named `default`; for a named function its value is the
/// function's identifier.
pub proof fn law_default_export_is_named_default(acc: SItemAcc, d: SNode)
    requires
        d.kind == Kind::ClassExpr || d.kind == Kind::FnExpr,
        d.children.len() == 2,
    ensures
        ({
            let r = process_export_default_decl(acc, d);
            &&& r.c.exports.len() == acc.c.exports.len() + 1
            &&& r.c.exports.drop_last() == acc.c.exports
            &&& r.c.exports.last().0 == "default"@
            &&& d.kind == Kind::FnExpr && d.children[0].kind != Kind::Absent ==> {
                &&& r.c.exports.last().1.kind == Kind::ExprIdent
                &&& r.c.exports.last().1.sym == d.children[0].sym
            }
            &&& d.children[0].kind == Kind::Absent ==> r.c.exports.last().1 == d
            &&& d.children[0].kind != Kind::Absent ==> {
                let key = (d.children[0].sym, Some(d.children[0].span.ctxt));
                &&& r.c.export_map.dom().contains(key)
                &&& r.c.export_map[key].last() == "default"@
                &&& r.c.export_map[key].drop_last() == (if acc.c.export_map.dom().contains(key) {
                    acc.c.export_map[key]
                } else {
                    Seq::empty()
                })
            }
        }),
{
    let r = process_export_default_decl(acc, d);
    assert(r.c.exports.drop_last() =~= acc.c.exports);
    if d.children[0].kind != Kind::Absent {
        let key = (d.children[0].sym, Some(d.children[0].span.ctxt));
        let old_names: Seq<Seq<char>> = if acc.c.export_map.dom().contains(key) {
            acc.c.export_map[key]
        } else {
            Seq::empty()
        };
        assert(old_names.push("default"@).drop_last() =~= old_names);
        assert(seq!["default"@] =~= Seq::<Seq<char>>::empty().push("default"@));
    }
}

/// An `export default` item of a class or function records the export
/// `default`, whatever the declaration's own name.
pub proof fn law_default_export_item(acc: SItemAcc, item: SNode, src: Seq<char>)
    requires
        item.kind == Kind::ExportDefaultDecl,
        item.children.len() == 1,
        item.children[0].kind == Kind::ClassExpr || item.children[0].kind == Kind::FnExpr,
        item.children[0].children.len() == 2,
    ensures
        process_item(acc, item, src).c.exports.last().0 == "default"@,
        process_item(acc, item, src).c.exports.len() == acc.c.exports.len() + 1,
{
    law_default_export_is_named_default(acc, item.children[0]);
}

// --- local exports and exported declarations -----------------------------------

/// The export names recorded for `key` (none where it is not exported).
pub open spec fn names_of(m: Map<(Seq<char>, Option<u32>), Seq<Seq<char>>>, key: (Seq<char>, Option<u32>)) -> Seq<Seq<char>> {
    if m.dom().contains(key) {
        m[key]
    } else {
        Seq::empty()
    }
}

proof fn lemma_add_name(
    m: Map<(Seq<char>, Option<u32>), Seq<Seq<char>>>,
    key: (Seq<char>, Option<u32>),
    value: Seq<char>,
)
    ensures
        names_of(add_export_name_spec(m, key, value), key) == names_of(m, key).push(value),
        forall|k: (Seq<char>, Option<u32>)|
            k != key ==> #[trigger] names_of(add_export_name_spec(m, key, value), k) == names_of(m, k),
{
    if !m.dom().contains(key) {
        assert(seq![value] =~= Seq::<Seq<char>>::empty().push(value));
    }
}

/// A specifier `x` or `x as y` of a local `export { .. }` adds `y` (or `x`
/// where there is no alias) to the export names of the binding `x`, and
/// leaves the names of every other binding as they were; a hoisted function
/// `x` is exported under that name when the module's function runs, and an
/// imported `x` is re-published by an `_export` call in `execute`.
pub proof fn law_local_export_specifier(acc: SItemAcc, sp: SNode)
    requires
        sp.kind == Kind::ExportNamedSpecifier,
        sp.children.len() == 2,
        sp.children[0].kind == Kind::Ident,
        sp.children[1].kind == Kind::Ident || sp.children[1].kind == Kind::Absent,
    ensures
        ({
            let r = export_local_step(acc, sp);
            let orig = sp.children[0];
            let exported = sp.children[1];
            let name = if exported.kind == Kind::Absent { orig.sym } else { exported.sym };
            let key = (orig.sym, Some(orig.span.ctxt));
            &&& names_of(r.c.export_map, key) == names_of(acc.c.export_map, key).push(name)
            &&& forall|k: (Seq<char>, Option<u32>)|
                k != key ==> #[trigger] names_of(r.c.export_map, k) == names_of(acc.c.export_map, k)
            &&& has_ident_named(acc.c.root_fn_decl_idents, orig.sym) ==> {
                &&& r.c.exports.len() == acc.c.exports.len() + 1
                &&& r.c.exports.drop_last() == acc.c.exports
                &&& r.c.exports.last().0 == name
                &&& r.c.exports.last().1.kind == Kind::ExprIdent
                &&& r.c.exports.last().1.sym == orig.sym
            }
            &&& !has_ident_named(acc.c.root_fn_decl_idents, orig.sym) ==> r.c.exports == acc.c.exports
            &&& acc.c.import_ident_names.contains(orig.sym) ==> {
                &&& r.execute.len() == acc.execute.len() + 1
                &&& r.execute.drop_last() == acc.execute
                &&& r.execute.last().kind == Kind::ExprStmt
                &&& is_export_call(r.execute.last().children[0])
                &&& published_name(r.execute.last().children[0]) == orig.sym
            }
            &&& !acc.c.import_ident_names.contains(orig.sym) ==> r.execute == acc.execute
            &&& r.before == acc.before
        }),
{
    let r = export_local_step(acc, sp);
    let orig = sp.children[0];
    let exported = sp.children[1];
    let name = if exported.kind == Kind::Absent { orig.sym } else { exported.sym };
    lemma_add_name(acc.c.export_map, (orig.sym, Some(orig.span.ctxt)), name);
    assert(r.c.exports.drop_last() =~= acc.c.exports || r.c.exports == acc.c.exports);
    assert(r.execute.drop_last() =~= acc.execute || r.execute == acc.execute);
}

/// `export function f ..` exports `f` under its own name when the module's
/// function runs and hoists the declaration; `export class C ..` declares
/// `C`, exports it under its own name and assigns the class in `execute`.
/// Either way `f` (or `C`) gets its own name as an export name.
pub proof fn law_export_declaration(acc: SItemAcc, d: SNode)
    requires
        d.kind == Kind::FnDecl || d.kind == Kind::ClassDecl,
        d.children.len() == 2,
    ensures
        ({
            let r = process_export_decl(acc, d);
            let ident = d.children[0];
            let key = (ident.sym, Some(ident.span.ctxt));
            &&& r.c.exports.len() == acc.c.exports.len() + 1
            &&& r.c.exports.drop_last() == acc.c.exports
            &&& r.c.exports.last().0 == ident.sym
            &&& names_of(r.c.export_map, key) == names_of(acc.c.export_map, key).push(ident.sym)
            &&& d.kind == Kind::FnDecl ==> {
                &&& r.c.exports.last().1.kind == Kind::ExprIdent
                &&& r.c.exports.last().1.sym == ident.sym
                &&& r.before == acc.before.push(d)
                &&& r.execute == acc.execute
            }
            &&& d.kind == Kind::ClassDecl ==> {
                &&& r.c.declare_var_idents == acc.c.declare_var_idents.push(ident)
                &&& r.before == acc.before
                &&& r.execute.drop_last() == acc.execute
                &&& r.execute.last().children[0].kind == Kind::AssignExpr
                &&& r.execute.last().children[0].children[0].sym == ident.sym
            }
        }),
{
    let r = process_export_decl(acc, d);
    let ident = d.children[0];
    lemma_add_name(acc.c.export_map, (ident.sym, Some(ident.span.ctxt)), ident.sym);
    assert(r.c.exports.drop_last() =~= acc.c.exports);
    assert(r.execute.drop_last() =~= acc.execute || r.execute == acc.execute);
}

proof fn lemma_export_names_of(m: Map<(Seq<char>, Option<u32>), Seq<Seq<char>>>, bs: Seq<(Seq<char>, u32, u32)>)
    ensures
        forall|k: (Seq<char>, Option<u32>), s: Seq<char>|
            names_of(m, k).contains(s) ==> #[trigger] names_of(export_names_of(m, bs), k).contains(s),
        forall|j: int|
            0 <= j < bs.len() ==> names_of(export_names_of(m, bs), (bs[j].0, Some(bs[j].1))).contains(#[trigger] bs[j].0),
    decreases bs.len(),
{
    if bs.len() > 0 {
        let init = bs.drop_last();
        lemma_export_names_of(m, init);
        let m1 = export_names_of(m, init);
        let b = bs.last();
        lemma_add_name(m1, (b.0, Some(b.1)), b.0);
        let r = export_names_of(m, bs);
        assert forall|k: (Seq<char>, Option<u32>), s: Seq<char>| names_of(m1, k).contains(s) implies #[trigger] names_of(r, k).contains(s) by {
            if k == (b.0, Some(b.1)) {
                let i = choose|i: int| 0 <= i < names_of(m1, k).len() && names_of(m1, k)[i] == s;
                assert(names_of(r, k)[i] == s);
            }
        }
        assert forall|j: int| 0 <= j < bs.len() implies names_of(r, (bs[j].0, Some(bs[j].1))).contains(#[trigger] bs[j].0) by {
            if j < bs.len() - 1 {
                assert(init[j] == bs[j]);
                assert(names_of(m1, (init[j].0, Some(init[j].1))).contains(init[j].0));
            } else {
                let k = (b.0, Some(b.1));
                assert(names_of(r, k).last() == b.0);
                assert(names_of(r, k)[names_of(r, k).len() - 1] == b.0);
            }
        }
    }
}

/// `export var|let|const ..` records every binding of every declarator as
/// exported under its own name, keeps the names recorded before, and runs
/// the declaration in `execute`.
pub proof fn law_export_var_declaration(acc: SItemAcc, d: SNode, i: int, j: int)
    requires
        d.kind is VarDecl,
        0 <= i < decls_of(d).len(),
        0 <= j < bindings(declarator_name(decls_of(d)[i])).len(),
    ensures
        ({
            let r = process_export_decl(acc, d);
            let b = bindings(declarator_name(decls_of(d)[i]))[j];
            &&& names_of(r.c.export_map, (b.0, Some(b.1))).contains(b.0)
            &&& forall|k: (Seq<char>, Option<u32>), s: Seq<char>|
                names_of(acc.c.export_map, k).contains(s) ==> #[trigger] names_of(r.c.export_map, k).contains(s)
            &&& r.execute == acc.execute.push(d)
            &&& r.c.exports == acc.c.exports
        }),
{
    lemma_export_var_bindings(acc.c.export_map, decls_of(d), i, j);
}

proof fn lemma_export_var_bindings(m: Map<(Seq<char>, Option<u32>), Seq<Seq<char>>>, ds: Seq<SNode>, i: int, j: int)
    requires
        0 <= i < ds.len(),
        0 <= j < bindings(declarator_name(ds[i])).len(),
    ensures
        ({
            let b = bindings(declarator_name(ds[i]))[j];
            names_of(export_var_bindings(m, ds), (b.0, Some(b.1))).contains(b.0)
        }),
        forall|k: (Seq<char>, Option<u32>), s: Seq<char>|
            names_of(m, k).contains(s) ==> #[trigger] names_of(export_var_bindings(m, ds), k).contains(s),
    decreases ds.len(),
{
    let init = ds.drop_last();
    let m1 = export_var_bindings(m, init);
    let bs = bindings(declarator_name(ds.last()));
    lemma_export_names_of(m1, bs);
    if i < ds.len() - 1 {
        assert(init[i] == ds[i]);
        lemma_export_var_bindings(m, init, i, j);
    } else {
        assert(ds[i] == ds.last());
    }
    lemma_export_var_bindings_grow(m, ds);
}

proof fn lemma_export_var_bindings_grow(m: Map<(Seq<char>, Option<u32>), Seq<Seq<char>>>, ds: Seq<SNode>)
    ensures
        forall|k: (Seq<char>, Option<u32>), s: Seq<char>|
            names_of(m, k).contains(s) ==> #[trigger] names_of(export_var_bindings(m, ds), k).contains(s),
    decreases ds.len(),
{
    if ds.len() > 0 {
        lemma_export_var_bindings_grow(m, ds.drop_last());
        lemma_export_names_of(export_var_bindings(m, ds.drop_last()), bindings(declarator_name(ds.last())));
    }
}

// --- dependencies and their setters ----------------------------------------------

/// Recording a dependency on a source that is already listed (first at `j`)
/// merges into that entry: its exports and setter statements are followed
/// by the new ones, it takes an `export *` of either, and every other entry
/// and the order stay. A dependency on a new source is appended.
pub proof fn law_add_dependency(list: Seq<SMeta>, m: SMeta, j: int)
    ensures
        (forall|k: int| 0 <= k < list.len() ==> #[trigger] list[k].src != m.src) ==> add_meta(list, m) == list.push(m),
        (0 <= j < list.len() && list[j].src == m.src && forall|k: int| 0 <= k < j ==> #[trigger] list[k].src != m.src)
            ==> {
            let r = add_meta(list, m);
            &&& r.len() == list.len()
            &&& r[j].src == m.src
            &&& r[j].exports == list[j].exports + m.exports
            &&& r[j].stmts == list[j].stmts + m.stmts
            &&& r[j].has_export_all == (list[j].has_export_all || m.has_export_all)
            &&& forall|k: int| 0 <= k < list.len() && k != j ==> #[trigger] r[k] == list[k]
        },
{
    lemma_find_src(list, m.src);
    let i = find_src(list, m.src);
    if 0 <= j < list.len() && list[j].src == m.src && forall|k: int| 0 <= k < j ==> #[trigger] list[k].src != m.src {
        if i < j {
            assert(list[i].src == m.src);
        }
        if i > j || i < 0 {
            assert(list[j].src != m.src);
        }
    }
}

/// The setter of a dependency without `export *` runs its statements, then
/// publishes its exports: one `_export("name", value)` for a single export,
/// one `_export({ name: value, .. })` call, with the exports in order, for
/// several, and nothing more for none.
pub proof fn law_setter_publishes_exports(m: SMeta)
    requires
        !m.has_export_all,
    ensures
        ({
            let body = setter_body(m);
            let n = m.stmts.len();
            &&& body.take(n as int) == m.stmts
            &&& m.exports.len() == 0 ==> body == m.stmts
            &&& m.exports.len() == 1 ==> {
                &&& body.len() == n + 1
                &&& is_export_call(body[n as int].children[0])
                &&& published_name(body[n as int].children[0]) == m.exports[0].0
                &&& published_value(body[n as int].children[0]) == m.exports[0].1
            }
            &&& m.exports.len() > 1 ==> {
                let c = body[n as int].children[0];
                let props = published_object(c);
                &&& body.len() == n + 1
                &&& c.kind == Kind::CallExpr
                &&& c.children[0] == export_ident()
                &&& c.children[1].children.len() == 1
                &&& props.len() == m.exports.len()
                &&& forall|i: int|
                    0 <= i < props.len() ==> (#[trigger] props[i]).children[0].sym == m.exports[i].0
                        && props[i].children[1] == m.exports[i].1
            }
        }),
{
    let body = setter_body(m);
    let n = m.stmts.len();
    assert(body.take(n as int) =~= m.stmts);
    if m.exports.len() == 0 {
        assert(body =~= m.stmts);
    }
    if m.exports.len() > 1 {
        let props = published_object(body[n as int].children[0]);
        assert forall|i: int| 0 <= i < props.len() implies (#[trigger] props[i]).children[0].sym == m.exports[i].0
            && props[i].children[1] == m.exports[i].1 by {
            assert(props[i] == export_prop(m.exports[i]));
        }
    }
}

/// The setter of a dependency with `export *` runs its statements, copies
/// every export of the dependency into `exportObj` (but `default` and
/// `__esModule`), sets each of its own exports on `exportObj` in order, and
/// ends by publishing `exportObj` with one `_export(exportObj)` call.
pub proof fn law_setter_export_all(m: SMeta)
    requires
        m.has_export_all,
    ensures
        ({
            let body = setter_body(m);
            let n = m.stmts.len() as int;
            let copied = export_all_stmts(local_name_of(m.src));
            let last = body.last().children[0];
            &&& body.len() == n + 2 + m.exports.len() + 1
            &&& body.take(n) == m.stmts
            &&& body.subrange(n, n + 2) == copied
            &&& copied[1].children[1] == quote_ident(Kind::ExprIdent, local_name_of(m.src))
            &&& forall|i: int|
                0 <= i < m.exports.len() ==> {
                    let a = (#[trigger] body[n + 2 + i]).children[0];
                    &&& a.kind == Kind::AssignExpr
                    &&& a.children[0].kind == Kind::MemberExpr
                    &&& a.children[0].children[0] == export_obj()
                    &&& a.children[0].children[1].sym == m.exports[i].0
                    &&& a.children[1] == m.exports[i].1
                }
            &&& last.kind == Kind::CallExpr
            &&& last.children[0] == export_ident()
            &&& last.children[1].children == seq![as_arg(export_obj())]
        }),
{
    let body = setter_body(m);
    let n = m.stmts.len() as int;
    let copied = export_all_stmts(local_name_of(m.src));
    let assigns = m.exports.map_values(|e: (Seq<char>, SNode)| export_obj_assign(e));
    assert(body.take(n) =~= m.stmts);
    assert(body.subrange(n, n + 2) =~= copied);
    assert forall|i: int| 0 <= i < m.exports.len() implies {
        let a = (#[trigger] body[n + 2 + i]).children[0];
        &&& a.kind == Kind::AssignExpr
        &&& a.children[0].kind == Kind::MemberExpr
        &&& a.children[0].children[0] == export_obj()
        &&& a.children[0].children[1].sym == m.exports[i].0
        &&& a.children[1] == m.exports[i].1
    } by {
        assert(body[n + 2 + i] == assigns[i]);
    }
}

/// The properties of the object that `_export({ .. })` publishes.
pub open spec fn published_object(c: SNode) -> Seq<SNode> {
    c.children[1].children[0].children[1].children[0].children
}

} // verus!

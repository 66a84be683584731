//! What holds of the transform on all inputs.
use vstd::prelude::*;
use crate::ast::{Kind, SNode, dummy_sp, member, undefined_expr};
use crate::export_map::add_export_name_spec;
use crate::exports::{SMeta, add_meta, find_src, lemma_find_src};
use crate::items::{
    SItemAcc, export_from_specs, export_local_specs, export_local_step, process_import, process_item,
    process_items, resolve_targets, resolves,
};
use crate::hoist::{HoistAcc, declared_ident, hoist_bindings, hoist_stmt};
use crate::system_js::{
    SState, collect_phase, dep_args, env_of, execute_list, module_body, register_module, return_stmt,
    setter_args, transform, use_strict,
};
use crate::fold::{Flags, SBinding, SEnv, context_ident, fold, fold_children, fold_list};
use crate::symbol::local_name_of;

verus! {

/// The local name of every module source is non-empty and starts with `_`.
pub proof fn law_local_name_starts_with_underscore(src: Seq<char>)
    ensures
        local_name_of(src).len() > 0,
        local_name_of(src)[0] == '_',
{
}

/// Recording an export of `key` as `value` appends `value` to the export names
/// of `key` and leaves every other key as it was.
pub proof fn law_add_export_name(
    m: Map<(Seq<char>, Option<u32>), Seq<Seq<char>>>,
    key: (Seq<char>, Option<u32>),
    value: Seq<char>,
    other: (Seq<char>, Option<u32>),
)
    requires
        other != key,
    ensures
        add_export_name_spec(m, key, value).dom().contains(key),
        add_export_name_spec(m, key, value)[key] == (if m.dom().contains(key) { m[key] } else { Seq::empty() }).push(value),
        add_export_name_spec(m, key, value).dom().contains(other) == m.dom().contains(other),
        m.dom().contains(other) ==> add_export_name_spec(m, key, value)[other] == m[other],
{
    if !m.dom().contains(key) {
        assert(seq![value] =~= Seq::<Seq<char>>::empty().push(value));
    }
}

/// `this` outside of a function declaration becomes `void 0` unless top-level
/// `this` is allowed; otherwise it is kept.
pub proof fn law_top_level_this(env: SEnv, fl: Flags, n: SNode)
    requires
        n.kind == Kind::ThisExpr,
    ensures
        fold(env, fl, n).1 == (if !env.allow_top_level_this && !fl.enter_fn { undefined_expr(dummy_sp()) } else { n }),
        fold(env, fl, n).0 == fl,
{
}

/// `__moduleName` of the module's own syntax context becomes `_context.id`;
/// every other identifier expression is kept.
pub proof fn law_module_name(env: SEnv, fl: Flags, n: SNode)
    requires
        n.kind == Kind::ExprIdent,
    ensures
        fold(env, fl, n).1 == (if n.sym == "__moduleName"@ && n.mark == env.root_mark {
            member(context_ident(), "id"@)
        } else {
            n
        }),
        fold(env, fl, n).0 == fl,
{
}

/// The rewriting of a list keeps its length.
pub proof fn law_fold_list_len(env: SEnv, fl: Flags, s: Seq<SNode>)
    ensures
        fold_list(env, fl, s).1.len() == s.len(),
    decreases s.len(),
{
    if s.len() > 0 {
        law_fold_list_len(env, fl, s.drop_last());
    }
}

/// Once a top-level `await` has been seen, it stays seen; outside of
/// function declarations, the rewriting of any node leaves the transform
/// outside of them.
pub proof fn law_fold_flags(env: SEnv, fl: Flags, n: SNode)
    ensures
        fl.tla ==> fold(env, fl, n).0.tla,
        !fl.enter_fn ==> !fold(env, fl, n).0.enter_fn,
        !fl.enter_async_fn ==> !fold(env, fl, n).0.enter_async_fn,
    decreases n, 1int,
{
    match n.kind {
        Kind::AssignExpr => {
            if n.children.len() == 2 {
                law_fold_flags(env, fl, n.children[0]);
                let fl1 = fold(env, fl, n.children[0]).0;
                if n.children[1].kind != Kind::ExprIdent {
                    law_fold_flags(env, fl1, n.children[1]);
                }
            } else {
                lemma_fold_children_flags(env, fl, n);
            }
        },
        Kind::CallExpr => {
            if n.children.len() == 3 {
                law_fold_flags(env, fl, n.children[1]);
            } else {
                lemma_fold_children_flags(env, fl, n);
            }
        },
        Kind::FnDecl => {
            if n.children.len() == 2 {
                match n.children[1].kind {
                    Kind::Function { is_async } => {
                        let fl1 = Flags {
                            enter_async_fn: if is_async { true } else { fl.enter_async_fn },
                            enter_fn: true,
                            ..fl
                        };
                        lemma_fold_children_flags(env, fl1, n);
                    },
                    _ => {
                        lemma_fold_children_flags(env, fl, n);
                    },
                }
            } else {
                lemma_fold_children_flags(env, fl, n);
            }
        },
        Kind::ExprIdent | Kind::UpdateExpr { .. } | Kind::MetaPropExpr { .. } | Kind::AwaitExpr
        | Kind::ThisExpr | Kind::PropShorthand | Kind::KeyValueProp | Kind::AssignProp
        | Kind::GetterProp | Kind::SetterProp | Kind::MethodProp | Kind::Opaque
        | Kind::OpaqueModuleDecl => {},
        _ => {
            lemma_fold_children_flags(env, fl, n);
        },
    }
}

proof fn lemma_fold_children_flags(env: SEnv, fl: Flags, n: SNode)
    ensures
        fl.tla ==> fold_children(env, fl, n).0.tla,
        !fl.enter_fn ==> !fold_children(env, fl, n).0.enter_fn,
        !fl.enter_async_fn ==> !fold_children(env, fl, n).0.enter_async_fn,
    decreases n, 0int,
{
    lemma_fold_list_flags(env, fl, n.children);
}

proof fn lemma_fold_list_flags(env: SEnv, fl: Flags, s: Seq<SNode>)
    ensures
        fl.tla ==> fold_list(env, fl, s).0.tla,
        !fl.enter_fn ==> !fold_list(env, fl, s).0.enter_fn,
        !fl.enter_async_fn ==> !fold_list(env, fl, s).0.enter_async_fn,
    decreases s, 2int,
{
    if s.len() > 0 {
        lemma_fold_list_flags(env, fl, s.drop_last());
        let fl1 = fold_list(env, fl, s.drop_last()).0;
        law_fold_flags(env, fl1, s.last());
    }
}

// --- dependencies ------------------------------------------------------------

/// No two dependencies have the same source.
pub open spec fn distinct_srcs(metas: Seq<SMeta>) -> bool {
    forall|i: int, j: int| 0 <= i < j < metas.len() ==> metas[i].src != metas[j].src
}

/// One of the dependencies has the source `src`.
pub open spec fn has_src(metas: Seq<SMeta>, src: Seq<char>) -> bool {
    exists|j: int| 0 <= j < metas.len() && #[trigger] metas[j].src == src
}

proof fn lemma_add_meta(list: Seq<SMeta>, m: SMeta)
    ensures
        has_src(add_meta(list, m), m.src),
        forall|s: Seq<char>| has_src(list, s) ==> has_src(add_meta(list, m), s),
        distinct_srcs(list) ==> distinct_srcs(add_meta(list, m)),
{
    lemma_find_src(list, m.src);
    let i = find_src(list, m.src);
    let r = add_meta(list, m);
    if i >= 0 {
        assert(r[i].src == m.src);
        assert forall|j: int| 0 <= j < list.len() implies r[j].src == list[j].src by {}
    } else {
        assert(r[list.len() as int].src == m.src);
        assert forall|j: int| 0 <= j < list.len() implies r[j].src == list[j].src by {}
    }
    assert forall|s: Seq<char>| has_src(list, s) implies has_src(r, s) by {
        let j = choose|j: int| 0 <= j < list.len() && #[trigger] list[j].src == s;
        assert(r[j].src == s);
    }
}

proof fn lemma_export_from_specs(metas: Seq<SMeta>, src: Seq<char>, sps: Seq<SNode>)
    ensures
        forall|s: Seq<char>| has_src(metas, s) ==> has_src(export_from_specs(metas, src, sps), s),
        distinct_srcs(metas) ==> distinct_srcs(export_from_specs(metas, src, sps)),
    decreases sps.len(),
{
    if sps.len() > 0 {
        lemma_export_from_specs(metas, src, sps.drop_last());
        let prev = export_from_specs(metas, src, sps.drop_last());
        lemma_add_meta(
            prev,
            SMeta {
                exports: crate::items::export_from_entry(local_name_of(src), sps.last()),
                has_export_all: false,
                src,
                stmts: Seq::empty(),
            },
        );
    }
}

proof fn lemma_export_local_specs_metas(acc: SItemAcc, sps: Seq<SNode>)
    ensures
        export_local_specs(acc, sps).c.metas == acc.c.metas,
    decreases sps.len(),
{
    if sps.len() > 0 {
        lemma_export_local_specs_metas(acc, sps.drop_last());
    }
}

proof fn lemma_process_item_metas(acc: SItemAcc, item: SNode, src: Seq<char>)
    ensures
        forall|s: Seq<char>| has_src(acc.c.metas, s) ==> has_src(process_item(acc, item, src).c.metas, s),
        distinct_srcs(acc.c.metas) ==> distinct_srcs(process_item(acc, item, src).c.metas),
        item.kind == Kind::ImportDecl && item.children.len() == 3 ==> has_src(process_item(acc, item, src).c.metas, src),
        item.kind == Kind::ExportAll && item.children.len() == 2 ==> has_src(
            process_item(acc, item, src).c.metas,
            item.children[0].sym,
        ),
{
    let c = acc.c;
    match item.kind {
        Kind::ImportDecl => {
            if item.children.len() == 3 {
                let r = process_import(c, item, src);
                let setters = crate::items::import_specs(
                    local_name_of(src),
                    crate::items::ImportAcc {
                        declares: c.declare_var_idents,
                        import_names: c.import_ident_names,
                        setters: Seq::empty(),
                    },
                    item.children[0].children,
                ).setters;
                lemma_add_meta(c.metas, SMeta { exports: Seq::empty(), has_export_all: false, src, stmts: setters });
            }
        },
        Kind::NamedExport => {
            if item.children.len() == 3 {
                if item.children[1].kind != Kind::Absent {
                    lemma_export_from_specs(c.metas, src, item.children[0].children);
                } else {
                    lemma_export_local_specs_metas(acc, item.children[0].children);
                }
            }
        },
        Kind::ExportAll => {
            if item.children.len() == 2 {
                lemma_add_meta(
                    c.metas,
                    SMeta { exports: Seq::empty(), has_export_all: true, src: item.children[0].sym, stmts: Seq::empty() },
                );
            }
        },
        _ => {},
    }
}

proof fn lemma_process_items_metas(acc: SItemAcc, items: Seq<SNode>, resolved: Seq<Seq<char>>)
    ensures
        forall|s: Seq<char>| has_src(acc.c.metas, s) ==> has_src(process_items(acc, items, resolved).c.metas, s),
        distinct_srcs(acc.c.metas) ==> distinct_srcs(process_items(acc, items, resolved).c.metas),
    decreases items.len(),
{
    if items.len() > 0 {
        let k = resolve_targets(items.drop_last()).len() as int;
        lemma_process_items_metas(acc, items.drop_last(), resolved.take(k));
        lemma_process_item_metas(
            process_items(acc, items.drop_last(), resolved.take(k)),
            items.last(),
            if resolves(items.last()) { resolved[k] } else { Seq::empty() },
        );
    }
}

proof fn lemma_process_items_sources(acc: SItemAcc, items: Seq<SNode>, resolved: Seq<Seq<char>>, i: int)
    requires
        0 <= i < items.len(),
        resolved.len() == resolve_targets(items).len(),
    ensures
        items[i].kind == Kind::ImportDecl && items[i].children.len() == 3 ==> has_src(
            process_items(acc, items, resolved).c.metas,
            resolved[resolve_targets(items.take(i)).len() as int],
        ),
        items[i].kind == Kind::ExportAll && items[i].children.len() == 2 ==> has_src(
            process_items(acc, items, resolved).c.metas,
            items[i].children[0].sym,
        ),
    decreases items.len(),
{
    let k = resolve_targets(items.drop_last()).len() as int;
    let prev = process_items(acc, items.drop_last(), resolved.take(k));
    let src_last = if resolves(items.last()) { resolved[k] } else { Seq::empty() };
    lemma_process_item_metas(prev, items.last(), src_last);
    assert(resolved.len() == k + (if resolves(items.last()) { 1int } else { 0int }));
    if i < items.len() - 1 {
        assert(items.drop_last()[i] == items[i]);
        assert(items.drop_last().take(i) =~= items.take(i));
        crate::items::lemma_resolve_targets_take(items.drop_last(), i);
        crate::items::lemma_resolve_targets_prefix_len(items.drop_last(), i + 1);
        lemma_process_items_sources(acc, items.drop_last(), resolved.take(k), i);
        let idx = resolve_targets(items.take(i)).len() as int;
        if resolves(items[i]) {
            assert(idx < k);
            assert(resolved.take(k)[idx] == resolved[idx]);
        }
    } else {
        assert(items.take(i) =~= items.drop_last());
    }
}

/// The dependencies that the items of a module leave have distinct sources,
/// where those recorded before did; the source of every import (as resolved)
/// and of every `export * from` is one of them.
pub proof fn law_dependencies(st: SState, m: SNode, resolved: Seq<Seq<char>>, i: int)
    requires
        distinct_srcs(st.c.metas),
        resolved.len() == resolve_targets(module_body(m)).len(),
        0 <= i < module_body(m).len(),
    ensures
        distinct_srcs(collect_phase(st, m, resolved).c.metas),
        ({
            let item = module_body(m)[i];
            let metas = collect_phase(st, m, resolved).c.metas;
            &&& item.kind == Kind::ImportDecl && item.children.len() == 3 ==> has_src(
                metas,
                resolved[resolve_targets(module_body(m).take(i)).len() as int],
            )
            &&& item.kind == Kind::ExportAll && item.children.len() == 2 ==> has_src(metas, item.children[0].sym)
        }),
{
    let items = module_body(m);
    let c0 = crate::items::SCollected {
        root_fn_decl_idents: st.c.root_fn_decl_idents + crate::items::root_fn_idents(items),
        ..st.c
    };
    let acc0 = SItemAcc { c: c0, before: Seq::empty(), execute: Seq::empty() };
    lemma_process_items_metas(acc0, items, resolved);
    lemma_process_items_sources(acc0, items, resolved, i);
}

// --- hoisting ---------------------------------------------------------------

/// Hoisting declares each binding once, in order; it only appends exports,
/// and none for bindings with an initializer.
pub proof fn law_hoist_bindings(
    m: Map<(Seq<char>, Option<u32>), Seq<Seq<char>>>,
    acc: HoistAcc,
    bs: Seq<SBinding>,
    has_init: bool,
)
    ensures
        hoist_bindings(m, acc, bs, has_init).declares == acc.declares + bs.map_values(
            |b: SBinding| declared_ident(b),
        ),
        hoist_bindings(m, acc, bs, has_init).exports.len() >= acc.exports.len(),
        hoist_bindings(m, acc, bs, has_init).exports.take(acc.exports.len() as int) == acc.exports,
        has_init ==> hoist_bindings(m, acc, bs, has_init).exports == acc.exports,
    decreases bs.len(),
{
    if bs.len() > 0 {
        law_hoist_bindings(m, acc, bs.drop_last(), has_init);
        let prev = hoist_bindings(m, acc, bs.drop_last(), has_init);
        assert(bs.map_values(|b: SBinding| declared_ident(b)) =~= bs.drop_last().map_values(
            |b: SBinding| declared_ident(b),
        ).push(declared_ident(bs.last())));
        assert(acc.declares + bs.map_values(|b: SBinding| declared_ident(b)) =~= (acc.declares
            + bs.drop_last().map_values(|b: SBinding| declared_ident(b))).push(declared_ident(bs.last())));
        let r = hoist_bindings(m, acc, bs, has_init);
        assert(r.exports.take(acc.exports.len() as int) =~= prev.exports.take(acc.exports.len() as int));
    } else {
        assert(acc.declares + bs.map_values(|b: SBinding| declared_ident(b)) =~= acc.declares);
        assert(acc.exports.take(acc.exports.len() as int) =~= acc.exports);
    }
}

// --- the whole transform -----------------------------------------------------

proof fn lemma_execute_list_flags(env: SEnv, acc: HoistAcc, fl: Flags, s: Seq<SNode>)
    ensures
        fl.tla ==> execute_list(env, acc, fl, s).1.tla,
        !fl.enter_fn ==> !execute_list(env, acc, fl, s).1.enter_fn,
        !fl.enter_async_fn ==> !execute_list(env, acc, fl, s).1.enter_async_fn,
    decreases s.len(),
{
    if s.len() > 0 {
        lemma_execute_list_flags(env, acc, fl, s.drop_last());
        let (a1, f1, r1) = execute_list(env, acc, fl, s.drop_last());
        let (a2, h) = hoist_stmt(env.export_map, a1, s.last());
        law_fold_flags(env, f1, h);
    }
}

/// The module becomes the single statement
/// `System.register([sources..], function (_export, _context) { .. })`: the
/// dependency array lists the sources of the recorded dependencies in order,
/// and the function starts with `"use strict"` and ends with the `return` of
/// one setter per dependency and of `execute`, which is `async` exactly when
/// a top-level `await` was seen.  Afterwards no export or dependency is
/// pending, and the options are kept.
pub proof fn law_transform_shape(st: SState, m: SNode, resolved: Seq<Seq<char>>)
    ensures
        ({
            let (st2, out) = transform(st, m, resolved);
            let metas = collect_phase(st, m, resolved).c.metas;
            &&& exists|body: Seq<SNode>, execute: Seq<SNode>|
                #![trigger register_module(m, dep_args(metas), body), return_stmt(setter_args(metas), execute, st2.flags.tla)]
                {
                    &&& out == register_module(m, dep_args(metas), body)
                    &&& body.len() >= 2
                    &&& body[0] == use_strict()
                    &&& body.last() == return_stmt(setter_args(metas), execute, st2.flags.tla)
                }
            &&& st2.c.exports.len() == 0
            &&& st2.c.metas.len() == 0
            &&& st2.root_mark == st.root_mark
            &&& st2.allow_top_level_this == st.allow_top_level_this
            &&& st2.c.export_map == collect_phase(st, m, resolved).c.export_map
        }),
{
    let acc = collect_phase(st, m, resolved);
    let env = env_of(st, acc);
    let (fl1, before) = fold_list(env, st.flags, acc.before);
    let (h, fl2, execute) = execute_list(
        env,
        HoistAcc { exports: acc.c.exports, declares: acc.c.declare_var_idents },
        fl1,
        acc.execute,
    );
    let metas = acc.c.metas;
    let body = seq![use_strict()] + crate::system_js::declare_stmts(h.declares) + before
        + crate::exports::export_call_stmts(h.exports) + seq![
        return_stmt(setter_args(metas), execute, fl2.tla),
    ];
    let (st2, out) = transform(st, m, resolved);
    assert(out == register_module(m, dep_args(metas), body));
    assert(body[0] == use_strict());
    assert(body.last() == return_stmt(setter_args(metas), execute, st2.flags.tla));
}

/// Once a top-level `await` has been seen, the `execute` function of every
/// later module is `async`; the transform leaves the module's top level
/// outside of function declarations where it started there.
pub proof fn law_transform_flags(st: SState, m: SNode, resolved: Seq<Seq<char>>)
    ensures
        st.flags.tla ==> transform(st, m, resolved).0.flags.tla,
        !st.flags.enter_fn ==> !transform(st, m, resolved).0.flags.enter_fn,
        !st.flags.enter_async_fn ==> !transform(st, m, resolved).0.flags.enter_async_fn,
{
    let acc = collect_phase(st, m, resolved);
    let env = env_of(st, acc);
    lemma_fold_list_flags(env, st.flags, acc.before);
    let (fl1, before) = fold_list(env, st.flags, acc.before);
    lemma_execute_list_flags(
        env,
        HoistAcc { exports: acc.c.exports, declares: acc.c.declare_var_idents },
        fl1,
        acc.execute,
    );
}

// --- top-level await ----------------------------------------------------------

/// `await e;` as a statement.
pub open spec fn is_await_stmt(s: SNode) -> bool {
    s.kind == Kind::ExprStmt && s.children.len() == 1 && s.children[0].kind == Kind::AwaitExpr
}

proof fn lemma_export_local_specs_execute_grows(acc: SItemAcc, sps: Seq<SNode>)
    ensures
        forall|x: SNode| acc.execute.contains(x) ==> export_local_specs(acc, sps).execute.contains(x),
    decreases sps.len(),
{
    if sps.len() > 0 {
        lemma_export_local_specs_execute_grows(acc, sps.drop_last());
        let a1 = export_local_specs(acc, sps.drop_last());
        let r = export_local_step(a1, sps.last());
        assert forall|x: SNode| a1.execute.contains(x) implies r.execute.contains(x) by {
            let j = choose|j: int| 0 <= j < a1.execute.len() && a1.execute[j] == x;
            assert(r.execute[j] == x);
        }
    }
}

proof fn lemma_push_contains(s: Seq<SNode>, y: SNode)
    ensures
        forall|x: SNode| s.contains(x) ==> s.push(y).contains(x),
        s.push(y).contains(y),
{
    assert forall|x: SNode| s.contains(x) implies s.push(y).contains(x) by {
        let j = choose|j: int| 0 <= j < s.len() && s[j] == x;
        assert(s.push(y)[j] == x);
    }
    assert(s.push(y)[s.len() as int] == y);
}

proof fn lemma_process_item_execute_grows(acc: SItemAcc, item: SNode, src: Seq<char>)
    ensures
        forall|x: SNode| acc.execute.contains(x) ==> process_item(acc, item, src).execute.contains(x),
        is_await_stmt(item) ==> process_item(acc, item, src).execute.contains(item),
{
    let r = process_item(acc, item, src);
    if r.execute != acc.execute {
        match item.kind {
            Kind::NamedExport => {
                lemma_export_local_specs_execute_grows(acc, item.children[0].children);
            },
            _ => {
                assert(r.execute == acc.execute.push(r.execute.last()));
                lemma_push_contains(acc.execute, r.execute.last());
            },
        }
    }
    if is_await_stmt(item) {
        assert(r.execute == acc.execute.push(item));
        lemma_push_contains(acc.execute, item);
    }
}

proof fn lemma_process_items_await(acc: SItemAcc, items: Seq<SNode>, resolved: Seq<Seq<char>>, i: int)
    requires
        0 <= i < items.len(),
        is_await_stmt(items[i]),
    ensures
        process_items(acc, items, resolved).execute.contains(items[i]),
    decreases items.len(),
{
    let k = resolve_targets(items.drop_last()).len() as int;
    let prev = process_items(acc, items.drop_last(), resolved.take(k));
    let src_last = if resolves(items.last()) { resolved[k] } else { Seq::empty() };
    lemma_process_item_execute_grows(prev, items.last(), src_last);
    if i < items.len() - 1 {
        assert(items.drop_last()[i] == items[i]);
        lemma_process_items_await(acc, items.drop_last(), resolved.take(k), i);
    }
}

proof fn lemma_execute_list_await(env: SEnv, acc: HoistAcc, fl: Flags, s: Seq<SNode>)
    requires
        !fl.enter_async_fn,
        exists|j: int| 0 <= j < s.len() && is_await_stmt(#[trigger] s[j]),
    ensures
        execute_list(env, acc, fl, s).1.tla,
    decreases s.len(),
{
    let j = choose|j: int| 0 <= j < s.len() && is_await_stmt(#[trigger] s[j]);
    lemma_execute_list_flags(env, acc, fl, s.drop_last());
    let (a1, f1, r1) = execute_list(env, acc, fl, s.drop_last());
    let (a2, h) = hoist_stmt(env.export_map, a1, s.last());
    if j < s.len() - 1 {
        assert(is_await_stmt(s.drop_last()[j]));
        lemma_execute_list_await(env, acc, fl, s.drop_last());
        law_fold_flags(env, f1, h);
    } else {
        let st = s.last();
        assert(h == st);
        let aw = st.children[0];
        assert(st.children.drop_last() =~= Seq::<SNode>::empty());
        assert(fold_list(env, f1, st.children.drop_last()).0 == f1);
        assert(fold(env, f1, aw).0.tla);
        assert(fold_list(env, f1, st.children).0.tla);
        assert(fold_children(env, f1, st).0.tla);
        assert(fold(env, f1, st) == fold_children(env, f1, st));
    }
}

/// A top-level `await e;` makes the module's `execute` function `async`
/// (the transform starts outside of `async` function declarations).
pub proof fn law_top_level_await(st: SState, m: SNode, resolved: Seq<Seq<char>>, i: int)
    requires
        !st.flags.enter_async_fn,
        0 <= i < module_body(m).len(),
        is_await_stmt(module_body(m)[i]),
    ensures
        transform(st, m, resolved).0.flags.tla,
{
    let items = module_body(m);
    let c0 = crate::items::SCollected {
        root_fn_decl_idents: st.c.root_fn_decl_idents + crate::items::root_fn_idents(items),
        ..st.c
    };
    let acc0 = SItemAcc { c: c0, before: Seq::empty(), execute: Seq::empty() };
    lemma_process_items_await(acc0, items, resolved, i);
    let acc = collect_phase(st, m, resolved);
    let env = env_of(st, acc);
    lemma_fold_list_flags(env, st.flags, acc.before);
    let (fl1, before) = fold_list(env, st.flags, acc.before);
    let j = choose|j: int| 0 <= j < acc.execute.len() && acc.execute[j] == items[i];
    assert(is_await_stmt(acc.execute[j]));
    lemma_execute_list_await(
        env,
        HoistAcc { exports: acc.c.exports, declares: acc.c.declare_var_idents },
        fl1,
        acc.execute,
    );
}

} // verus!

//! The SystemJS transform: a module becomes
//! `System.register([deps..], function (_export, _context) { .. })`.
//!
//! The module's function declares every top-level name with one `var`,
//! defines the hoisted functions, publishes their exports, and returns the
//! setters of its dependencies and its `execute` function, which runs the
//! rest of the module's statements.
use vstd::prelude::*;
use swc_common::FileName;
use crate::ast::{
    Kind, Node, SNode, absent, as_arg, binding_ident, call, clone_node, dummy_sp, dummy_span,
    expr_stmt, fn_expr, key_value, lemma_nodes_view, lemma_nodes_view_add, list, mk, new_absent,
    new_as_arg, new_binding_ident, new_call, new_expr_stmt, new_fn_expr, new_key_value, new_list,
    new_node, new_object_lit, new_quote_ident, new_str_lit, new_var_decl, new_var_declarator,
    node_view, nodes_view, object_lit, quote_ident, str_lit, var_decl, var_declarator, vec1, vec2,
    with_children,
};
use crate::exports::{
    ModuleItemMeta, SMeta, build_export_call, build_module_item_export_all, export_call_stmts,
    metas_view, setter_body,
};
use crate::fold::{Flags, FoldCtx, SEnv, fold, fold_list, fold_node_children};
use crate::hoist::{HoistAcc, empty_var_head, exports_view, hoist_rejects, hoist_stmt, hoist_variables};
use crate::items::{
    Collected, SCollected, SItemAcc, acc_matches, acc_of, collect_root_fn_idents, empty_collected,
    into_children, lemma_process_items_execute, lemma_resolve_targets_take, names_view,
    none_rejected, process_items, process_items_exec, push_node, resolve_targets, resolves,
    root_fn_idents, take_first,
};
use crate::symbol::{local_name_for_src, local_name_of};

verus! {

/// `swc_common::FileName`, the file that a module was read from; carried
/// to the resolver and not looked into.
#[verifier::external_type_specification]
#[verifier::external_body]
pub struct ExFileName(FileName);

/// `anyhow::Error`, why a resolver failed; carried to the caller and not
/// looked into.
#[verifier::external_type_specification]
#[verifier::external_body]
pub struct ExAnyhowError(anyhow::Error);

/// The options of the transform.
#[derive(Debug, Clone, Copy)]
pub struct Config {
    /// Keep `this` at the top level of the module (else it becomes `void 0`).
    pub allow_top_level_this: bool,
}

impl Default for Config {
    fn default() -> (r: Config)
        ensures
            !r.allow_top_level_this,
    {
        Config { allow_top_level_this: false }
    }
}

/// Resolves the module specifiers of imports and re-exports.
pub trait ImportResolver {
    /// Whether `resolved` is a specifier that this resolver may give for the
    /// module `specifier` imported from the file `base`; a resolver that
    /// does not say otherwise may give any.
    open spec fn resolves(&self, base: FileName, specifier: Seq<char>, resolved: Seq<char>) -> bool {
        true
    }

    /// Whether this resolver may fail on the module `specifier` imported from
    /// the file `base`; a resolver that does not say otherwise may fail.
    open spec fn may_fail(&self, base: FileName, specifier: Seq<char>) -> bool {
        true
    }

    /// The specifier under which the module `module_specifier`, imported from
    /// the file `base`, is registered.
    fn resolve_import(&self, base: &FileName, module_specifier: &str) -> (r: Result<String, anyhow::Error>)
        ensures
            match r {
                Ok(s) => self.resolves(*base, module_specifier@, s@),
                Err(_) => self.may_fail(*base, module_specifier@),
            },
    ;
}

/// The resolver that keeps every specifier as it is.
#[derive(Debug, Clone, Copy)]
pub struct NoopImportResolver;

impl ImportResolver for NoopImportResolver {
    open spec fn resolves(&self, base: FileName, specifier: Seq<char>, resolved: Seq<char>) -> bool {
        resolved == specifier
    }

    open spec fn may_fail(&self, base: FileName, specifier: Seq<char>) -> bool {
        false
    }

    fn resolve_import(&self, base: &FileName, module_specifier: &str) -> (r: Result<String, anyhow::Error>)
        ensures
            r matches Ok(s) && s@ == module_specifier@,
    {
        Ok(module_specifier.to_string())
    }
}

/// `resolved` holds, for each source in `targets`, what the optional
/// resolver may give for it (the source itself where there is no resolver).
pub open spec fn resolved_by<R: ImportResolver>(
    resolver: Option<(R, FileName)>,
    targets: Seq<Seq<char>>,
    resolved: Seq<Seq<char>>,
) -> bool {
    &&& resolved.len() == targets.len()
    &&& match resolver {
        None => resolved == targets,
        Some((res, base)) => forall|i: int| 0 <= i < resolved.len() ==> res.resolves(base, targets[i], #[trigger] resolved[i]),
    }
}

/// Whether the optional resolver may fail on `specifier`.
pub open spec fn may_fail_on<R: ImportResolver>(resolver: Option<(R, FileName)>, specifier: Seq<char>) -> bool {
    match resolver {
        None => false,
        Some((res, base)) => res.may_fail(base, specifier),
    }
}

/// A specifier that the resolver failed to resolve, and why.
pub struct ResolveError {
    pub specifier: String,
    pub cause: anyhow::Error,
}

/// The state of the transform.
pub struct SState {
    /// The mark of the module's top-level syntax context.
    pub root_mark: u32,
    pub allow_top_level_this: bool,
    pub flags: Flags,
    pub c: SCollected,
}

/// The state before any module.
pub open spec fn initial_state(root_mark: u32, config: Config) -> SState {
    SState {
        root_mark,
        allow_top_level_this: config.allow_top_level_this,
        flags: Flags { tla: false, enter_async_fn: false, enter_fn: false },
        c: empty_collected(),
    }
}

/// The statements of a module's body.
pub open spec fn module_body(m: SNode) -> Seq<SNode> {
    if m.children.len() >= 1 {
        m.children[0].children
    } else {
        Seq::empty()
    }
}

/// The statements of `execute`: each statement is hoisted, then rewritten;
/// empty statements are dropped.
pub open spec fn execute_list(env: SEnv, acc: HoistAcc, fl: Flags, s: Seq<SNode>) -> (HoistAcc, Flags, Seq<SNode>)
    decreases s.len(),
{
    if s.len() == 0 {
        (acc, fl, Seq::empty())
    } else {
        let (a1, f1, r1) = execute_list(env, acc, fl, s.drop_last());
        let (a2, h) = hoist_stmt(env.export_map, a1, s.last());
        let (f2, x) = fold(env, f1, h);
        (a2, f2, if x.kind == Kind::EmptyStmt { r1 } else { r1.push(x) })
    }
}

/// An array literal of the given elements.
pub open spec fn array_lit(elems: Seq<SNode>) -> SNode {
    mk(Kind::ArrayLit, dummy_sp(), seq![list(elems)])
}

/// The element of the dependency array for a dependency.
pub open spec fn dep_arg(m: SMeta) -> SNode {
    as_arg(str_lit(m.src))
}

/// The setter of a dependency: a function of the module's local name.
pub open spec fn setter_arg(m: SMeta) -> SNode {
    as_arg(fn_expr(seq![binding_ident(local_name_of(m.src))], setter_body(m), false))
}

/// The elements of the dependency array.
pub open spec fn dep_args(metas: Seq<SMeta>) -> Seq<SNode> {
    metas.map_values(|x: SMeta| dep_arg(x))
}

/// The setters of the dependencies.
pub open spec fn setter_args(metas: Seq<SMeta>) -> Seq<SNode> {
    metas.map_values(|x: SMeta| setter_arg(x))
}

/// `"use strict";`.
pub open spec fn use_strict() -> SNode {
    expr_stmt(str_lit("use strict"@))
}

/// The binding of a declared identifier.
pub open spec fn declared_binding(i: SNode) -> SNode {
    SNode { kind: Kind::BindingIdent, children: seq![absent()], ..i }
}

/// The declarator of a declared identifier.
pub open spec fn declare_declarator(i: SNode) -> SNode {
    var_declarator(i.span, declared_binding(i), absent())
}

/// `var a, b, ..;` for the declared identifiers, where there are any.
pub open spec fn declare_stmts(ds: Seq<SNode>) -> Seq<SNode> {
    if ds.len() == 0 {
        Seq::empty()
    } else {
        seq![var_decl(ds.map_values(|i: SNode| declare_declarator(i)))]
    }
}

/// `return { setters: [..], execute: function () { .. } };`.
pub open spec fn return_stmt(setters: Seq<SNode>, execute: Seq<SNode>, is_async: bool) -> SNode {
    mk(
        Kind::ReturnStmt,
        dummy_sp(),
        seq![
            object_lit(
                seq![
                    key_value(quote_ident(Kind::Ident, "setters"@), array_lit(setters)),
                    key_value(quote_ident(Kind::Ident, "execute"@), fn_expr(Seq::empty(), execute, is_async)),
                ],
            ),
        ],
    )
}

/// The call `System.register([deps..], function (_export, _context) { body })`.
pub open spec fn register_call(deps: Seq<SNode>, body: Seq<SNode>) -> SNode {
    call(
        dummy_sp(),
        quote_ident(Kind::ExprIdent, "System.register"@),
        seq![
            as_arg(array_lit(deps)),
            as_arg(fn_expr(seq![binding_ident("_export"@), binding_ident("_context"@)], body, false)),
        ],
    )
}

/// The module `m` with the single statement `System.register(..)`.
pub open spec fn register_module(m: SNode, deps: Seq<SNode>, body: Seq<SNode>) -> SNode {
    with_children(m, seq![list(seq![expr_stmt(register_call(deps, body))])])
}

/// What the collection of the items of `m` leaves: the top-level function
/// names are recorded first, then each item in order.
pub open spec fn collect_phase(st: SState, m: SNode, resolved: Seq<Seq<char>>) -> SItemAcc {
    let items = module_body(m);
    let c0 = SCollected { root_fn_decl_idents: st.c.root_fn_decl_idents + root_fn_idents(items), ..st.c };
    process_items(SItemAcc { c: c0, before: Seq::empty(), execute: Seq::empty() }, items, resolved)
}

/// The rewriting context after the collection.
pub open spec fn env_of(st: SState, acc: SItemAcc) -> SEnv {
    SEnv { root_mark: st.root_mark, allow_top_level_this: st.allow_top_level_this, export_map: acc.c.export_map }
}

/// The transform of the module `m` from the state `st`; `resolved` holds the
/// resolved sources of the items that name one (see
/// [`crate::items::resolves`]), in order.  The result is the new state and the
/// new module.
pub open spec fn transform(st: SState, m: SNode, resolved: Seq<Seq<char>>) -> (SState, SNode) {
    let acc = collect_phase(st, m, resolved);
    let env = env_of(st, acc);
    let (fl1, before) = fold_list(env, st.flags, acc.before);
    let (h, fl2, execute) = execute_list(
        env,
        HoistAcc { exports: acc.c.exports, declares: acc.c.declare_var_idents },
        fl1,
        acc.execute,
    );
    let metas = acc.c.metas;
    let body = seq![use_strict()] + declare_stmts(h.declares) + before + export_call_stmts(h.exports) + seq![
        return_stmt(setter_args(metas), execute, fl2.tla),
    ];
    (
        SState {
            flags: fl2,
            c: SCollected { declare_var_idents: h.declares, exports: Seq::empty(), metas: Seq::empty(), ..acc.c },
            ..st
        },
        register_module(m, dep_args(metas), body),
    )
}

/// Whether the transform accepts the module: no `for .. in`/`for .. of` at
/// its top level has a `var` head without declarators.
pub open spec fn accepts(m: SNode) -> bool {
    none_rejected(module_body(m))
}

// ---------------------------------------------------------------------------
// Executable code
// ---------------------------------------------------------------------------

/// The rewriting context of a state.
pub open spec fn state_env(st: SState) -> SEnv {
    SEnv { root_mark: st.root_mark, allow_top_level_this: st.allow_top_level_this, export_map: st.c.export_map }
}

/// The transform, with its options, its resolver and what it has collected.
pub struct SystemJs<R: ImportResolver> {
    root_mark: u32,
    resolver: Option<(R, FileName)>,
    config: Config,
    flags: Flags,
    collected: Collected,
}

impl<R: ImportResolver> View for SystemJs<R> {
    type V = SState;

    closed spec fn view(&self) -> SState {
        SState {
            root_mark: self.root_mark,
            allow_top_level_this: self.config.allow_top_level_this,
            flags: self.flags,
            c: self.collected@,
        }
    }
}

impl<R: ImportResolver> SystemJs<R> {
    /// Whether the transform resolves the specifiers it reads.
    pub closed spec fn has_resolver(&self) -> bool {
        self.resolver is Some
    }

    /// The resolver and the file whose specifiers it resolves.
    pub closed spec fn resolver_spec(&self) -> Option<(R, FileName)> {
        self.resolver
    }
}

/// The SystemJS transform for a module whose top-level syntax context has
/// the mark `root_mark`; specifiers are kept as they are.
pub fn system_js(root_mark: u32, config: Config) -> (r: SystemJs<NoopImportResolver>)
    ensures
        r@ == initial_state(root_mark, config),
        !r.has_resolver(),
        r.resolver_spec() is None,
{
    SystemJs {
        root_mark,
        resolver: None,
        config,
        flags: Flags { tla: false, enter_async_fn: false, enter_fn: false },
        collected: Collected::new(),
    }
}

/// The SystemJS transform for a module of the file `base`, whose specifiers
/// are resolved by `resolver`.
pub fn system_js_with_resolver<R: ImportResolver>(resolver: R, base: FileName, root_mark: u32, config: Config) -> (r: SystemJs<R>)
    ensures
        r@ == initial_state(root_mark, config),
        r.has_resolver(),
        r.resolver_spec() == Some((resolver, base)),
{
    SystemJs {
        root_mark,
        resolver: Some((resolver, base)),
        config,
        flags: Flags { tla: false, enter_async_fn: false, enter_fn: false },
        collected: Collected::new(),
    }
}

/// The rewriting of each node of `v`, in order (see [`fold_list`]).
fn fold_nodes(ctx: &FoldCtx, fl: &mut Flags, v: Vec<Node>) -> (r: Vec<Node>)
    ensures
        (*final(fl), nodes_view(r@)) == fold_list(ctx.env(), *old(fl), nodes_view(v@)),
{
    let l = new_list(v);
    let r = fold_node_children(ctx, fl, l);
    into_children(r)
}

/// The statements of `execute` (see [`execute_list`]).
fn execute_stmts(
    ctx: &FoldCtx,
    exports: &mut Vec<(String, Node)>,
    declares: &mut Vec<Node>,
    fl: &mut Flags,
    stmts: Vec<Node>,
) -> (r: Vec<Node>)
    requires
        none_rejected(nodes_view(stmts@)),
    ensures
        ({
            let (h, f, x) = execute_list(
                ctx.env(),
                HoistAcc { exports: exports_view(old(exports)@), declares: nodes_view(old(declares)@) },
                *old(fl),
                nodes_view(stmts@),
            );
            &&& exports_view(final(exports)@) == h.exports
            &&& nodes_view(final(declares)@) == h.declares
            &&& *final(fl) == f
            &&& nodes_view(r@) == x
        }),
{
    let ghost sv = nodes_view(stmts@);
    let ghost env = ctx.env();
    let ghost acc0 = HoistAcc { exports: exports_view(exports@), declares: nodes_view(declares@) };
    let ghost f0 = *fl;
    let mut stmts = stmts;
    let mut out: Vec<Node> = Vec::new();
    let n = stmts.len();
    let mut i: usize = 0;
    proof {
        lemma_nodes_view(stmts@);
        assert(sv.take(0) =~= Seq::<SNode>::empty());
        assert(nodes_view(out@) =~= Seq::<SNode>::empty());
    }
    while i < n
        invariant
            i <= n,
            sv.len() == n,
            nodes_view(stmts@) == sv.skip(i as int),
            stmts@.len() == n - i,
            none_rejected(sv),
            env == ctx.env(),
            ({
                let (h, f, x) = execute_list(env, acc0, f0, sv.take(i as int));
                &&& exports_view(exports@) == h.exports
                &&& nodes_view(declares@) == h.declares
                &&& *fl == f
                &&& nodes_view(out@) == x
            }),
        decreases n - i,
    {
        let s = take_first(&mut stmts);
        proof {
            assert(sv.skip(i as int)[0] == sv[i as int]);
            assert(nodes_view(stmts@) =~= sv.skip(i + 1));
            assert(sv.take(i + 1).drop_last() =~= sv.take(i as int));
            assert(!hoist_rejects(sv[i as int]));
        }
        let h = hoist_variables(ctx.export_map, exports, declares, s);
        let x = crate::fold::fold_node(ctx, fl, h);
        if x.kind != Kind::EmptyStmt {
            push_node(&mut out, x);
        }
        i = i + 1;
    }
    proof {
        assert(sv.take(n as int) =~= sv);
    }
    out
}

/// The dependency array elements and the setters of the dependencies `metas`.
fn deps_and_setters(metas: Vec<ModuleItemMeta>) -> (r: (Vec<Node>, Vec<Node>))
    ensures
        nodes_view(r.0@) == dep_args(metas_view(metas@)),
        nodes_view(r.1@) == setter_args(metas_view(metas@)),
{
    let ghost mv = metas_view(metas@);
    let ghost m0 = metas@;
    let mut metas = metas;
    let mut deps: Vec<Node> = Vec::new();
    let mut setters: Vec<Node> = Vec::new();
    let n = metas.len();
    let mut i: usize = 0;
    proof {
        assert(nodes_view(deps@) =~= mv.take(0).map_values(|x: SMeta| dep_arg(x)));
        assert(nodes_view(setters@) =~= mv.take(0).map_values(|x: SMeta| setter_arg(x)));
    }
    while i < n
        invariant
            i <= n,
            n == m0.len(),
            mv == metas_view(m0),
            metas@ == m0.skip(i as int),
            nodes_view(deps@) == mv.take(i as int).map_values(|x: SMeta| dep_arg(x)),
            nodes_view(setters@) == mv.take(i as int).map_values(|x: SMeta| setter_arg(x)),
        decreases n - i,
    {
        let meta = metas.remove(0);
        assert(meta == m0[i as int]);
        let ghost metav = meta@;
        let d = new_as_arg(new_str_lit(meta.src.clone()));
        let param = new_binding_ident(local_name_for_src(meta.src.as_str()));
        let body = build_module_item_export_all(meta);
        let f = new_as_arg(new_fn_expr(vec1(param), body, false));
        push_node(&mut deps, d);
        push_node(&mut setters, f);
        proof {
            assert(mv[i as int] == metav);
            assert(mv.take(i + 1).map_values(|x: SMeta| dep_arg(x)) =~= mv.take(i as int).map_values(|x: SMeta| dep_arg(x)).push(d@));
            assert(mv.take(i + 1).map_values(|x: SMeta| setter_arg(x)) =~= mv.take(i as int).map_values(|x: SMeta| setter_arg(x)).push(f@));
            assert(metas@ =~= m0.skip(i + 1));
        }
        i = i + 1;
    }
    proof {
        assert(mv.take(n as int) =~= mv);
    }
    (deps, setters)
}

/// `var a, b, ..;` for the declared identifiers (see [`declare_stmts`]).
fn declare_stmts_exec(ds: &Vec<Node>) -> (r: Vec<Node>)
    ensures
        nodes_view(r@) == declare_stmts(nodes_view(ds@)),
{
    let ghost dv = nodes_view(ds@);
    proof {
        lemma_nodes_view(ds@);
    }
    if ds.len() == 0 {
        let r = Vec::new();
        assert(nodes_view(r@) =~= Seq::<SNode>::empty());
        return r;
    }
    let mut decls: Vec<Node> = Vec::new();
    let n = ds.len();
    let mut i: usize = 0;
    proof {
        assert(nodes_view(decls@) =~= dv.take(0).map_values(|x: SNode| declare_declarator(x)));
    }
    while i < n
        invariant
            i <= n,
            n == ds@.len(),
            dv == nodes_view(ds@),
            dv.len() == n,
            forall|j: int| 0 <= j < n ==> #[trigger] dv[j] == node_view(ds@[j]),
            nodes_view(decls@) == dv.take(i as int).map_values(|x: SNode| declare_declarator(x)),
        decreases n - i,
    {
        let mut b = clone_node(&ds[i]);
        b.kind = Kind::BindingIdent;
        b.children = vec1(new_absent());
        let span = ds[i].span;
        let d = new_var_declarator(span, b, new_absent());
        proof {
            assert(b@ == declared_binding(dv[i as int]));
        }
        push_node(&mut decls, d);
        proof {
            assert(dv.take(i + 1).map_values(|x: SNode| declare_declarator(x)) =~= dv.take(i as int).map_values(|x: SNode| declare_declarator(x)).push(d@));
        }
        i = i + 1;
    }
    proof {
        assert(dv.take(n as int) =~= dv);
    }
    vec1(new_var_decl(decls))
}

/// An array literal (see [`array_lit`]).
fn new_array_lit(elems: Vec<Node>) -> (r: Node)
    ensures
        r@ == array_lit(nodes_view(elems@)),
{
    new_node(Kind::ArrayLit, dummy_span(), vec1(new_list(elems)))
}

/// The `return` of the module's function (see [`return_stmt`]).
fn new_return_stmt(setters: Vec<Node>, execute: Vec<Node>, is_async: bool) -> (r: Node)
    ensures
        r@ == return_stmt(nodes_view(setters@), nodes_view(execute@), is_async),
{
    let s = new_key_value(new_quote_ident(Kind::Ident, "setters"), new_array_lit(setters));
    let e = new_key_value(new_quote_ident(Kind::Ident, "execute"), new_fn_expr(Vec::new(), execute, is_async));
    proof {
        assert(nodes_view(Seq::<Node>::empty()) =~= Seq::<SNode>::empty());
    }
    new_node(Kind::ReturnStmt, dummy_span(), vec1(new_object_lit(vec2(s, e))))
}

/// The call `System.register(..)` (see [`register_call`]).
fn new_register_call(deps: Vec<Node>, body: Vec<Node>) -> (r: Node)
    ensures
        r@ == register_call(nodes_view(deps@), nodes_view(body@)),
{
    let params = vec2(new_binding_ident("_export".to_string()), new_binding_ident("_context".to_string()));
    let f = new_fn_expr(params, body, false);
    new_call(
        dummy_span(),
        new_quote_ident(Kind::ExprIdent, "System.register"),
        vec2(new_as_arg(new_array_lit(deps)), new_as_arg(f)),
    )
}

fn append_nodes(a: &mut Vec<Node>, b: Vec<Node>)
    ensures
        nodes_view(final(a)@) == nodes_view(old(a)@) + nodes_view(b@),
{
    let ghost a0 = a@;
    let ghost b0 = b@;
    let mut b = b;
    a.append(&mut b);
    proof {
        assert(a@ =~= a0 + b0);
        lemma_nodes_view_add(a0, b0);
    }
}

impl<R: ImportResolver> SystemJs<R> {
    /// The transform of `module`, where `resolved` holds the resolved sources
    /// of the items that name one, in order (see [`transform`]).
    pub fn transform_module(&mut self, module: Node, resolved: Vec<String>) -> (r: Node)
        requires
            resolved@.len() == resolve_targets(module_body(module@)).len(),
            accepts(module@),
        ensures
            (final(self)@, r@) == transform(old(self)@, module@, names_view(resolved@)),
            final(self).has_resolver() == old(self).has_resolver(),
            final(self).resolver_spec() == old(self).resolver_spec(),
    {
        let ghost st = self@;
        let ghost mv = module@;
        let ghost rv = names_view(resolved@);
        proof {
            lemma_nodes_view(module.children@);
        }
        let Node { kind, sym, raw, span, mark, bits, children } = module;
        let mut mkids = children;
        let items: Vec<Node> = if mkids.len() >= 1 {
            into_children(take_first(&mut mkids))
        } else {
            let v = Vec::new();
            assert(nodes_view(v@) =~= Seq::<SNode>::empty());
            v
        };
        assert(nodes_view(items@) == module_body(mv));
        let mut c = Collected::new();
        std::mem::swap(&mut c, &mut self.collected);
        assert(c@ == st.c);
        // the top-level function declarations
        collect_root_fn_idents(&mut c.root_fn_decl_idents, &items);
        // the items
        let mut before: Vec<Node> = Vec::new();
        let mut execute: Vec<Node> = Vec::new();
        let ghost acc0 = acc_of(c, before@, execute@);
        proof {
            assert(nodes_view(Seq::<Node>::empty()) =~= Seq::<SNode>::empty());
            let c0 = SCollected { root_fn_decl_idents: st.c.root_fn_decl_idents + root_fn_idents(module_body(mv)), ..st.c };
            assert(acc0.c == c0);
            assert(acc0 == SItemAcc { c: c0, before: Seq::empty(), execute: Seq::empty() });
        }
        process_items_exec(&mut c, &mut before, &mut execute, items, resolved);
        let ghost acc = collect_phase(st, mv, rv);
        assert(acc_matches(c, before@, execute@, acc));
        proof {
            lemma_process_items_execute(acc0, module_body(mv), rv);
        }
        // the rewriting of the hoisted functions, then of the statements of `execute`
        let mut fl = self.flags;
        let mut exports: Vec<(String, Node)> = Vec::new();
        std::mem::swap(&mut exports, &mut c.exports);
        let mut declares: Vec<Node> = Vec::new();
        std::mem::swap(&mut declares, &mut c.declare_var_idents);
        let ctx = FoldCtx {
            root_mark: self.root_mark,
            allow_top_level_this: self.config.allow_top_level_this,
            export_map: &c.export_map,
        };
        assert(ctx.env() == env_of(st, acc));
        let mut before = fold_nodes(&ctx, &mut fl, before);
        let ghost fl1 = fl;
        let execute = execute_stmts(&ctx, &mut exports, &mut declares, &mut fl, execute);
        // the exports of the module's function
        let calls = build_export_call(exports);
        append_nodes(&mut before, calls);
        // the dependencies
        let mut metas: Vec<ModuleItemMeta> = Vec::new();
        std::mem::swap(&mut metas, &mut c.module_item_meta_list);
        let (deps, setters) = deps_and_setters(metas);
        // the module's function
        let ret = new_return_stmt(setters, execute, fl.tla);
        let mut body = vec1(new_expr_stmt(new_str_lit("use strict".to_string())));
        let decl = declare_stmts_exec(&declares);
        append_nodes(&mut body, decl);
        append_nodes(&mut body, before);
        push_node(&mut body, ret);
        let stmt = new_expr_stmt(new_register_call(deps, body));
        c.declare_var_idents = declares;
        proof {
            assert(exports_view(c.exports@) =~= Seq::empty());
            assert(metas_view(c.module_item_meta_list@) =~= Seq::empty());
        }
        self.collected = c;
        self.flags = fl;
        let out = Node { kind, sym, raw, span, mark, bits, children: vec1(new_list(vec1(stmt))) };
        proof {
            let env = env_of(st, acc);
            let (f1s, bs) = fold_list(env, st.flags, acc.before);
            assert(f1s == fl1);
            let (h, fl2, ex) = execute_list(
                env,
                HoistAcc { exports: acc.c.exports, declares: acc.c.declare_var_idents },
                f1s,
                acc.execute,
            );
            assert(fl2 == fl);
            assert(h.declares == nodes_view(declares@));
            let metas = acc.c.metas;
            let body_s = seq![use_strict()] + declare_stmts(h.declares) + bs + export_call_stmts(h.exports) + seq![
                return_stmt(setter_args(metas), ex, fl2.tla),
            ];
            assert(nodes_view(body@) =~= body_s);
            let (st2, m2) = transform(st, mv, rv);
            assert(out@ =~= m2);
            assert(self@.c =~= st2.c);
            assert(self@ == st2);
        }
        out
    }
}

/// Whether one of `items` names the source `spec` (see [`resolves`]).
pub open spec fn names_source(items: Seq<SNode>, spec: Seq<char>) -> bool {
    exists|i: int| 0 <= i < items.len() && #[trigger] resolves(items[i]) && items[i].children[1].sym == spec
}

/// Whether the head of a `for .. in`/`for .. of` loop is rejected (see [`empty_var_head`]).
fn empty_var_head_exec(left: &Node) -> (r: bool)
    ensures
        r == empty_var_head(left@),
{
    proof {
        lemma_nodes_view(left.children@);
    }
    if left.kind == (Kind::VarDecl { var_kind: crate::ast::VarDeclKind::Var }) {
        if left.children.len() >= 1 {
            proof {
                lemma_nodes_view(left.children[0].children@);
            }
            left.children[0].children.len() == 0
        } else {
            true
        }
    } else {
        false
    }
}

/// Whether the hoisting of a statement is rejected (see [`hoist_rejects`]).
fn hoist_rejects_exec(s: &Node) -> (r: bool)
    ensures
        r == hoist_rejects(s@),
{
    proof {
        lemma_nodes_view(s.children@);
    }
    match s.kind {
        Kind::ForInStmt => s.children.len() == 3 && empty_var_head_exec(&s.children[0]),
        Kind::ForOfStmt => s.children.len() == 4 && empty_var_head_exec(&s.children[1]),
        _ => false,
    }
}

/// Whether the transform accepts `module` (see [`accepts`]).
pub fn accepts_module(module: &Node) -> (r: bool)
    ensures
        r == accepts(module@),
{
    proof {
        lemma_nodes_view(module.children@);
    }
    if module.children.len() == 0 {
        return true;
    }
    let items = &module.children[0].children;
    let ghost iv = nodes_view(items@);
    proof {
        lemma_nodes_view(items@);
    }
    let n = items.len();
    let mut i: usize = 0;
    while i < n
        invariant
            i <= n,
            n == items@.len(),
            iv == nodes_view(items@),
            iv.len() == n,
            iv == module_body(module@),
            forall|j: int| 0 <= j < n ==> #[trigger] iv[j] == node_view(items@[j]),
            forall|j: int| 0 <= j < i ==> !#[trigger] hoist_rejects(iv[j]),
        decreases n - i,
    {
        if hoist_rejects_exec(&items[i]) {
            assert(hoist_rejects(iv[i as int]));
            return false;
        }
        i = i + 1;
    }
    true
}

impl<R: ImportResolver> SystemJs<R> {
    /// The resolved sources of the items that name one, in order: each is
    /// passed to the resolver with the stored file, where there is one, and
    /// the value it gives is kept.
    fn resolve_sources(&self, items: &Vec<Node>) -> (r: Result<Vec<String>, ResolveError>)
        ensures
            match r {
                Ok(v) => resolved_by(self.resolver_spec(), resolve_targets(nodes_view(items@)), names_view(v@)),
                Err(e) => {
                    &&& names_source(nodes_view(items@), e.specifier@)
                    &&& may_fail_on(self.resolver_spec(), e.specifier@)
                },
            },
    {
        let ghost iv = nodes_view(items@);
        proof {
            lemma_nodes_view(items@);
            assert(iv.take(0) =~= Seq::<SNode>::empty());
            assert(names_view(Seq::<String>::empty()) =~= Seq::<Seq<char>>::empty());
        }
        let mut out: Vec<String> = Vec::new();
        let n = items.len();
        let mut i: usize = 0;
        while i < n
            invariant
                i <= n,
                n == items@.len(),
                iv == nodes_view(items@),
                iv.len() == n,
                forall|j: int| 0 <= j < n ==> #[trigger] iv[j] == node_view(items@[j]),
                resolved_by(self.resolver_spec(), resolve_targets(iv.take(i as int)), names_view(out@)),
            decreases n - i,
        {
            let item = &items[i];
            proof {
                lemma_resolve_targets_take(iv, i as int);
                lemma_nodes_view(item.children@);
                assert(iv[i as int] == item@);
            }
            let takes = (item.kind == Kind::ImportDecl && item.children.len() == 3) || (item.kind
                == Kind::NamedExport && item.children.len() == 3 && item.children[1].kind != Kind::Absent);
            assert(takes == resolves(item@));
            let ghost t0 = resolve_targets(iv.take(i as int));
            if takes {
                let spec_s = &item.children[1].sym;
                let ghost o0 = out@;
                assert(resolve_targets(iv.take(i + 1)) == t0.push(spec_s@));
                match &self.resolver {
                    Some((resolver, base)) => {
                        match resolver.resolve_import(base, spec_s.as_str()) {
                            Ok(resolved) => {
                                out.push(resolved);
                                proof {
                                    let nv = names_view(out@);
                                    assert(nv =~= names_view(o0).push(resolved@));
                                    let t1 = t0.push(spec_s@);
                                    assert forall|k: int| 0 <= k < nv.len() implies #[trigger] resolver.resolves(
                                        *base,
                                        t1[k],
                                        nv[k],
                                    ) by {
                                        if k < nv.len() - 1 {
                                            assert(t1[k] == t0[k]);
                                            assert(nv[k] == names_view(o0)[k]);
                                        }
                                    }
                                }
                            },
                            Err(cause) => {
                                assert(resolves(iv[i as int]) && iv[i as int].children[1].sym == spec_s@);
                                return Err(ResolveError { specifier: spec_s.clone(), cause });
                            },
                        }
                    },
                    None => {
                        out.push(spec_s.clone());
                        proof {
                            assert(names_view(out@) =~= names_view(o0).push(spec_s@));
                        }
                    },
                }
            } else {
                assert(resolve_targets(iv.take(i + 1)) == t0);
            }
            i = i + 1;
        }
        proof {
            assert(iv.take(n as int) =~= iv);
        }
        Ok(out)
    }

    /// The transform of `module` (see [`transform`]): the sources named by its
    /// items are resolved first, in order, where the transform has a resolver
    /// (each with the stored file; the values it gives are the sources used);
    /// where one fails, the module is not transformed and the state is kept.
    pub fn fold_module(&mut self, module: Node) -> (r: Result<Node, ResolveError>)
        requires
            accepts(module@),
        ensures
            final(self).has_resolver() == old(self).has_resolver(),
            final(self).resolver_spec() == old(self).resolver_spec(),
            !old(self).has_resolver() ==> r is Ok,
            match r {
                Ok(out) => exists|rs: Seq<Seq<char>>| {
                    &&& resolved_by(old(self).resolver_spec(), resolve_targets(module_body(module@)), rs)
                    &&& (final(self)@, out@) == #[trigger] transform(old(self)@, module@, rs)
                },
                Err(e) => {
                    &&& final(self)@ == old(self)@
                    &&& names_source(module_body(module@), e.specifier@)
                    &&& may_fail_on(old(self).resolver_spec(), e.specifier@)
                },
            },
    {
        proof {
            lemma_nodes_view(module.children@);
        }
        let resolved = if module.children.len() >= 1 {
            self.resolve_sources(&module.children[0].children)
        } else {
            let empty: Vec<Node> = Vec::new();
            assert(nodes_view(empty@) =~= Seq::<SNode>::empty());
            self.resolve_sources(&empty)
        };
        match resolved {
            Ok(rs) => {
                let ghost rv = names_view(rs@);
                let out = self.transform_module(module, rs);
                assert((self@, out@) == transform(old(self)@, module@, rv));
                Ok(out)
            },
            Err(e) => Err(e),
        }
    }

    /// The rewriting of a node outside of a module's top level: `__moduleName`,
    /// `import()`, `import.meta`, `this` outside of function declarations,
    /// `await` outside of `async` function declarations, and assignments and
    /// updates of exported bindings (see [`fold`]).
    pub fn fold_node(&mut self, n: Node) -> (r: Node)
        ensures
            (final(self)@.flags, r@) == fold(state_env(old(self)@), old(self)@.flags, n@),
            final(self)@ == (SState { flags: final(self)@.flags, ..old(self)@ }),
            final(self).has_resolver() == old(self).has_resolver(),
            final(self).resolver_spec() == old(self).resolver_spec(),
    {
        let mut fl = self.flags;
        let ctx = FoldCtx {
            root_mark: self.root_mark,
            allow_top_level_this: self.config.allow_top_level_this,
            export_map: &self.collected.export_map,
        };
        let r = crate::fold::fold_node(&ctx, &mut fl, n);
        self.flags = fl;
        r
    }
}

} // verus!

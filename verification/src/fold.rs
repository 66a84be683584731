//! The rewriting of expressions, functions and properties: `__moduleName`,
//! `import()`, `import.meta`, top-level `this`, top-level `await`, and the
//! re-export of assignments and updates to exported bindings.
use vstd::prelude::*;
use crate::ast::{
    Kind, MetaPropKind, Node, SNode, Span, as_arg, bin, call, dummy_sp, dummy_span,
    is_pat_kind, key_value, lemma_nodes_view, lemma_nodes_view_push, member, new_as_arg,
    new_call, new_quote_ident, new_str_lit, node_view, nodes_view, num_lit, quote_ident,
    seq_expr, str_lit, undefined_expr, vec1, vec2, vec3, with_children, with_kind, kind_is_pat,
    new_member, new_seq_expr, new_undefined_expr, new_key_value, clone_node, new_bin, new_text,
    lemma_nodes_view_add,
};
use crate::export_map::{ExportMap, strings_view};
use crate::symbol::ExportKey;

verus! {

/// The state that the rewriting of expressions threads through the tree.
#[derive(Debug, PartialEq, Eq, Structural, Clone, Copy)]
pub struct Flags {
    /// A top-level `await` was seen.
    pub tla: bool,
    /// Inside an `async` function declaration.
    pub enter_async_fn: bool,
    /// Inside a function declaration.
    pub enter_fn: bool,
}

/// What the rewriting of expressions reads.
pub struct SEnv {
    /// The mark of the module's top-level syntax context.
    pub root_mark: u32,
    /// Whether a top-level `this` is kept.
    pub allow_top_level_this: bool,
    /// The export names of each exported binding.
    pub export_map: Map<(Seq<char>, Option<u32>), Seq<Seq<char>>>,
}

/// The executable counterpart of [`SEnv`].
pub struct FoldCtx<'a> {
    pub root_mark: u32,
    pub allow_top_level_this: bool,
    pub export_map: &'a ExportMap,
}

impl<'a> FoldCtx<'a> {
    pub open spec fn env(&self) -> SEnv {
        SEnv {
            root_mark: self.root_mark,
            allow_top_level_this: self.allow_top_level_this,
            export_map: self.export_map.spec_map(),
        }
    }
}

/// `_context`.
pub open spec fn context_ident() -> SNode {
    quote_ident(Kind::ExprIdent, "_context"@)
}

/// `_export`.
pub open spec fn export_ident() -> SNode {
    quote_ident(Kind::ExprIdent, "_export"@)
}

/// `_export("name", arg)`.
pub open spec fn export_call(name: Seq<char>, span: Span, arg: SNode) -> SNode {
    call(span, export_ident(), seq![as_arg(str_lit(name)), arg])
}

/// `e` wrapped in one `_export(name, ..)` call for each of `names`, the first
/// name innermost.
pub open spec fn nest_export_calls(names: Seq<Seq<char>>, e: SNode) -> SNode
    decreases names.len(),
{
    if names.len() == 0 {
        e
    } else {
        export_call(names.last(), dummy_sp(), as_arg(nest_export_calls(names.drop_last(), e)))
    }
}

/// The export key of an identifier node.
pub open spec fn ident_key(n: SNode) -> (Seq<char>, Option<u32>) {
    (n.sym, Some(n.span.ctxt))
}

/// `e` wrapped in the export calls of `key`, where it is exported.
pub open spec fn export_wrapped(
    m: Map<(Seq<char>, Option<u32>), Seq<Seq<char>>>,
    key: (Seq<char>, Option<u32>),
    e: SNode,
) -> SNode {
    if m.dom().contains(key) {
        nest_export_calls(m[key], e)
    } else {
        e
    }
}

/// An identifier bound by a pattern: its name, syntax context and mark.
pub type SBinding = (Seq<char>, u32, u32);

/// The identifiers that a pattern binds, in source order: identifiers of the
/// pattern itself, not those inside default values or computed keys.
pub open spec fn bindings(p: SNode) -> Seq<SBinding>
    decreases p, 1int,
{
    match p.kind {
        Kind::BindingIdent | Kind::Ident => seq![(p.sym, p.span.ctxt, p.mark)],
        Kind::KeyValuePatProp => if p.children.len() == 2 {
            bindings(p.children[1])
        } else {
            Seq::empty()
        },
        Kind::AssignPatProp | Kind::AssignPat => if p.children.len() >= 1 {
            bindings(p.children[0])
        } else {
            Seq::empty()
        },
        Kind::ArrayPat | Kind::ObjectPat | Kind::RestPat | Kind::List => bindings_list(p.children),
        _ => Seq::empty(),
    }
}

pub open spec fn bindings_list(s: Seq<SNode>) -> Seq<SBinding>
    decreases s, 0int,
{
    if s.len() == 0 {
        Seq::empty()
    } else {
        bindings_list(s.drop_last()) + bindings(s.last())
    }
}

/// The identifier expression of a binding, with a span that only keeps the
/// syntax context.
pub open spec fn binding_expr(b: SBinding) -> SNode {
    SNode {
        kind: Kind::ExprIdent,
        sym: b.0,
        raw: None,
        span: Span { lo: 0, hi: 0, ctxt: b.1 },
        mark: b.2,
        bits: 0,
        children: Seq::empty(),
    }
}

/// For each binding that is exported, one `_export("name", name)` call per
/// export name of the binding (the call names the local binding).
pub open spec fn binding_export_calls(
    m: Map<(Seq<char>, Option<u32>), Seq<Seq<char>>>,
    bs: Seq<SBinding>,
) -> Seq<SNode>
    decreases bs.len(),
{
    if bs.len() == 0 {
        Seq::empty()
    } else {
        let b = bs.last();
        let key = (b.0, Some(b.1));
        binding_export_calls(m, bs.drop_last()) + if m.dom().contains(key) {
            Seq::new(m[key].len(), |_i: int| export_call(b.0, dummy_sp(), as_arg(binding_expr(b))))
        } else {
            Seq::empty()
        }
    }
}

/// An assignment with the export calls its target asks for.
pub open spec fn replace_assign(env: SEnv, a: SNode) -> SNode {
    if a.children.len() != 2 {
        a
    } else {
        let left = a.children[0];
        if is_pat_kind(left.kind) {
            match left.kind {
                Kind::BindingIdent => export_wrapped(env.export_map, ident_key(left), a),
                Kind::ObjectPat | Kind::ArrayPat => seq_expr(
                    seq![a] + binding_export_calls(env.export_map, bindings(left)),
                ),
                _ => a,
            }
        } else if left.kind == Kind::ExprIdent {
            export_wrapped(env.export_map, ident_key(left), a)
        } else {
            a
        }
    }
}

/// `op arg`.
pub open spec fn unary(op: Seq<char>, arg: SNode) -> SNode {
    SNode { kind: Kind::UnaryExpr, sym: op, raw: None, span: dummy_sp(), mark: 0, bits: 0, children: seq![arg] }
}

/// A postfix update of an exported binding becomes
/// `(_export("name", +x + 1), x++)`.
pub open spec fn replace_update(env: SEnv, u: SNode) -> SNode {
    match u.kind {
        Kind::UpdateExpr { prefix } => if !prefix && u.children.len() == 1 && u.children[0].kind
            == Kind::ExprIdent && env.export_map.dom().contains(ident_key(u.children[0])) {
            let arg = u.children[0];
            seq_expr(
                seq![
                    nest_export_calls(
                        env.export_map[ident_key(arg)],
                        bin("+"@, unary("+"@, arg), num_lit("1"@, dummy_sp())),
                    ),
                    u,
                ],
            )
        } else {
            u
        },
        _ => u,
    }
}

/// `__moduleName` of the module's own context becomes `_context.id`.
pub open spec fn module_name_ident(env: SEnv, id: SNode) -> SNode {
    if id.sym == "__moduleName"@ && id.mark == env.root_mark {
        member(context_ident(), "id"@)
    } else {
        id
    }
}

/// The rewriting of a node of the tree (see the module documentation).
pub open spec fn fold(env: SEnv, fl: Flags, n: SNode) -> (Flags, SNode)
    decreases n, 1int,
{
    match n.kind {
        Kind::ExprIdent => (fl, module_name_ident(env, n)),
        Kind::AssignExpr => if n.children.len() == 2 {
            let (fl1, left) = fold(env, fl, n.children[0]);
            let r = n.children[1];
            let (fl2, right) = if r.kind == Kind::ExprIdent {
                (fl1, module_name_ident(env, r))
            } else {
                fold(env, fl1, r)
            };
            (fl2, replace_assign(env, with_children(n, seq![left, right])))
        } else {
            fold_children(env, fl, n)
        },
        Kind::UpdateExpr { .. } => (fl, replace_update(env, n)),
        Kind::CallExpr => if n.children.len() == 3 {
            let (fl1, args) = fold(env, fl, n.children[1]);
            let callee = if n.children[0].kind == Kind::Import {
                member(context_ident(), "import"@)
            } else {
                n.children[0]
            };
            (fl1, with_children(n, seq![callee, args, n.children[2]]))
        } else {
            fold_children(env, fl, n)
        },
        Kind::MetaPropExpr { meta_kind } => match meta_kind {
            MetaPropKind::ImportMeta => (fl, member(context_ident(), "meta"@)),
            MetaPropKind::NewTarget => (fl, n),
        },
        Kind::AwaitExpr => if !fl.enter_async_fn {
            (Flags { tla: true, ..fl }, n)
        } else {
            (fl, n)
        },
        Kind::ThisExpr => if !env.allow_top_level_this && !fl.enter_fn {
            (fl, undefined_expr(dummy_sp()))
        } else {
            (fl, n)
        },
        Kind::FnDecl => if n.children.len() == 2 {
            match n.children[1].kind {
                Kind::Function { is_async } => {
                    let fl1 = Flags {
                        enter_async_fn: if is_async { true } else { fl.enter_async_fn },
                        enter_fn: true,
                        ..fl
                    };
                    let (fl2, n2) = fold_children(env, fl1, n);
                    let fl3 = Flags {
                        enter_async_fn: if is_async { false } else { fl2.enter_async_fn },
                        enter_fn: false,
                        ..fl2
                    };
                    (fl3, n2)
                },
                _ => fold_children(env, fl, n),
            }
        } else {
            fold_children(env, fl, n)
        },
        Kind::PropShorthand => (
            fl,
            key_value(with_kind(n, Kind::Ident), module_name_ident(env, with_kind(n, Kind::ExprIdent))),
        ),
        Kind::KeyValueProp => if n.children.len() == 2 {
            let v = n.children[1];
            (
                fl,
                with_children(
                    n,
                    seq![n.children[0], if v.kind == Kind::ExprIdent { module_name_ident(env, v) } else { v }],
                ),
            )
        } else {
            (fl, n)
        },
        Kind::AssignProp | Kind::GetterProp | Kind::SetterProp | Kind::MethodProp | Kind::Opaque
        | Kind::OpaqueModuleDecl => (fl, n),
        _ => fold_children(env, fl, n),
    }
}

/// The rewriting of each child of `n`, in order.
pub open spec fn fold_children(env: SEnv, fl: Flags, n: SNode) -> (Flags, SNode)
    decreases n, 0int,
{
    let (fl1, cs) = fold_list(env, fl, n.children);
    (fl1, with_children(n, cs))
}

pub open spec fn fold_list(env: SEnv, fl: Flags, s: Seq<SNode>) -> (Flags, Seq<SNode>)
    decreases s, 2int,
{
    if s.len() == 0 {
        (fl, Seq::empty())
    } else {
        let (fl1, r1) = fold_list(env, fl, s.drop_last());
        let (fl2, x) = fold(env, fl1, s.last());
        (fl2, r1.push(x))
    }
}

// ---------------------------------------------------------------------------
// Executable code
// ---------------------------------------------------------------------------

/// An identifier bound by a pattern.
pub struct Binding {
    pub sym: String,
    pub ctxt: u32,
    pub mark: u32,
}

impl View for Binding {
    type V = SBinding;

    open spec fn view(&self) -> SBinding {
        (self.sym@, self.ctxt, self.mark)
    }
}

pub open spec fn bindings_view(v: Seq<Binding>) -> Seq<SBinding> {
    v.map_values(|b: Binding| b@)
}

/// The identifiers that the pattern `p` binds (see [`bindings`]).
pub fn collect_bindings(p: &Node) -> (r: Vec<Binding>)
    ensures
        bindings_view(r@) == bindings(p@),
    decreases p, 1int,
{
    match p.kind {
        Kind::BindingIdent | Kind::Ident => {
            let mut v = Vec::new();
            v.push(Binding { sym: p.sym.clone(), ctxt: p.span.ctxt, mark: p.mark });
            assert(bindings_view(v@) =~= bindings(p@));
            v
        },
        Kind::KeyValuePatProp => {
            proof {
                lemma_nodes_view(p.children@);
            }
            if p.children.len() == 2 {
                assert(decreases_to!(p => p.children@[1])) by {
                    assert(decreases_to!(p => p.children));
                    assert(decreases_to!(p.children => p.children@));
                }
                collect_bindings(&p.children[1])
            } else {
                let v = Vec::new();
                assert(bindings_view(v@) =~= bindings(p@));
                v
            }
        },
        Kind::AssignPatProp | Kind::AssignPat => {
            proof {
                lemma_nodes_view(p.children@);
            }
            if p.children.len() >= 1 {
                assert(decreases_to!(p => p.children@[0])) by {
                    assert(decreases_to!(p => p.children));
                    assert(decreases_to!(p.children => p.children@));
                }
                collect_bindings(&p.children[0])
            } else {
                let v = Vec::new();
                assert(bindings_view(v@) =~= bindings(p@));
                v
            }
        },
        Kind::ArrayPat | Kind::ObjectPat | Kind::RestPat | Kind::List => collect_bindings_children(p),
        _ => {
            let v = Vec::new();
            assert(bindings_view(v@) =~= bindings(p@));
            v
        },
    }
}

fn collect_bindings_children(p: &Node) -> (r: Vec<Binding>)
    ensures
        bindings_view(r@) == bindings_list(p@.children),
    decreases p, 0int,
{
    let ghost cv = nodes_view(p.children@);
    let mut out: Vec<Binding> = Vec::new();
    let n = p.children.len();
    let mut i: usize = 0;
    proof {
        lemma_nodes_view(p.children@);
        assert(bindings_view(out@) =~= bindings_list(cv.take(0)));
    }
    while i < n
        invariant
            i <= n,
            n == p.children@.len(),
            cv == nodes_view(p.children@),
            cv.len() == n,
            forall|j: int| 0 <= j < n ==> #[trigger] cv[j] == node_view(p.children@[j]),
            bindings_view(out@) == bindings_list(cv.take(i as int)),
        decreases n - i,
    {
        assert(decreases_to!(p => p.children@[i as int])) by {
            assert(decreases_to!(p => p.children));
            assert(decreases_to!(p.children => p.children@));
        }
        let mut bs = collect_bindings(&p.children[i]);
        let ghost out0 = out@;
        let ghost bs0 = bs@;
        out.append(&mut bs);
        proof {
            assert(cv.take(i + 1).drop_last() =~= cv.take(i as int));
            assert(bindings_view(out@) =~= bindings_view(out0) + bindings_view(bs0));
        }
        i = i + 1;
    }
    proof {
        assert(cv.take(n as int) =~= cv);
    }
    out
}

/// `_export("name", arg)`.
pub fn new_export_call(name: String, span: Span, arg: Node) -> (r: Node)
    ensures
        r@ == export_call(name@, span, arg@),
{
    let callee = new_quote_ident(Kind::ExprIdent, "_export");
    let first = new_as_arg(new_str_lit(name));
    new_call(span, callee, vec2(first, arg))
}

/// `e` wrapped in one export call per name (see [`nest_export_calls`]).
pub fn new_nested_export_calls(names: &Vec<String>, e: Node) -> (r: Node)
    ensures
        r@ == nest_export_calls(strings_view(names@), e@),
{
    let ghost sv = strings_view(names@);
    let ghost e0 = e@;
    let mut acc = e;
    let n = names.len();
    let mut i: usize = 0;
    proof {
        assert(sv.take(0) =~= Seq::<Seq<char>>::empty());
    }
    while i < n
        invariant
            i <= n,
            n == names@.len(),
            sv == strings_view(names@),
            acc@ == nest_export_calls(sv.take(i as int), e0),
        decreases n - i,
    {
        let name = names[i].clone();
        acc = new_export_call(name, dummy_span(), new_as_arg(acc));
        proof {
            assert(sv.take(i + 1).drop_last() =~= sv.take(i as int));
        }
        i = i + 1;
    }
    proof {
        assert(sv.take(n as int) =~= sv);
    }
    acc
}

/// The identifier expression of a binding (see [`binding_expr`]).
pub fn new_binding_expr(b: &Binding) -> (r: Node)
    ensures
        r@ == binding_expr(b@),
{
    let r = Node {
        kind: Kind::ExprIdent,
        sym: b.sym.clone(),
        raw: None,
        span: Span { lo: 0, hi: 0, ctxt: b.ctxt },
        mark: b.mark,
        bits: 0,
        children: Vec::new(),
    };
    assert(r@ =~= binding_expr(b@));
    r
}

/// The export calls of the exported bindings among `bs` (see [`binding_export_calls`]).
pub fn new_binding_export_calls(map: &ExportMap, bs: &Vec<Binding>) -> (r: Vec<Node>)
    ensures
        nodes_view(r@) == binding_export_calls(map.spec_map(), bindings_view(bs@)),
{
    let ghost bv = bindings_view(bs@);
    let ghost m = map.spec_map();
    let mut out: Vec<Node> = Vec::new();
    let n = bs.len();
    let mut i: usize = 0;
    proof {
        assert(bv.take(0) =~= Seq::<SBinding>::empty());
    }
    while i < n
        invariant
            i <= n,
            n == bs@.len(),
            bv == bindings_view(bs@),
            m == map.spec_map(),
            nodes_view(out@) == binding_export_calls(m, bv.take(i as int)),
        decreases n - i,
    {
        let b = &bs[i];
        let key = ExportKey { sym: b.sym.clone(), ctxt: Some(b.ctxt) };
        let ghost before = nodes_view(out@);
        proof {
            assert(bv.take(i + 1).drop_last() =~= bv.take(i as int));
            assert(bv.take(i + 1).last() == b@);
        }
        match map.get(&key) {
            Some(names) => {
                let k = names.len();
                let mut j: usize = 0;
                let ghost call = export_call(b@.0, dummy_sp(), as_arg(binding_expr(b@)));
                while j < k
                    invariant
                        j <= k,
                        k == names@.len(),
                        nodes_view(out@) == before + Seq::new(j as nat, |_i: int| call),
                        call == export_call(b@.0, dummy_sp(), as_arg(binding_expr(b@))),
                    decreases k - j,
                {
                    let c = new_export_call(b.sym.clone(), dummy_span(), new_as_arg(new_binding_expr(b)));
                    let ghost o0 = out@;
                    out.push(c);
                    proof {
                        lemma_nodes_view_push(o0, c);
                        assert(nodes_view(out@) =~= before + Seq::new((j + 1) as nat, |_i: int| call));
                    }
                    j = j + 1;
                }
                proof {
                    assert(strings_view(names@).len() == names@.len());
                }
            },
            None => {
                assert(nodes_view(out@) =~= before + Seq::<SNode>::empty());
            },
        }
        i = i + 1;
    }
    proof {
        assert(bv.take(n as int) =~= bv);
    }
    out
}

/// The key of an identifier node.
fn ident_key_of(n: &Node) -> (r: ExportKey)
    ensures
        r@ == ident_key(n@),
{
    ExportKey { sym: n.sym.clone(), ctxt: Some(n.span.ctxt) }
}

/// `e` wrapped in the export calls of `key` (see [`export_wrapped`]).
pub fn new_export_wrapped(map: &ExportMap, key: &ExportKey, e: Node) -> (r: Node)
    ensures
        r@ == export_wrapped(map.spec_map(), key@, e@),
{
    match map.get(key) {
        Some(names) => new_nested_export_calls(names, e),
        None => e,
    }
}

/// An assignment with the export calls its target asks for (see [`replace_assign`]).
pub fn replace_assign_expr(ctx: &FoldCtx, a: Node) -> (r: Node)
    ensures
        r@ == replace_assign(ctx.env(), a@),
{
    proof {
        lemma_nodes_view(a.children@);
    }
    if a.children.len() != 2 {
        return a;
    }
    let lk = a.children[0].kind;
    if kind_is_pat(lk) {
        match lk {
            Kind::BindingIdent => {
                let key = ident_key_of(&a.children[0]);
                new_export_wrapped(ctx.export_map, &key, a)
            },
            Kind::ObjectPat | Kind::ArrayPat => {
                let bs = collect_bindings(&a.children[0]);
                let mut calls = new_binding_export_calls(ctx.export_map, &bs);
                let ghost av = a@;
                let mut exprs = vec1(a);
                let ghost e0 = exprs@;
                let ghost c0 = calls@;
                exprs.append(&mut calls);
                proof {
                    assert(exprs@ =~= e0 + c0);
                    lemma_nodes_view_add(e0, c0);
                }
                new_seq_expr(exprs)
            },
            _ => a,
        }
    } else if lk == Kind::ExprIdent {
        let key = ident_key_of(&a.children[0]);
        new_export_wrapped(ctx.export_map, &key, a)
    } else {
        a
    }
}

/// `op arg`.
pub fn new_unary(op: &str, arg: Node) -> (r: Node)
    ensures
        r@ == unary(op@, arg@),
{
    Node { kind: Kind::UnaryExpr, sym: op.to_string(), raw: None, span: dummy_span(), mark: 0, bits: 0, children: vec1(arg) }
}

/// A postfix update with the export calls its target asks for (see [`replace_update`]).
pub fn replace_update_expr(ctx: &FoldCtx, u: Node) -> (r: Node)
    ensures
        r@ == replace_update(ctx.env(), u@),
{
    proof {
        lemma_nodes_view(u.children@);
    }
    match u.kind {
        Kind::UpdateExpr { prefix } => {
            if !prefix && u.children.len() == 1 && u.children[0].kind == Kind::ExprIdent {
                let key = ident_key_of(&u.children[0]);
                match ctx.export_map.get(&key) {
                    Some(names) => {
                        let arg = clone_node(&u.children[0]);
                        let one = new_text(Kind::Number, "1".to_string(), dummy_span());
                        let plus = new_bin("+", new_unary("+", arg), one);
                        let nested = new_nested_export_calls(names, plus);
                        new_seq_expr(vec2(nested, u))
                    },
                    None => u,
                }
            } else {
                u
            }
        },
        _ => u,
    }
}

/// `__moduleName` of the module's own context becomes `_context.id` (see
/// [`module_name_ident`]).
pub fn fold_module_name_ident(ctx: &FoldCtx, id: Node) -> (r: Node)
    ensures
        r@ == module_name_ident(ctx.env(), id@),
{
    let name = "__moduleName".to_string();
    if id.sym == name && id.mark == ctx.root_mark {
        new_member(new_quote_ident(Kind::ExprIdent, "_context"), "id")
    } else {
        id
    }
}

/// The rewriting of a node (see [`fold`]).
pub fn fold_node(ctx: &FoldCtx, fl: &mut Flags, n: Node) -> (r: Node)
    ensures
        (*final(fl), r@) == fold(ctx.env(), *old(fl), n@),
    decreases n, 1int,
{
    let ghost n0 = n;
    proof {
        lemma_nodes_view(n.children@);
    }
    match n.kind {
        Kind::ExprIdent => fold_module_name_ident(ctx, n),
        Kind::AssignExpr => {
            if n.children.len() == 2 {
                let Node { kind, sym, raw, span, mark, bits, children } = n;
                let mut kids = children;
                let r = kids.pop().unwrap();
                let l = kids.pop().unwrap();
                assert(l == n0.children@[0] && r == n0.children@[1]);
                assert(decreases_to!(n0 => l) && decreases_to!(n0 => r)) by {
                    assert(decreases_to!(n0 => n0.children));
                    assert(decreases_to!(n0.children => n0.children@));
                }
                let left = fold_node(ctx, fl, l);
                let right = if r.kind == Kind::ExprIdent {
                    fold_module_name_ident(ctx, r)
                } else {
                    fold_node(ctx, fl, r)
                };
                let a = Node { kind, sym, raw, span, mark, bits, children: vec2(left, right) };
                replace_assign_expr(ctx, a)
            } else {
                fold_node_children(ctx, fl, n)
            }
        },
        Kind::UpdateExpr { .. } => replace_update_expr(ctx, n),
        Kind::CallExpr => {
            if n.children.len() == 3 {
                let Node { kind, sym, raw, span, mark, bits, children } = n;
                let mut kids = children;
                let ta = kids.pop().unwrap();
                let args = kids.pop().unwrap();
                let callee = kids.pop().unwrap();
                assert(args == n0.children@[1]);
                assert(decreases_to!(n0 => args)) by {
                    assert(decreases_to!(n0 => n0.children));
                    assert(decreases_to!(n0.children => n0.children@));
                }
                let args2 = fold_node(ctx, fl, args);
                let callee2 = if callee.kind == Kind::Import {
                    new_member(new_quote_ident(Kind::ExprIdent, "_context"), "import")
                } else {
                    callee
                };
                Node { kind, sym, raw, span, mark, bits, children: vec3(callee2, args2, ta) }
            } else {
                fold_node_children(ctx, fl, n)
            }
        },
        Kind::MetaPropExpr { meta_kind } => match meta_kind {
            MetaPropKind::ImportMeta => new_member(new_quote_ident(Kind::ExprIdent, "_context"), "meta"),
            MetaPropKind::NewTarget => n,
        },
        Kind::AwaitExpr => {
            if !fl.enter_async_fn {
                fl.tla = true;
            }
            n
        },
        Kind::ThisExpr => {
            if !ctx.allow_top_level_this && !fl.enter_fn {
                new_undefined_expr(dummy_span())
            } else {
                n
            }
        },
        Kind::FnDecl => {
            let is_async = if n.children.len() == 2 {
                match n.children[1].kind {
                    Kind::Function { is_async } => Some(is_async),
                    _ => None,
                }
            } else {
                None
            };
            match is_async {
                Some(a) => {
                    if a {
                        fl.enter_async_fn = true;
                    }
                    fl.enter_fn = true;
                    let r = fold_node_children(ctx, fl, n);
                    if a {
                        fl.enter_async_fn = false;
                    }
                    fl.enter_fn = false;
                    r
                },
                None => fold_node_children(ctx, fl, n),
            }
        },
        Kind::PropShorthand => {
            let mut key = clone_node(&n);
            key.kind = Kind::Ident;
            let mut value = n;
            value.kind = Kind::ExprIdent;
            let v = fold_module_name_ident(ctx, value);
            new_key_value(key, v)
        },
        Kind::KeyValueProp => {
            if n.children.len() == 2 {
                let Node { kind, sym, raw, span, mark, bits, children } = n;
                let mut kids = children;
                let v = kids.pop().unwrap();
                let k = kids.pop().unwrap();
                let v2 = if v.kind == Kind::ExprIdent {
                    fold_module_name_ident(ctx, v)
                } else {
                    v
                };
                Node { kind, sym, raw, span, mark, bits, children: vec2(k, v2) }
            } else {
                n
            }
        },
        Kind::AssignProp | Kind::GetterProp | Kind::SetterProp | Kind::MethodProp | Kind::Opaque
        | Kind::OpaqueModuleDecl => n,
        _ => fold_node_children(ctx, fl, n),
    }
}

/// The rewriting of each child of a node, in order (see [`fold_children`]).
pub fn fold_node_children(ctx: &FoldCtx, fl: &mut Flags, n: Node) -> (r: Node)
    ensures
        (*final(fl), r@) == fold_children(ctx.env(), *old(fl), n@),
    decreases n, 0int,
{
    let ghost n0 = n;
    let Node { kind, sym, raw, span, mark, bits, children } = n;
    let mut kids = children;
    let ghost orig = kids@;
    let ghost cv = nodes_view(orig);
    let ghost f0 = *fl;
    let mut out: Vec<Node> = Vec::new();
    let len = kids.len();
    let mut i: usize = 0;
    proof {
        lemma_nodes_view(orig);
        assert(cv.take(0) =~= Seq::<SNode>::empty());
    }
    #[verifier::loop_isolation(false)]
    while i < len
        invariant
            len == orig.len(),
            i <= len,
            kids@ == orig.skip(i as int),
            orig == n0.children@,
            cv == nodes_view(orig),
            (*fl, nodes_view(out@)) == fold_list(ctx.env(), f0, cv.take(i as int)),
            cv.len() == orig.len(),
            forall|j: int| 0 <= j < orig.len() ==> #[trigger] cv[j] == node_view(orig[j]),
        decreases len - i,
    {
        let c = kids.remove(0);
        assert(c == orig[i as int]);
        assert(decreases_to!(n0 => c)) by {
            assert(decreases_to!(n0 => n0.children));
            assert(decreases_to!(n0.children => n0.children@));
        }
        let ghost out0 = out@;
        let r = fold_node(ctx, fl, c);
        out.push(r);
        proof {
            lemma_nodes_view_push(out0, r);
            assert(cv.take(i + 1).drop_last() =~= cv.take(i as int));
        }
        i = i + 1;
        proof {
            assert(kids@ =~= orig.skip(i as int));
        }
    }
    proof {
        assert(cv.take(len as int) =~= cv);
    }
    Node { kind, sym, raw, span, mark, bits, children: out }
}

} // verus!

//! The hoisting of top-level variable declarations: each declared name is
//! declared once at the top of the module's function, a declarator with an
//! initializer becomes an assignment, and an exported name without an
//! initializer is exported as `void 0`.
use vstd::prelude::*;
use crate::ast::{
    Kind, Node, SNode, Span, VarDeclKind, absent, assign, dummy_sp, dummy_span, expr_stmt, mk,
    lemma_nodes_view, lemma_nodes_view_push, new_absent, new_assign, new_expr_stmt, new_node,
    new_seq_expr, new_undefined_expr, node_view, nodes_view, seq_expr, undefined_expr,
    with_children, };
use crate::export_map::{ExportMap, strings_view};
use crate::fold::{Binding, SBinding, bindings, bindings_view, collect_bindings};
use crate::symbol::ExportKey;

verus! {

/// The export names and values, and the declared identifiers, collected so far.
pub struct HoistAcc {
    pub exports: Seq<(Seq<char>, SNode)>,
    pub declares: Seq<SNode>,
}

pub open spec fn exports_view(v: Seq<(String, Node)>) -> Seq<(Seq<char>, SNode)> {
    v.map_values(|p: (String, Node)| (p.0@, p.1@))
}

/// The declared identifier of a binding: its name with a span that only keeps
/// the syntax context.
pub open spec fn declared_ident(b: SBinding) -> SNode {
    SNode {
        kind: Kind::Ident,
        sym: b.0,
        raw: None,
        span: Span { lo: 0, hi: 0, ctxt: b.1 },
        mark: b.2,
        bits: 0,
        children: Seq::empty(),
    }
}

/// `(name, void 0)` for each export name.
pub open spec fn undefined_exports(names: Seq<Seq<char>>) -> Seq<(Seq<char>, SNode)> {
    names.map_values(|v: Seq<char>| (v, undefined_expr(dummy_sp())))
}

/// Declares the binding `b`; a binding without an initializer that is
/// exported is first exported as `void 0` under each of its export names.
pub open spec fn hoist_binding(
    m: Map<(Seq<char>, Option<u32>), Seq<Seq<char>>>,
    acc: HoistAcc,
    b: SBinding,
    has_init: bool,
) -> HoistAcc {
    let key = (b.0, Some(b.1));
    HoistAcc {
        exports: if !has_init && m.dom().contains(key) {
            acc.exports + undefined_exports(m[key])
        } else {
            acc.exports
        },
        declares: acc.declares.push(declared_ident(b)),
    }
}

pub open spec fn hoist_bindings(
    m: Map<(Seq<char>, Option<u32>), Seq<Seq<char>>>,
    acc: HoistAcc,
    bs: Seq<SBinding>,
    has_init: bool,
) -> HoistAcc
    decreases bs.len(),
{
    if bs.len() == 0 {
        acc
    } else {
        hoist_binding(m, hoist_bindings(m, acc, bs.drop_last(), has_init), bs.last(), has_init)
    }
}

/// The pattern of a declarator.
pub open spec fn declarator_name(d: SNode) -> SNode {
    if d.children.len() >= 1 {
        d.children[0]
    } else {
        absent()
    }
}

/// The initializer of a declarator (`Absent` where it has none).
pub open spec fn declarator_init(d: SNode) -> SNode {
    if d.children.len() >= 2 {
        d.children[1]
    } else {
        absent()
    }
}

/// The declarators of a variable declaration.
pub open spec fn decls_of(vd: SNode) -> Seq<SNode> {
    if vd.children.len() >= 1 {
        vd.children[0].children
    } else {
        Seq::empty()
    }
}

/// Hoists one declarator: its bindings are declared, and an initializer
/// becomes the assignment `name = init`.
pub open spec fn hoist_declarator(
    m: Map<(Seq<char>, Option<u32>), Seq<Seq<char>>>,
    acc: HoistAcc,
    d: SNode,
) -> (HoistAcc, Option<SNode>) {
    let name = declarator_name(d);
    let init = declarator_init(d);
    let has_init = init.kind != Kind::Absent;
    (
        hoist_bindings(m, acc, bindings(name), has_init),
        if has_init {
            Some(assign(dummy_sp(), name, init))
        } else {
            None
        },
    )
}

/// Hoists a list of declarators; the result holds the assignments of those
/// with an initializer.
pub open spec fn hoist_declarators(
    m: Map<(Seq<char>, Option<u32>), Seq<Seq<char>>>,
    acc: HoistAcc,
    ds: Seq<SNode>,
) -> (HoistAcc, Seq<SNode>)
    decreases ds.len(),
{
    if ds.len() == 0 {
        (acc, Seq::empty())
    } else {
        let (acc1, es) = hoist_declarators(m, acc, ds.drop_last());
        let (acc2, e) = hoist_declarator(m, acc1, ds.last());
        (
            acc2,
            match e {
                Some(x) => es.push(x),
                None => es,
            },
        )
    }
}

/// Hoists a variable declaration: the sequence of its assignments, or `None`
/// where no declarator has an initializer.
pub open spec fn hoist_var_decl(
    m: Map<(Seq<char>, Option<u32>), Seq<Seq<char>>>,
    acc: HoistAcc,
    vd: SNode,
) -> (HoistAcc, Option<SNode>) {
    let (acc1, es) = hoist_declarators(m, acc, decls_of(vd));
    (
        acc1,
        if es.len() == 0 {
            None
        } else {
            Some(seq_expr(es))
        },
    )
}

/// The head of a `for .. in`/`for .. of` loop that the transform rejects: a
/// `var` declaration without declarators.
pub open spec fn empty_var_head(left: SNode) -> bool {
    left.kind == (Kind::VarDecl { var_kind: VarDeclKind::Var }) && decls_of(left).len() == 0
}

/// Hoists the head of a `for .. in`/`for .. of` loop: a `var` declaration
/// becomes the pattern of its first declarator, whose bindings are declared.
pub open spec fn hoist_for_var_decl(
    m: Map<(Seq<char>, Option<u32>), Seq<Seq<char>>>,
    acc: HoistAcc,
    left: SNode,
) -> (HoistAcc, SNode) {
    if left.kind == (Kind::VarDecl { var_kind: VarDeclKind::Var }) && decls_of(left).len() > 0 {
        let d = decls_of(left)[0];
        let name = declarator_name(d);
        (hoist_bindings(m, acc, bindings(name), declarator_init(d).kind != Kind::Absent), name)
    } else {
        (acc, left)
    }
}

/// The statements whose hoisting the transform rejects (see [`empty_var_head`]).
pub open spec fn hoist_rejects(s: SNode) -> bool {
    match s.kind {
        Kind::ForInStmt => s.children.len() == 3 && empty_var_head(s.children[0]),
        Kind::ForOfStmt => s.children.len() == 4 && empty_var_head(s.children[1]),
        _ => false,
    }
}

/// Hoists the variables of a top-level statement.
pub open spec fn hoist_stmt(
    m: Map<(Seq<char>, Option<u32>), Seq<Seq<char>>>,
    acc: HoistAcc,
    s: SNode,
) -> (HoistAcc, SNode) {
    match s.kind {
        Kind::VarDecl { .. } => {
            let (acc1, e) = hoist_var_decl(m, acc, s);
            (
                acc1,
                match e {
                    Some(x) => expr_stmt(x),
                    None => mk(Kind::EmptyStmt, dummy_sp(), Seq::empty()),
                },
            )
        },
        Kind::ForStmt => if s.children.len() == 4 && s.children[0].kind == (Kind::VarDecl {
            var_kind: VarDeclKind::Var,
        }) {
            let (acc1, e) = hoist_var_decl(m, acc, s.children[0]);
            (
                acc1,
                with_children(
                    s,
                    s.children.update(
                        0,
                        match e {
                            Some(x) => x,
                            None => absent(),
                        },
                    ),
                ),
            )
        } else {
            (acc, s)
        },
        Kind::ForInStmt => if s.children.len() == 3 {
            let (acc1, left) = hoist_for_var_decl(m, acc, s.children[0]);
            (acc1, with_children(s, s.children.update(0, left)))
        } else {
            (acc, s)
        },
        Kind::ForOfStmt => if s.children.len() == 4 {
            let (acc1, left) = hoist_for_var_decl(m, acc, s.children[1]);
            (acc1, with_children(s, s.children.update(1, left)))
        } else {
            (acc, s)
        },
        _ => (acc, s),
    }
}

// ---------------------------------------------------------------------------
// Executable code
// ---------------------------------------------------------------------------

/// The identifier declared for a binding (see [`declared_ident`]).
pub fn new_declared_ident(b: &Binding) -> (r: Node)
    ensures
        r@ == declared_ident(b@),
{
    let r = Node {
        kind: Kind::Ident,
        sym: b.sym.clone(),
        raw: None,
        span: Span { lo: 0, hi: 0, ctxt: b.ctxt },
        mark: b.mark,
        bits: 0,
        children: Vec::new(),
    };
    assert(r@ =~= declared_ident(b@));
    r
}

/// Declares the bindings `bs` (see [`hoist_bindings`]).
pub fn hoist_binding_list(
    map: &ExportMap,
    exports: &mut Vec<(String, Node)>,
    declares: &mut Vec<Node>,
    bs: &Vec<Binding>,
    has_init: bool,
)
    ensures
        ({
            let acc = hoist_bindings(
                map.spec_map(),
                HoistAcc { exports: exports_view(old(exports)@), declares: nodes_view(old(declares)@) },
                bindings_view(bs@),
                has_init,
            );
            exports_view(final(exports)@) == acc.exports && nodes_view(final(declares)@) == acc.declares
        }),
{
    let ghost bv = bindings_view(bs@);
    let ghost m = map.spec_map();
    let ghost acc0 = HoistAcc { exports: exports_view(exports@), declares: nodes_view(declares@) };
    let n = bs.len();
    let mut i: usize = 0;
    proof {
        assert(bv.take(0) =~= Seq::<SBinding>::empty());
    }
    while i < n
        invariant
            i <= n,
            n == bs@.len(),
            bv == bindings_view(bs@),
            m == map.spec_map(),
            ({
                let acc = hoist_bindings(m, acc0, bv.take(i as int), has_init);
                exports_view(exports@) == acc.exports && nodes_view(declares@) == acc.declares
            }),
        decreases n - i,
    {
        let b = &bs[i];
        proof {
            assert(bv.take(i + 1).drop_last() =~= bv.take(i as int));
            assert(bv.take(i + 1).last() == b@);
        }
        let ghost e0 = exports_view(exports@);
        if !has_init {
            let key = ExportKey { sym: b.sym.clone(), ctxt: Some(b.ctxt) };
            match map.get(&key) {
                Some(names) => {
                    let k = names.len();
                    let mut j: usize = 0;
                    while j < k
                        invariant
                            j <= k,
                            k == names@.len(),
                            exports_view(exports@) == e0 + undefined_exports(strings_view(names@).take(j as int)),
                        decreases k - j,
                    {
                        let ghost x0 = exports@;
                        exports.push((names[j].clone(), new_undefined_expr(dummy_span())));
                        proof {
                            assert(exports_view(exports@) =~= exports_view(x0).push(
                                (names@[j as int]@, undefined_expr(dummy_sp())),
                            ));
                            assert(strings_view(names@).take(j + 1) =~= strings_view(names@).take(j as int).push(names@[j as int]@));
                            assert(exports_view(exports@) =~= e0 + undefined_exports(strings_view(names@).take(j + 1)));
                        }
                        j = j + 1;
                    }
                    proof {
                        assert(strings_view(names@).take(k as int) =~= strings_view(names@));
                    }
                },
                None => {},
            }
        }
        let ghost d0 = declares@;
        let d = new_declared_ident(b);
        declares.push(d);
        proof {
            lemma_nodes_view_push(d0, d);
        }
        i = i + 1;
    }
    proof {
        assert(bv.take(n as int) =~= bv);
    }
}

/// Hoists a variable declaration (see [`hoist_var_decl`]).
pub fn hoist_var_decl_exec(
    map: &ExportMap,
    exports: &mut Vec<(String, Node)>,
    declares: &mut Vec<Node>,
    vd: Node,
) -> (r: Option<Node>)
    ensures
        ({
            let (acc, e) = hoist_var_decl(
                map.spec_map(),
                HoistAcc { exports: exports_view(old(exports)@), declares: nodes_view(old(declares)@) },
                vd@,
            );
            &&& exports_view(final(exports)@) == acc.exports
            &&& nodes_view(final(declares)@) == acc.declares
            &&& match r {
                Some(x) => e == Some(x@),
                None => e is None,
            }
        }),
{
    let ghost vdv = vd@;
    let ghost m = map.spec_map();
    let ghost acc0 = HoistAcc { exports: exports_view(exports@), declares: nodes_view(declares@) };
    proof {
        lemma_nodes_view(vd.children@);
    }
    let mut vkids = vd.children;
    let mut ds: Vec<Node> = if vkids.len() >= 1 {
        let l = vkids.remove(0);
        l.children
    } else {
        Vec::new()
    };
    let ghost dsv0 = nodes_view(ds@);
    let ghost ds0 = ds@;
    proof {
        assert(dsv0 == decls_of(vdv));
        lemma_nodes_view(ds0);
        assert(dsv0.take(0) =~= Seq::<SNode>::empty());
    }
    let mut exprs: Vec<Node> = Vec::new();
    let n = ds.len();
    let mut i: usize = 0;
    while i < n
        invariant
            i <= n,
            n == ds0.len(),
            ds@ == ds0.skip(i as int),
            dsv0 == nodes_view(ds0),
            dsv0.len() == ds0.len(),
            forall|j: int| 0 <= j < ds0.len() ==> #[trigger] dsv0[j] == node_view(ds0[j]),
            m == map.spec_map(),
            ({
                let (acc, es) = hoist_declarators(m, acc0, dsv0.take(i as int));
                &&& exports_view(exports@) == acc.exports
                &&& nodes_view(declares@) == acc.declares
                &&& nodes_view(exprs@) == es
            }),
        decreases n - i,
    {
        let d = ds.remove(0);
        assert(d == ds0[i as int]);
        proof {
            assert(dsv0.take(i + 1).drop_last() =~= dsv0.take(i as int));
            assert(dsv0.take(i + 1).last() == d@);
            lemma_nodes_view(d.children@);
        }
        let ghost dv = d@;
        let mut dkids = d.children;
        let name = if dkids.len() >= 1 { dkids.remove(0) } else { new_absent() };
        let init = if dkids.len() >= 1 { dkids.remove(0) } else { new_absent() };
        assert(name@ == declarator_name(dv));
        assert(init@ == declarator_init(dv));
        let has_init = init.kind != Kind::Absent;
        let bs = collect_bindings(&name);
        hoist_binding_list(map, exports, declares, &bs, has_init);
        if has_init {
            let ghost x0 = exprs@;
            let a = new_assign(dummy_span(), name, init);
            exprs.push(a);
            proof {
                lemma_nodes_view_push(x0, a);
            }
        }
        i = i + 1;
        proof {
            assert(ds@ =~= ds0.skip(i as int));
        }
    }
    proof {
        assert(dsv0.take(n as int) =~= dsv0);
        lemma_nodes_view(exprs@);
    }
    if exprs.len() == 0 {
        None
    } else {
        Some(new_seq_expr(exprs))
    }
}

/// Hoists the head of a `for .. in`/`for .. of` loop (see [`hoist_for_var_decl`]).
pub fn hoist_for_var_decl_exec(
    map: &ExportMap,
    exports: &mut Vec<(String, Node)>,
    declares: &mut Vec<Node>,
    left: Node,
) -> (r: Node)
    requires
        !empty_var_head(left@),
    ensures
        ({
            let (acc, l) = hoist_for_var_decl(
                map.spec_map(),
                HoistAcc { exports: exports_view(old(exports)@), declares: nodes_view(old(declares)@) },
                left@,
            );
            &&& exports_view(final(exports)@) == acc.exports
            &&& nodes_view(final(declares)@) == acc.declares
            &&& r@ == l
        }),
{
    proof {
        lemma_nodes_view(left.children@);
    }
    if left.kind == (Kind::VarDecl { var_kind: VarDeclKind::Var }) {
        let ghost lv = left@;
        let mut vkids = left.children;
        if vkids.len() == 0 {
            // unreachable by the precondition
            proof {
                assert(decls_of(lv).len() == 0);
            }
            return new_absent();
        }
        let l = vkids.remove(0);
        proof {
            lemma_nodes_view(l.children@);
        }
        let mut ds = l.children;
        let d = ds.remove(0);
        proof {
            lemma_nodes_view(d.children@);
        }
        let ghost dv = d@;
        let mut dkids = d.children;
        let name = if dkids.len() >= 1 { dkids.remove(0) } else { new_absent() };
        let init = if dkids.len() >= 1 { dkids.remove(0) } else { new_absent() };
        assert(name@ == declarator_name(dv));
        assert(init@ == declarator_init(dv));
        let bs = collect_bindings(&name);
        hoist_binding_list(map, exports, declares, &bs, init.kind != Kind::Absent);
        name
    } else {
        left
    }
}

/// Hoists the variables of a top-level statement (see [`hoist_stmt`]).
pub fn hoist_variables(
    map: &ExportMap,
    exports: &mut Vec<(String, Node)>,
    declares: &mut Vec<Node>,
    s: Node,
) -> (r: Node)
    requires
        !hoist_rejects(s@),
    ensures
        ({
            let (acc, x) = hoist_stmt(
                map.spec_map(),
                HoistAcc { exports: exports_view(old(exports)@), declares: nodes_view(old(declares)@) },
                s@,
            );
            &&& exports_view(final(exports)@) == acc.exports
            &&& nodes_view(final(declares)@) == acc.declares
            &&& r@ == x
        }),
{
    let ghost sv = s@;
    proof {
        lemma_nodes_view(s.children@);
    }
    match s.kind {
        Kind::VarDecl { .. } => {
            match hoist_var_decl_exec(map, exports, declares, s) {
                Some(e) => new_expr_stmt(e),
                None => {
                    let r = new_node(Kind::EmptyStmt, dummy_span(), Vec::new());
                    assert(nodes_view(Seq::<Node>::empty()) =~= Seq::<SNode>::empty());
                    r
                },
            }
        },
        Kind::ForStmt => {
            if s.children.len() == 4 && s.children[0].kind == (Kind::VarDecl {
                var_kind: VarDeclKind::Var,
            }) {
                let Node { kind, sym, raw, span, mark, bits, children } = s;
                let mut kids = children;
                let ghost k0 = kids@;
                let init = kids.remove(0);
                let e = hoist_var_decl_exec(map, exports, declares, init);
                let init2 = match e {
                    Some(x) => x,
                    None => new_absent(),
                };
                kids.insert(0, init2);
                proof {
                    assert(kids@ =~= k0.update(0, init2));
                    lemma_nodes_view(kids@);
                    lemma_nodes_view(k0);
                    assert(nodes_view(kids@) =~= nodes_view(k0).update(0, init2@));
                }
                Node { kind, sym, raw, span, mark, bits, children: kids }
            } else {
                s
            }
        },
        Kind::ForInStmt => {
            if s.children.len() == 3 {
                let Node { kind, sym, raw, span, mark, bits, children } = s;
                let mut kids = children;
                let ghost k0 = kids@;
                let left = kids.remove(0);
                let left2 = hoist_for_var_decl_exec(map, exports, declares, left);
                kids.insert(0, left2);
                proof {
                    assert(kids@ =~= k0.update(0, left2));
                    lemma_nodes_view(kids@);
                    lemma_nodes_view(k0);
                    assert(nodes_view(kids@) =~= nodes_view(k0).update(0, left2@));
                }
                Node { kind, sym, raw, span, mark, bits, children: kids }
            } else {
                s
            }
        },
        Kind::ForOfStmt => {
            if s.children.len() == 4 {
                let Node { kind, sym, raw, span, mark, bits, children } = s;
                let mut kids = children;
                let ghost k0 = kids@;
                let left = kids.remove(1);
                let left2 = hoist_for_var_decl_exec(map, exports, declares, left);
                kids.insert(1, left2);
                proof {
                    assert(kids@ =~= k0.update(1, left2));
                    lemma_nodes_view(kids@);
                    lemma_nodes_view(k0);
                    assert(nodes_view(kids@) =~= nodes_view(k0).update(1, left2@));
                }
                Node { kind, sym, raw, span, mark, bits, children: kids }
            } else {
                s
            }
        },
        _ => s,
    }
}

} // verus!

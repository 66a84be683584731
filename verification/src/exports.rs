//! The dependencies of a module and the `_export` calls that publish its
//! bindings.
use vstd::prelude::*;
use crate::ast::{
    Kind, Node, SNode, absent, as_arg, assign, bin, block, call, computed_member, dummy_sp,
    dummy_span, expr_stmt, key_value, lemma_nodes_view_add,
    lemma_nodes_view_push, member, mk, new_absent, new_as_arg, new_assign, new_bin, new_block,
    new_call, new_computed_member, new_expr_stmt, new_key_value, new_node, new_object_lit,
    new_quote_ident, new_ident_string, new_str_lit, new_member_string, new_var_decl,
    new_var_declarator, nodes_view, object_lit, quote_ident, str_lit, var_decl,
    var_declarator, vec1, vec3,
};
use crate::fold::{export_call, export_ident, new_export_call};
use crate::hoist::exports_view;
use crate::symbol::{local_name_for_src, local_name_of, verified_symbol, verify_symbol};

verus! {

/// What the transform records of one dependency: the names and values it
/// re-exports, whether it re-exports everything, its source and the
/// statements of its setter.
pub struct SMeta {
    pub exports: Seq<(Seq<char>, SNode)>,
    pub has_export_all: bool,
    pub src: Seq<char>,
    pub stmts: Seq<SNode>,
}

/// The executable counterpart of [`SMeta`].
pub struct ModuleItemMeta {
    pub exports: Vec<(String, Node)>,
    pub has_export_all: bool,
    pub src: String,
    pub stmts: Vec<Node>,
}

impl View for ModuleItemMeta {
    type V = SMeta;

    open spec fn view(&self) -> SMeta {
        SMeta {
            exports: exports_view(self.exports@),
            has_export_all: self.has_export_all,
            src: self.src@,
            stmts: nodes_view(self.stmts@),
        }
    }
}

pub open spec fn metas_view(v: Seq<ModuleItemMeta>) -> Seq<SMeta> {
    v.map_values(|m: ModuleItemMeta| m@)
}

/// The index of the first entry of `list` with source `src`, or -1.
pub open spec fn find_src(list: Seq<SMeta>, src: Seq<char>) -> int
    decreases list.len(),
{
    if list.len() == 0 {
        -1
    } else if list[0].src == src {
        0
    } else {
        let k = find_src(list.drop_first(), src);
        if k < 0 {
            -1
        } else {
            k + 1
        }
    }
}

/// `b` appended to `a`.
pub open spec fn merge_meta(a: SMeta, b: SMeta) -> SMeta {
    SMeta {
        exports: a.exports + b.exports,
        has_export_all: a.has_export_all || b.has_export_all,
        src: a.src,
        stmts: a.stmts + b.stmts,
    }
}

/// Records `m`: it is merged into the entry of the same source, or appended.
pub open spec fn add_meta(list: Seq<SMeta>, m: SMeta) -> Seq<SMeta> {
    let i = find_src(list, m.src);
    if i >= 0 {
        list.update(i, merge_meta(list[i], m))
    } else {
        list.push(m)
    }
}

pub proof fn lemma_find_src(list: Seq<SMeta>, src: Seq<char>)
    ensures
        -1 <= find_src(list, src) < list.len(),
        find_src(list, src) >= 0 ==> list[find_src(list, src)].src == src,
        forall|j: int| 0 <= j < find_src(list, src) ==> list[j].src != src,
        find_src(list, src) < 0 ==> forall|j: int| 0 <= j < list.len() ==> list[j].src != src,
    decreases list.len(),
{
    if list.len() > 0 && list[0].src != src {
        lemma_find_src(list.drop_first(), src);
        let k = find_src(list.drop_first(), src);
        assert forall|j: int| 0 <= j < find_src(list, src) implies list[j].src != src by {
            if j > 0 {
                assert(list[j] == list.drop_first()[j - 1]);
            }
        }
        if k < 0 {
            assert forall|j: int| 0 <= j < list.len() implies list[j].src != src by {
                if j > 0 {
                    assert(list[j] == list.drop_first()[j - 1]);
                }
            }
        }
    }
}

/// The property key of an export name: an identifier where the name is a
/// valid identifier, else a string.
pub open spec fn prop_key(name: Seq<char>) -> SNode {
    if verified_symbol(name) is Ok {
        quote_ident(Kind::Ident, name)
    } else {
        str_lit(name)
    }
}

/// The property `name: value` of an export.
pub open spec fn export_prop(e: (Seq<char>, SNode)) -> SNode {
    key_value(prop_key(e.0), e.1)
}

/// The statements that export `exports`: none for none, `_export("name", value)`
/// for one, and `_export({ name: value, .. })` for more.
pub open spec fn export_call_stmts(exports: Seq<(Seq<char>, SNode)>) -> Seq<SNode> {
    if exports.len() == 0 {
        Seq::empty()
    } else if exports.len() == 1 {
        seq![expr_stmt(export_call(exports[0].0, dummy_sp(), as_arg(exports[0].1)))]
    } else {
        seq![
            expr_stmt(
                call(dummy_sp(), export_ident(), seq![as_arg(object_lit(exports.map_values(|e: (Seq<char>, SNode)| export_prop(e))))]),
            ),
        ]
    }
}

/// `exportObj`.
pub open spec fn export_obj() -> SNode {
    quote_ident(Kind::ExprIdent, "exportObj"@)
}

/// `key`.
pub open spec fn key_ident() -> SNode {
    quote_ident(Kind::ExprIdent, "key"@)
}

/// The statements that copy every export of the module bound to `target`
/// into `exportObj`, except `default` and `__esModule`.
pub open spec fn export_all_stmts(target: Seq<char>) -> Seq<SNode> {
    let target_ident = quote_ident(Kind::ExprIdent, target);
    seq![
        var_decl(
            seq![var_declarator(dummy_sp(), mk(Kind::PatExpr, dummy_sp(), seq![export_obj()]), object_lit(Seq::empty()))],
        ),
        mk(
            Kind::ForInStmt,
            dummy_sp(),
            seq![
                var_decl(seq![var_declarator(dummy_sp(), mk(Kind::PatExpr, dummy_sp(), seq![key_ident()]), absent())]),
                target_ident,
                block(
                    seq![
                        mk(
                            Kind::IfStmt,
                            dummy_sp(),
                            seq![
                                bin(
                                    "&&"@,
                                    bin("!=="@, key_ident(), str_lit("default"@)),
                                    bin("!=="@, key_ident(), str_lit("__esModule"@)),
                                ),
                                block(
                                    seq![
                                        expr_stmt(
                                            assign(
                                                dummy_sp(),
                                                computed_member(export_obj(), key_ident()),
                                                computed_member(target_ident, key_ident()),
                                            ),
                                        ),
                                    ],
                                ),
                                absent(),
                            ],
                        ),
                    ],
                ),
            ],
        ),
    ]
}

/// `exportObj.name = value;`.
pub open spec fn export_obj_assign(e: (Seq<char>, SNode)) -> SNode {
    expr_stmt(assign(dummy_sp(), member(export_obj(), e.0), e.1))
}

/// The body of the setter of a dependency.
pub open spec fn setter_body(m: SMeta) -> Seq<SNode> {
    if !m.has_export_all {
        m.stmts + export_call_stmts(m.exports)
    } else {
        m.stmts + export_all_stmts(local_name_of(m.src)) + m.exports.map_values(
            |e: (Seq<char>, SNode)| export_obj_assign(e),
        ) + seq![expr_stmt(call(dummy_sp(), export_ident(), seq![as_arg(export_obj())]))]
    }
}

// ---------------------------------------------------------------------------
// Executable code
// ---------------------------------------------------------------------------

/// Records `m` in `list` (see [`add_meta`]).
pub fn add_module_item_meta(list: &mut Vec<ModuleItemMeta>, m: ModuleItemMeta)
    ensures
        metas_view(final(list)@) == add_meta(metas_view(old(list)@), m@),
{
    let ghost lv = metas_view(list@);
    proof {
        lemma_find_src(lv, m@.src);
    }
    let n = list.len();
    let mut i: usize = 0;
    while i < n
        invariant
            i <= n,
            n == list@.len(),
            lv == metas_view(list@),
            list@ == old(list)@,
            forall|j: int| 0 <= j < i ==> lv[j].src != m@.src,
            -1 <= find_src(lv, m@.src) < lv.len(),
            find_src(lv, m@.src) >= 0 ==> lv[find_src(lv, m@.src)].src == m@.src,
            forall|j: int| 0 <= j < find_src(lv, m@.src) ==> lv[j].src != m@.src,
            find_src(lv, m@.src) < 0 ==> forall|j: int| 0 <= j < lv.len() ==> lv[j].src != m@.src,
        decreases n - i,
    {
        if list[i].src == m.src {
            assert(lv[i as int] == list@[i as int]@);
            assert(lv[i as int].src == m@.src);
            assert(find_src(lv, m@.src) == i);
            let mut meta = list.remove(i);
            let ghost mv0 = meta@;
            let ModuleItemMeta { exports: mut m_exports, has_export_all: m_all, src: _, stmts: mut m_stmts } = m;
            let ghost me = m_exports@;
            let ghost ms = m_stmts@;
            let ghost mexp = meta.exports@;
            let ghost mst = meta.stmts@;
            meta.stmts.append(&mut m_stmts);
            meta.exports.append(&mut m_exports);
            if m_all {
                meta.has_export_all = m_all;
            }
            proof {
                lemma_nodes_view_add(mst, ms);
                assert(exports_view(mexp + me) =~= exports_view(mexp) + exports_view(me));
                assert(meta.stmts@ =~= mst + ms);
                assert(meta.exports@ =~= mexp + me);
            }
            list.insert(i, meta);
            proof {
                assert(metas_view(list@) =~= lv.update(i as int, merge_meta(lv[i as int], m@)));
            }
            return;
        }
        i = i + 1;
    }
    let ghost mv = m@;
    list.push(m);
    proof {
        assert(metas_view(list@) =~= lv.push(mv));
    }
}

/// The property key of an export name (see [`prop_key`]).
pub fn new_prop_key(name: String) -> (r: Node)
    ensures
        r@ == prop_key(name@),
{
    match verify_symbol(name.as_str()) {
        Ok(()) => new_ident_string(Kind::Ident, name),
        Err(_) => new_str_lit(name),
    }
}

/// The statements that export `exports` (see [`export_call_stmts`]).
pub fn build_export_call(exports: Vec<(String, Node)>) -> (r: Vec<Node>)
    ensures
        nodes_view(r@) == export_call_stmts(exports_view(exports@)),
{
    let ghost ev = exports_view(exports@);
    if exports.len() == 0 {
        let r = Vec::new();
        assert(nodes_view(r@) =~= Seq::<SNode>::empty());
        r
    } else if exports.len() == 1 {
        let mut ex = exports;
        let (name, value) = ex.remove(0);
        let c = new_export_call(name, dummy_span(), new_as_arg(value));
        vec1(new_expr_stmt(c))
    } else {
        let mut props: Vec<Node> = Vec::new();
        let mut rest = exports;
        let ghost e0 = rest@;
        let len = rest.len();
        let mut i: usize = 0;
        while i < len
            invariant
                i <= len,
                len == e0.len(),
                rest@ == e0.skip(i as int),
                ev == exports_view(e0),
                nodes_view(props@) == ev.take(i as int).map_values(|e: (Seq<char>, SNode)| export_prop(e)),
            decreases len - i,
        {
            let (name, value) = rest.remove(0);
            assert((name, value) == e0[i as int]);
            let ghost p0 = props@;
            let p = new_key_value(new_prop_key(name), value);
            props.push(p);
            proof {
                lemma_nodes_view_push(p0, p);
                assert(ev.take(i + 1).map_values(|e: (Seq<char>, SNode)| export_prop(e)) =~= ev.take(
                    i as int,
                ).map_values(|e: (Seq<char>, SNode)| export_prop(e)).push(p@));
                assert(rest@ =~= e0.skip(i + 1));
            }
            i = i + 1;
        }
        proof {
            assert(ev.take(len as int) =~= ev);
        }
        let obj = new_object_lit(props);
        let c = new_call(dummy_span(), new_quote_ident(Kind::ExprIdent, "_export"), vec1(new_as_arg(obj)));
        vec1(new_expr_stmt(c))
    }
}

fn new_pat_expr(e: Node) -> (r: Node)
    ensures
        r@ == mk(Kind::PatExpr, dummy_sp(), seq![e@]),
{
    new_node(Kind::PatExpr, dummy_span(), vec1(e))
}

/// The statements that copy the exports of `target` (see [`export_all_stmts`]).
pub fn build_export_all_stmts(target: &String) -> (r: Vec<Node>)
    ensures
        nodes_view(r@) == export_all_stmts(target@),
{
    let obj_decl = new_var_decl(
        vec1(
            new_var_declarator(
                dummy_span(),
                new_pat_expr(new_quote_ident(Kind::ExprIdent, "exportObj")),
                new_object_lit(Vec::new()),
            ),
        ),
    );
    let key_decl = new_var_decl(
        vec1(new_var_declarator(dummy_span(), new_pat_expr(new_quote_ident(Kind::ExprIdent, "key")), new_absent())),
    );
    let test = new_bin(
        "&&",
        new_bin("!==", new_quote_ident(Kind::ExprIdent, "key"), new_str_lit("default".to_string())),
        new_bin("!==", new_quote_ident(Kind::ExprIdent, "key"), new_str_lit("__esModule".to_string())),
    );
    let copy = new_expr_stmt(
        new_assign(
            dummy_span(),
            new_computed_member(new_quote_ident(Kind::ExprIdent, "exportObj"), new_quote_ident(Kind::ExprIdent, "key")),
            new_computed_member(new_ident_string(Kind::ExprIdent, target.clone()), new_quote_ident(Kind::ExprIdent, "key")),
        ),
    );
    let if_stmt = new_node(Kind::IfStmt, dummy_span(), vec3(test, new_block(vec1(copy)), new_absent()));
    let for_in = new_node(
        Kind::ForInStmt,
        dummy_span(),
        vec3(key_decl, new_ident_string(Kind::ExprIdent, target.clone()), new_block(vec1(if_stmt))),
    );
    let mut r = vec1(obj_decl);
    let ghost r0 = r@;
    r.push(for_in);
    proof {
        assert(nodes_view(Seq::<Node>::empty()) =~= Seq::<SNode>::empty());
        lemma_nodes_view_push(r0, for_in);
        assert(nodes_view(r@) =~= export_all_stmts(target@));
    }
    r
}

/// The body of the setter of a dependency (see [`setter_body`]).
pub fn build_module_item_export_all(meta: ModuleItemMeta) -> (r: Vec<Node>)
    ensures
        nodes_view(r@) == setter_body(meta@),
{
    let ghost mv = meta@;
    let ModuleItemMeta { exports, has_export_all, src, stmts } = meta;
    let mut stmts = stmts;
    if !has_export_all {
        let mut calls = build_export_call(exports);
        let ghost s0 = stmts@;
        let ghost c0 = calls@;
        stmts.append(&mut calls);
        proof {
            assert(stmts@ =~= s0 + c0);
            lemma_nodes_view_add(s0, c0);
        }
        stmts
    } else {
        let target = local_name_for_src(src.as_str());
        let mut copies = build_export_all_stmts(&target);
        let ghost s0 = stmts@;
        let ghost c0 = copies@;
        stmts.append(&mut copies);
        proof {
            assert(stmts@ =~= s0 + c0);
            lemma_nodes_view_add(s0, c0);
        }
        let ghost ev = exports_view(exports@);
        let ghost base = nodes_view(stmts@);
        let mut rest = exports;
        let ghost e0 = rest@;
        let len = rest.len();
        let mut i: usize = 0;
        while i < len
            invariant
                i <= len,
                len == e0.len(),
                rest@ == e0.skip(i as int),
                ev == exports_view(e0),
                nodes_view(stmts@) == base + ev.take(i as int).map_values(|e: (Seq<char>, SNode)| export_obj_assign(e)),
            decreases len - i,
        {
            let (name, value) = rest.remove(0);
            assert((name, value) == e0[i as int]);
            let ghost p0 = stmts@;
            let st = new_expr_stmt(
                new_assign(dummy_span(), new_member_string(new_quote_ident(Kind::ExprIdent, "exportObj"), name), value),
            );
            stmts.push(st);
            proof {
                lemma_nodes_view_push(p0, st);
                assert(ev.take(i + 1).map_values(|e: (Seq<char>, SNode)| export_obj_assign(e)) =~= ev.take(
                    i as int,
                ).map_values(|e: (Seq<char>, SNode)| export_obj_assign(e)).push(st@));
                assert(rest@ =~= e0.skip(i + 1));
            }
            i = i + 1;
        }
        proof {
            assert(ev.take(len as int) =~= ev);
        }
        let last = new_expr_stmt(
            new_call(dummy_span(), new_quote_ident(Kind::ExprIdent, "_export"), vec1(new_as_arg(new_quote_ident(Kind::ExprIdent, "exportObj")))),
        );
        let ghost p1 = stmts@;
        stmts.push(last);
        proof {
            lemma_nodes_view_push(p1, last);
        }
        stmts
    }
}

} // verus!

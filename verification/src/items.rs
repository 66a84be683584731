//! What the transform records of each top-level item of a module: the names
//! it declares, the bindings it exports, the dependencies it imports from, and
//! the statements it contributes to the module's function and to its
//! `execute` function.
use vstd::prelude::*;
use crate::ast::{
    Kind, Node, SNode, as_arg, assign, dummy_sp, dummy_span, expr_stmt, member, mk, quote_ident,
    str_lit, undefined_expr, with_kind, clone_node, lemma_nodes_view, lemma_nodes_view_push,
    new_as_arg, new_assign, new_expr_stmt, new_ident_string, new_member,
    new_node, new_str_lit, new_undefined_expr, node_view, nodes_view, vec1, vec2,
};
use crate::export_map::{ExportMap, add_export_name_spec};
use crate::exports::{ModuleItemMeta, SMeta, add_meta, add_module_item_meta, metas_view};
use crate::fold::{Binding, bindings, bindings_view, collect_bindings, export_call, new_export_call};
use crate::hoist::{decls_of, declarator_name, exports_view, hoist_rejects};
use crate::symbol::{ExportKey, local_name_for_src, local_name_of};

verus! {

/// What the transform has collected from the items of the modules it has
/// transformed.
pub struct SCollected {
    /// The identifiers declared with `var` at the top of the module's function.
    pub declare_var_idents: Seq<SNode>,
    /// The export names of each exported binding.
    pub export_map: Map<(Seq<char>, Option<u32>), Seq<Seq<char>>>,
    /// The names and values exported when the module's function runs.
    pub exports: Seq<(Seq<char>, SNode)>,
    /// The identifiers of the top-level function declarations.
    pub root_fn_decl_idents: Seq<SNode>,
    /// The dependencies, in order of first appearance.
    pub metas: Seq<SMeta>,
    /// The local names of default and namespace imports.
    pub import_ident_names: Seq<Seq<char>>,
}

/// The collected state and the two statement lists that the items fill.
pub struct SItemAcc {
    pub c: SCollected,
    /// Statements placed before the `return` of the module's function.
    pub before: Seq<SNode>,
    /// Statements of the `execute` function.
    pub execute: Seq<SNode>,
}

/// Whether a module item names a source that the resolver resolves.
pub open spec fn resolves(item: SNode) -> bool {
    ||| item.kind == Kind::ImportDecl && item.children.len() == 3
    ||| item.kind == Kind::NamedExport && item.children.len() == 3 && item.children[1].kind != Kind::Absent
}

/// The sources that the resolver resolves, in order.
pub open spec fn resolve_targets(items: Seq<SNode>) -> Seq<Seq<char>>
    decreases items.len(),
{
    if items.len() == 0 {
        Seq::empty()
    } else if resolves(items.last()) {
        resolve_targets(items.drop_last()).push(items.last().children[1].sym)
    } else {
        resolve_targets(items.drop_last())
    }
}

/// The identifiers of the top-level function declarations among `items`.
pub open spec fn root_fn_idents(items: Seq<SNode>) -> Seq<SNode>
    decreases items.len(),
{
    if items.len() == 0 {
        Seq::empty()
    } else if items.last().kind == Kind::FnDecl && items.last().children.len() >= 1 {
        root_fn_idents(items.drop_last()).push(items.last().children[0])
    } else {
        root_fn_idents(items.drop_last())
    }
}

/// The name of a module export name, and its syntax context for an identifier.
pub open spec fn export_name(m: SNode) -> (Seq<char>, Option<u32>) {
    if m.kind == Kind::Str {
        (m.sym, None)
    } else {
        (m.sym, Some(m.span.ctxt))
    }
}

/// The expression of a module export name.
pub open spec fn export_expr(m: SNode) -> SNode {
    if m.kind == Kind::Str {
        str_lit(m.sym)
    } else {
        with_kind(m, Kind::ExprIdent)
    }
}

/// The member property of a module export name.
pub open spec fn export_member_prop(m: SNode) -> SNode {
    if m.kind == Kind::Str {
        mk(Kind::ComputedPropName, m.span, seq![str_lit(m.sym)])
    } else {
        m
    }
}

/// `obj.prop` with the property node `prop`.
pub open spec fn member_of(obj: SNode, prop: SNode) -> SNode {
    mk(Kind::MemberExpr, dummy_sp(), seq![obj, prop])
}

/// A class expression with the given name and class.
pub open spec fn class_expr(ident: SNode, class: SNode) -> SNode {
    mk(Kind::ClassExpr, dummy_sp(), seq![ident, class])
}

/// `ident = class ident { .. };`.
pub open spec fn class_assign(ident: SNode, class_e: SNode) -> SNode {
    expr_stmt(assign(dummy_sp(), with_kind(ident, Kind::ExprIdent), class_e))
}

// --- imports ---------------------------------------------------------------

/// The declared names, import names and setter statements of an import.
pub struct ImportAcc {
    pub declares: Seq<SNode>,
    pub import_names: Seq<Seq<char>>,
    pub setters: Seq<SNode>,
}

/// One import specifier: its local name is declared and its setter statement
/// assigns it from the module bound to `alias`.
pub open spec fn import_spec_step(alias: Seq<char>, acc: ImportAcc, sp: SNode) -> ImportAcc {
    let source = quote_ident(Kind::ExprIdent, alias);
    if sp.children.len() == 0 {
        acc
    } else {
        let local = sp.children[0];
        match sp.kind {
            Kind::ImportDefaultSpecifier => ImportAcc {
                declares: acc.declares.push(local),
                import_names: acc.import_names.push(local.sym),
                setters: acc.setters.push(
                    expr_stmt(assign(sp.span, with_kind(local, Kind::ExprIdent), member(source, "default"@))),
                ),
            },
            Kind::ImportNamedSpecifier => if sp.children.len() == 2 {
                let imported = sp.children[1];
                let prop = if imported.kind == Kind::Absent {
                    local
                } else {
                    export_member_prop(imported)
                };
                ImportAcc {
                    declares: acc.declares.push(local),
                    import_names: acc.import_names,
                    setters: acc.setters.push(
                        expr_stmt(assign(sp.span, with_kind(local, Kind::ExprIdent), member_of(source, prop))),
                    ),
                }
            } else {
                acc
            },
            Kind::ImportStarAsSpecifier => ImportAcc {
                declares: acc.declares.push(local),
                import_names: acc.import_names.push(local.sym),
                setters: acc.setters.push(expr_stmt(assign(sp.span, with_kind(local, Kind::ExprIdent), source))),
            },
            _ => acc,
        }
    }
}

pub open spec fn import_specs(alias: Seq<char>, acc: ImportAcc, sps: Seq<SNode>) -> ImportAcc
    decreases sps.len(),
{
    if sps.len() == 0 {
        acc
    } else {
        import_spec_step(alias, import_specs(alias, acc, sps.drop_last()), sps.last())
    }
}

/// An import of `src`: its names are declared and one dependency entry holds
/// the setter statements.
pub open spec fn process_import(c: SCollected, item: SNode, src: Seq<char>) -> SCollected {
    let acc = import_specs(
        local_name_of(src),
        ImportAcc { declares: c.declare_var_idents, import_names: c.import_ident_names, setters: Seq::empty() },
        item.children[0].children,
    );
    SCollected {
        declare_var_idents: acc.declares,
        import_ident_names: acc.import_names,
        metas: add_meta(c.metas, SMeta { exports: Seq::empty(), has_export_all: false, src, stmts: acc.setters }),
        ..c
    }
}

// --- re-exports ------------------------------------------------------------

/// The name and value that one specifier of `export { .. } from src` re-exports.
pub open spec fn export_from_entry(alias: Seq<char>, sp: SNode) -> Seq<(Seq<char>, SNode)> {
    let source = quote_ident(Kind::ExprIdent, alias);
    match sp.kind {
        Kind::ExportNamedSpecifier => if sp.children.len() == 2 {
            let orig = sp.children[0];
            let exported = sp.children[1];
            let name = if exported.kind == Kind::Absent {
                export_name(orig).0
            } else {
                export_name(exported).0
            };
            seq![(name, member_of(source, export_member_prop(orig)))]
        } else {
            Seq::empty()
        },
        Kind::ExportDefaultSpecifier => if sp.children.len() == 1 {
            seq![(sp.children[0].sym, member(source, "default"@))]
        } else {
            Seq::empty()
        },
        Kind::ExportNamespaceSpecifier => if sp.children.len() == 1 {
            seq![(export_name(sp.children[0]).0, source)]
        } else {
            Seq::empty()
        },
        _ => Seq::empty(),
    }
}

/// Each specifier of `export { .. } from src` records a dependency entry.
pub open spec fn export_from_specs(metas: Seq<SMeta>, src: Seq<char>, sps: Seq<SNode>) -> Seq<SMeta>
    decreases sps.len(),
{
    if sps.len() == 0 {
        metas
    } else {
        add_meta(
            export_from_specs(metas, src, sps.drop_last()),
            SMeta {
                exports: export_from_entry(local_name_of(src), sps.last()),
                has_export_all: false,
                src,
                stmts: Seq::empty(),
            },
        )
    }
}

// --- local exports ---------------------------------------------------------

/// Whether one of `idents` has the name `sym`.
pub open spec fn has_ident_named(idents: Seq<SNode>, sym: Seq<char>) -> bool {
    exists|i: int| 0 <= i < idents.len() && idents[i].sym == sym
}

/// One specifier of `export { .. }`: the binding is recorded as exported; a
/// hoisted function is exported when the module's function runs, and an
/// imported name is exported when `execute` runs.
pub open spec fn export_local_step(acc: SItemAcc, sp: SNode) -> SItemAcc {
    if sp.kind == Kind::ExportNamedSpecifier && sp.children.len() == 2 {
        let c = acc.c;
        let orig = sp.children[0];
        let exported = sp.children[1];
        let (orig_sym, ctxt) = export_name(orig);
        let name = if exported.kind == Kind::Absent {
            orig_sym
        } else {
            export_name(exported).0
        };
        SItemAcc {
            c: SCollected {
                exports: if has_ident_named(c.root_fn_decl_idents, orig_sym) {
                    c.exports.push((name, export_expr(orig)))
                } else {
                    c.exports
                },
                export_map: add_export_name_spec(c.export_map, (orig_sym, ctxt), name),
                ..c
            },
            before: acc.before,
            execute: if c.import_ident_names.contains(orig_sym) {
                acc.execute.push(
                    expr_stmt(
                        export_call(
                            orig_sym,
                            dummy_sp(),
                            as_arg(export_expr(if exported.kind == Kind::Absent { orig } else { exported })),
                        ),
                    ),
                )
            } else {
                acc.execute
            },
        }
    } else {
        acc
    }
}

pub open spec fn export_local_specs(acc: SItemAcc, sps: Seq<SNode>) -> SItemAcc
    decreases sps.len(),
{
    if sps.len() == 0 {
        acc
    } else {
        export_local_step(export_local_specs(acc, sps.drop_last()), sps.last())
    }
}

// --- exported declarations -------------------------------------------------

/// Records each binding of the declarators `ds` as exported under its own name.
pub open spec fn export_var_bindings(
    m: Map<(Seq<char>, Option<u32>), Seq<Seq<char>>>,
    ds: Seq<SNode>,
) -> Map<(Seq<char>, Option<u32>), Seq<Seq<char>>>
    decreases ds.len(),
{
    if ds.len() == 0 {
        m
    } else {
        export_names_of(export_var_bindings(m, ds.drop_last()), bindings(declarator_name(ds.last())))
    }
}

pub open spec fn export_names_of(
    m: Map<(Seq<char>, Option<u32>), Seq<Seq<char>>>,
    bs: Seq<(Seq<char>, u32, u32)>,
) -> Map<(Seq<char>, Option<u32>), Seq<Seq<char>>>
    decreases bs.len(),
{
    if bs.len() == 0 {
        m
    } else {
        let b = bs.last();
        add_export_name_spec(export_names_of(m, bs.drop_last()), (b.0, Some(b.1)), b.0)
    }
}

/// `export class|function|var ..`.
pub open spec fn process_export_decl(acc: SItemAcc, d: SNode) -> SItemAcc {
    let c = acc.c;
    match d.kind {
        Kind::ClassDecl => if d.children.len() == 2 {
            let ident = d.children[0];
            SItemAcc {
                c: SCollected {
                    exports: c.exports.push((ident.sym, undefined_expr(dummy_sp()))),
                    declare_var_idents: c.declare_var_idents.push(ident),
                    export_map: add_export_name_spec(c.export_map, (ident.sym, Some(ident.span.ctxt)), ident.sym),
                    ..c
                },
                before: acc.before,
                execute: acc.execute.push(class_assign(ident, class_expr(ident, d.children[1]))),
            }
        } else {
            acc
        },
        Kind::FnDecl => if d.children.len() == 2 {
            let ident = d.children[0];
            SItemAcc {
                c: SCollected {
                    exports: c.exports.push((ident.sym, with_kind(ident, Kind::ExprIdent))),
                    export_map: add_export_name_spec(c.export_map, (ident.sym, Some(ident.span.ctxt)), ident.sym),
                    ..c
                },
                before: acc.before.push(d),
                execute: acc.execute,
            }
        } else {
            acc
        },
        Kind::VarDecl { .. } => SItemAcc {
            c: SCollected { export_map: export_var_bindings(c.export_map, decls_of(d)), ..c },
            before: acc.before,
            execute: acc.execute.push(d),
        },
        _ => acc,
    }
}

/// `export default class|function ..`.
pub open spec fn process_export_default_decl(acc: SItemAcc, d: SNode) -> SItemAcc {
    let c = acc.c;
    match d.kind {
        Kind::ClassExpr => if d.children.len() == 2 {
            let ident = d.children[0];
            if ident.kind != Kind::Absent {
                SItemAcc {
                    c: SCollected {
                        exports: c.exports.push(("default"@, undefined_expr(dummy_sp()))),
                        declare_var_idents: c.declare_var_idents.push(ident),
                        export_map: add_export_name_spec(c.export_map, (ident.sym, Some(ident.span.ctxt)), "default"@),
                        ..c
                    },
                    before: acc.before,
                    execute: acc.execute.push(class_assign(ident, d)),
                }
            } else {
                SItemAcc { c: SCollected { exports: c.exports.push(("default"@, d)), ..c }, ..acc }
            }
        } else {
            acc
        },
        Kind::FnExpr => if d.children.len() == 2 {
            let ident = d.children[0];
            if ident.kind != Kind::Absent {
                SItemAcc {
                    c: SCollected {
                        exports: c.exports.push(("default"@, with_kind(ident, Kind::ExprIdent))),
                        export_map: add_export_name_spec(c.export_map, (ident.sym, Some(ident.span.ctxt)), "default"@),
                        ..c
                    },
                    before: acc.before.push(mk(Kind::FnDecl, dummy_sp(), seq![ident, d.children[1]])),
                    execute: acc.execute,
                }
            } else {
                SItemAcc { c: SCollected { exports: c.exports.push(("default"@, d)), ..c }, ..acc }
            }
        } else {
            acc
        },
        _ => acc,
    }
}

/// One item of the module's body; `src` is the resolved source of an item
/// that [`resolves`].
pub open spec fn process_item(acc: SItemAcc, item: SNode, src: Seq<char>) -> SItemAcc {
    let c = acc.c;
    match item.kind {
        Kind::ImportDecl => if item.children.len() == 3 {
            SItemAcc { c: process_import(c, item, src), ..acc }
        } else {
            acc
        },
        Kind::NamedExport => if item.children.len() == 3 {
            if item.children[1].kind != Kind::Absent {
                SItemAcc {
                    c: SCollected { metas: export_from_specs(c.metas, src, item.children[0].children), ..c },
                    ..acc
                }
            } else {
                export_local_specs(acc, item.children[0].children)
            }
        } else {
            acc
        },
        Kind::ExportDecl => if item.children.len() == 1 {
            process_export_decl(acc, item.children[0])
        } else {
            acc
        },
        Kind::ExportDefaultDecl => if item.children.len() == 1 {
            process_export_default_decl(acc, item.children[0])
        } else {
            acc
        },
        Kind::ExportDefaultExpr => if item.children.len() == 1 {
            SItemAcc {
                execute: acc.execute.push(
                    expr_stmt(export_call("default"@, item.span, as_arg(item.children[0]))),
                ),
                ..acc
            }
        } else {
            acc
        },
        Kind::ExportAll => if item.children.len() == 2 {
            SItemAcc {
                c: SCollected {
                    metas: add_meta(
                        c.metas,
                        SMeta {
                            exports: Seq::empty(),
                            has_export_all: true,
                            src: item.children[0].sym,
                            stmts: Seq::empty(),
                        },
                    ),
                    ..c
                },
                ..acc
            }
        } else {
            acc
        },
        Kind::OpaqueModuleDecl => acc,
        Kind::ClassDecl => if item.children.len() == 2 {
            let ident = item.children[0];
            SItemAcc {
                c: SCollected { declare_var_idents: c.declare_var_idents.push(ident), ..c },
                before: acc.before,
                execute: acc.execute.push(class_assign(ident, class_expr(ident, item.children[1]))),
            }
        } else {
            SItemAcc { execute: acc.execute.push(item), ..acc }
        },
        Kind::FnDecl => SItemAcc { before: acc.before.push(item), ..acc },
        _ => SItemAcc { execute: acc.execute.push(item), ..acc },
    }
}

/// The items of a module body in order; `resolved` holds the resolved
/// sources of the items that [`resolves`], in order.
pub open spec fn process_items(acc: SItemAcc, items: Seq<SNode>, resolved: Seq<Seq<char>>) -> SItemAcc
    decreases items.len(),
{
    if items.len() == 0 {
        acc
    } else {
        let k = resolve_targets(items.drop_last()).len() as int;
        let acc1 = process_items(acc, items.drop_last(), resolved.take(k));
        process_item(acc1, items.last(), if resolves(items.last()) { resolved[k] } else { Seq::empty() })
    }
}

// ---------------------------------------------------------------------------
// Executable code
// ---------------------------------------------------------------------------

/// The executable counterpart of [`SCollected`].
pub struct Collected {
    pub declare_var_idents: Vec<Node>,
    pub export_map: ExportMap,
    pub exports: Vec<(String, Node)>,
    pub root_fn_decl_idents: Vec<Node>,
    pub module_item_meta_list: Vec<ModuleItemMeta>,
    pub import_ident_names: Vec<String>,
}

pub open spec fn names_view(v: Seq<String>) -> Seq<Seq<char>> {
    v.map_values(|s: String| s@)
}

impl View for Collected {
    type V = SCollected;

    open spec fn view(&self) -> SCollected {
        SCollected {
            declare_var_idents: nodes_view(self.declare_var_idents@),
            export_map: self.export_map.spec_map(),
            exports: exports_view(self.exports@),
            root_fn_decl_idents: nodes_view(self.root_fn_decl_idents@),
            metas: metas_view(self.module_item_meta_list@),
            import_ident_names: names_view(self.import_ident_names@),
        }
    }
}

/// `n` with its kind replaced.
fn set_kind(n: Node, kind: Kind) -> (r: Node)
    ensures
        r@ == with_kind(n@, kind),
{
    let mut n = n;
    n.kind = kind;
    n
}

pub(crate) fn push_node(v: &mut Vec<Node>, n: Node)
    ensures
        nodes_view(final(v)@) == nodes_view(old(v)@).push(n@),
{
    let ghost v0 = v@;
    v.push(n);
    proof {
        lemma_nodes_view_push(v0, n);
    }
}

/// The children of a node, moved out of it.
pub(crate) fn into_children(n: Node) -> (r: Vec<Node>)
    ensures
        nodes_view(r@) == n@.children,
        r@ == n.children@,
        r@.len() == n@.children.len(),
{
    proof {
        lemma_nodes_view(n.children@);
    }
    n.children
}

/// Removes and returns the first element of `v`.
pub(crate) fn take_first(v: &mut Vec<Node>) -> (r: Node)
    requires
        old(v)@.len() > 0,
    ensures
        r@ == nodes_view(old(v)@)[0],
        nodes_view(final(v)@) == nodes_view(old(v)@).drop_first(),
        final(v)@.len() == old(v)@.len() - 1,
{
    proof {
        lemma_nodes_view(v@);
    }
    let ghost v0 = v@;
    let r = v.remove(0);
    proof {
        lemma_nodes_view(v@);
        assert(nodes_view(v@) =~= nodes_view(v0).drop_first());
    }
    r
}

/// `ident = class ident { .. };` (see [`class_assign`]).
fn new_class_assign(ident: Node, class_e: Node) -> (r: Node)
    ensures
        r@ == class_assign(ident@, class_e@),
{
    new_expr_stmt(new_assign(dummy_span(), set_kind(ident, Kind::ExprIdent), class_e))
}

/// A class expression (see [`class_expr`]).
fn new_class_expr(ident: Node, class: Node) -> (r: Node)
    ensures
        r@ == class_expr(ident@, class@),
{
    new_node(Kind::ClassExpr, dummy_span(), vec2(ident, class))
}

/// The member property of a module export name (see [`export_member_prop`]).
fn new_export_member_prop(m: Node) -> (r: Node)
    ensures
        r@ == export_member_prop(m@),
{
    if m.kind == Kind::Str {
        new_node(Kind::ComputedPropName, m.span, vec1(new_str_lit(m.sym)))
    } else {
        m
    }
}

/// The expression of a module export name (see [`export_expr`]).
fn new_export_expr(m: Node) -> (r: Node)
    ensures
        r@ == export_expr(m@),
{
    if m.kind == Kind::Str {
        new_str_lit(m.sym)
    } else {
        set_kind(m, Kind::ExprIdent)
    }
}

/// The name and syntax context of a module export name (see [`export_name`]).
fn export_name_of(m: &Node) -> (r: (String, Option<u32>))
    ensures
        (r.0@, r.1) == export_name(m@),
{
    if m.kind == Kind::Str {
        (m.sym.clone(), None)
    } else {
        (m.sym.clone(), Some(m.span.ctxt))
    }
}

/// One import specifier (see [`import_spec_step`]).
fn import_spec_exec(
    alias: &String,
    declares: &mut Vec<Node>,
    import_names: &mut Vec<String>,
    setters: &mut Vec<Node>,
    sp: Node,
)
    ensures
        ({
            let acc = import_spec_step(
                alias@,
                ImportAcc {
                    declares: nodes_view(old(declares)@),
                    import_names: names_view(old(import_names)@),
                    setters: nodes_view(old(setters)@),
                },
                sp@,
            );
            &&& nodes_view(final(declares)@) == acc.declares
            &&& names_view(final(import_names)@) == acc.import_names
            &&& nodes_view(final(setters)@) == acc.setters
        }),
{
    let ghost spv = sp@;
    proof {
        lemma_nodes_view(sp.children@);
    }
    if sp.children.len() == 0 {
        return;
    }
    let kind = sp.kind;
    let span = sp.span;
    let mut kids = into_children(sp);
    let local = take_first(&mut kids);
    assert(local@ == spv.children[0]);
    match kind {
        Kind::ImportDefaultSpecifier => {
            push_node(declares, clone_node(&local));
            assert(nodes_view(declares@) == nodes_view(old(declares)@).push(spv.children[0]));
            let ghost n0 = import_names@;
            import_names.push(local.sym.clone());
            assert(names_view(import_names@) =~= names_view(n0).push(local@.sym));
            let source = new_ident_string(Kind::ExprIdent, alias.clone());
            push_node(
                setters,
                new_expr_stmt(new_assign(span, set_kind(local, Kind::ExprIdent), new_member(source, "default"))),
            );
        },
        Kind::ImportNamedSpecifier => {
            if kids.len() == 1 {
                let imported = take_first(&mut kids);
                push_node(declares, clone_node(&local));
                let source = new_ident_string(Kind::ExprIdent, alias.clone());
                let prop = if imported.kind == Kind::Absent {
                    clone_node(&local)
                } else {
                    new_export_member_prop(imported)
                };
                let m = new_node(Kind::MemberExpr, dummy_span(), vec2(source, prop));
                push_node(setters, new_expr_stmt(new_assign(span, set_kind(local, Kind::ExprIdent), m)));
                assert(nodes_view(declares@) == nodes_view(old(declares)@).push(spv.children[0]));
            } else {
                assert(nodes_view(declares@) == nodes_view(old(declares)@));
            }
        },
        Kind::ImportStarAsSpecifier => {
            push_node(declares, clone_node(&local));
            let ghost n0 = import_names@;
            import_names.push(local.sym.clone());
            assert(names_view(import_names@) =~= names_view(n0).push(local@.sym));
            let source = new_ident_string(Kind::ExprIdent, alias.clone());
            push_node(setters, new_expr_stmt(new_assign(span, set_kind(local, Kind::ExprIdent), source)));
            assert(nodes_view(declares@) == nodes_view(old(declares)@).push(spv.children[0]));
        },
        _ => {
            assert(nodes_view(declares@) == nodes_view(old(declares)@));
        },
    }
}

/// An import of `src` (see [`process_import`]).
fn process_import_exec(c: &mut Collected, item: Node, src: String)
    requires
        item@.kind == Kind::ImportDecl,
        item@.children.len() == 3,
    ensures
        final(c)@ == process_import(old(c)@, item@, src@),
{
    let ghost iv = item@;
    let alias = local_name_for_src(src.as_str());
    let mut kids = into_children(item);
    let list = take_first(&mut kids);
    let mut sps = into_children(list);
    let ghost spv = nodes_view(sps@);
    let mut setters: Vec<Node> = Vec::new();
    let ghost d0 = nodes_view(c.declare_var_idents@);
    let ghost in0 = names_view(c.import_ident_names@);
    let ghost acc0 = ImportAcc { declares: d0, import_names: in0, setters: Seq::empty() };
    proof {
        assert(spv.take(0) =~= Seq::<SNode>::empty());
        assert(nodes_view(setters@) =~= Seq::<SNode>::empty());
    }
    let n = sps.len();
    let mut i: usize = 0;
    proof {
        lemma_nodes_view(sps@);
    }
    while i < n
        invariant
            i <= n,
            spv.len() == n,
            nodes_view(sps@) == spv.skip(i as int),
            sps@.len() == n - i,
            ({
                let acc = import_specs(alias@, acc0, spv.take(i as int));
                &&& nodes_view(c.declare_var_idents@) == acc.declares
                &&& names_view(c.import_ident_names@) == acc.import_names
                &&& nodes_view(setters@) == acc.setters
            }),
            c.export_map == old(c).export_map,
            c.exports == old(c).exports,
            c.root_fn_decl_idents == old(c).root_fn_decl_idents,
            c.module_item_meta_list == old(c).module_item_meta_list,
        decreases n - i,
    {
        let sp = take_first(&mut sps);
        proof {
            assert(spv.take(i + 1).drop_last() =~= spv.take(i as int));
            assert(spv.skip(i as int)[0] == spv[i as int]);
            assert(nodes_view(sps@) =~= spv.skip(i + 1));
        }
        import_spec_exec(&alias, &mut c.declare_var_idents, &mut c.import_ident_names, &mut setters, sp);
        i = i + 1;
    }
    proof {
        assert(spv.take(n as int) =~= spv);
    }
    let meta = ModuleItemMeta { exports: Vec::new(), has_export_all: false, src, stmts: setters };
    proof {
        assert(exports_view(Seq::<(String, Node)>::empty()) =~= Seq::empty());
    }
    add_module_item_meta(&mut c.module_item_meta_list, meta);
}

/// The executable state matches the accumulator `acc`.
pub open spec fn acc_matches(c: Collected, before: Seq<Node>, execute: Seq<Node>, acc: SItemAcc) -> bool {
    &&& c@ == acc.c
    &&& nodes_view(before) == acc.before
    &&& nodes_view(execute) == acc.execute
}

pub open spec fn acc_of(c: Collected, before: Seq<Node>, execute: Seq<Node>) -> SItemAcc {
    SItemAcc { c: c@, before: nodes_view(before), execute: nodes_view(execute) }
}

/// The name and value that one specifier of a re-export names (see [`export_from_entry`]).
fn export_from_entry_exec(alias: &String, sp: Node) -> (r: Vec<(String, Node)>)
    ensures
        exports_view(r@) == export_from_entry(alias@, sp@),
{
    let ghost spv = sp@;
    let kind = sp.kind;
    let mut kids = into_children(sp);
    let source = new_ident_string(Kind::ExprIdent, alias.clone());
    let mut r: Vec<(String, Node)> = Vec::new();
    match kind {
        Kind::ExportNamedSpecifier => {
            if kids.len() == 2 {
                let orig = take_first(&mut kids);
                let exported = take_first(&mut kids);
                let name = if exported.kind == Kind::Absent {
                    export_name_of(&orig).0
                } else {
                    export_name_of(&exported).0
                };
                let value = new_node(Kind::MemberExpr, dummy_span(), vec2(source, new_export_member_prop(orig)));
                r.push((name, value));
            }
        },
        Kind::ExportDefaultSpecifier => {
            if kids.len() == 1 {
                let exported = take_first(&mut kids);
                r.push((exported.sym, new_member(source, "default")));
            }
        },
        Kind::ExportNamespaceSpecifier => {
            if kids.len() == 1 {
                let name = take_first(&mut kids);
                r.push((export_name_of(&name).0, source));
            }
        },
        _ => {},
    }
    assert(exports_view(r@) =~= export_from_entry(alias@, spv));
    r
}

/// The dependency entries of `export { .. } from src` (see [`export_from_specs`]).
fn export_from_exec(metas: &mut Vec<ModuleItemMeta>, src: &String, sps: Vec<Node>)
    ensures
        metas_view(final(metas)@) == export_from_specs(metas_view(old(metas)@), src@, nodes_view(sps@)),
{
    let alias = local_name_for_src(src.as_str());
    let ghost spv = nodes_view(sps@);
    let ghost m0 = metas_view(metas@);
    let mut sps = sps;
    let n = sps.len();
    let mut i: usize = 0;
    proof {
        lemma_nodes_view(sps@);
        assert(spv.take(0) =~= Seq::<SNode>::empty());
    }
    while i < n
        invariant
            i <= n,
            spv.len() == n,
            nodes_view(sps@) == spv.skip(i as int),
            sps@.len() == n - i,
            metas_view(metas@) == export_from_specs(m0, src@, spv.take(i as int)),
            alias@ == local_name_of(src@),
        decreases n - i,
    {
        let sp = take_first(&mut sps);
        proof {
            assert(spv.take(i + 1).drop_last() =~= spv.take(i as int));
            assert(spv.skip(i as int)[0] == spv[i as int]);
            assert(nodes_view(sps@) =~= spv.skip(i + 1));
        }
        let entry = export_from_entry_exec(&alias, sp);
        let meta = ModuleItemMeta { exports: entry, has_export_all: false, src: src.clone(), stmts: Vec::new() };
        proof {
            assert(nodes_view(Seq::<Node>::empty()) =~= Seq::<SNode>::empty());
        }
        add_module_item_meta(metas, meta);
        i = i + 1;
    }
    proof {
        assert(spv.take(n as int) =~= spv);
    }
}

/// Whether one of `idents` has the name `sym` (see [`has_ident_named`]).
fn has_ident_named_exec(idents: &Vec<Node>, sym: &String) -> (r: bool)
    ensures
        r == has_ident_named(nodes_view(idents@), sym@),
{
    proof {
        lemma_nodes_view(idents@);
    }
    let n = idents.len();
    let mut i: usize = 0;
    while i < n
        invariant
            i <= n,
            n == idents@.len(),
            nodes_view(idents@).len() == n,
            forall|j: int| 0 <= j < n ==> #[trigger] nodes_view(idents@)[j] == node_view(idents@[j]),
            forall|j: int| 0 <= j < i ==> nodes_view(idents@)[j].sym != sym@,
        decreases n - i,
    {
        if idents[i].sym == *sym {
            assert(nodes_view(idents@)[i as int].sym == sym@);
            return true;
        }
        i = i + 1;
    }
    false
}

/// Whether `names` contains `sym`.
fn contains_name(names: &Vec<String>, sym: &String) -> (r: bool)
    ensures
        r == names_view(names@).contains(sym@),
{
    let n = names.len();
    let mut i: usize = 0;
    while i < n
        invariant
            i <= n,
            n == names@.len(),
            forall|j: int| 0 <= j < i ==> names@[j]@ != sym@,
        decreases n - i,
    {
        if names[i] == *sym {
            assert(names_view(names@)[i as int] == sym@);
            return true;
        }
        i = i + 1;
    }
    proof {
        if names_view(names@).contains(sym@) {
            let j = choose|j: int| 0 <= j < names_view(names@).len() && names_view(names@)[j] == sym@;
            assert(names@[j]@ == sym@);
        }
    }
    false
}

/// One specifier of `export { .. }` (see [`export_local_step`]).
fn export_local_step_exec(c: &mut Collected, before: &Vec<Node>, execute: &mut Vec<Node>, sp: Node)
    ensures
        acc_matches(*final(c), before@, final(execute)@, export_local_step(acc_of(*old(c), before@, old(execute)@), sp@)),
{
    let ghost spv = sp@;
    let kind = sp.kind;
    let mut kids = into_children(sp);
    if kind == Kind::ExportNamedSpecifier && kids.len() == 2 {
        let orig = take_first(&mut kids);
        let exported = take_first(&mut kids);
        let (orig_sym, ctxt) = export_name_of(&orig);
        let name = if exported.kind == Kind::Absent {
            orig_sym.clone()
        } else {
            export_name_of(&exported).0
        };
        if has_ident_named_exec(&c.root_fn_decl_idents, &orig_sym) {
            let ghost e0 = c.exports@;
            c.exports.push((name.clone(), new_export_expr(clone_node(&orig))));
            assert(exports_view(c.exports@) =~= exports_view(e0).push((name@, export_expr(orig@))));
        }
        if contains_name(&c.import_ident_names, &orig_sym) {
            let value = if exported.kind == Kind::Absent {
                new_export_expr(clone_node(&orig))
            } else {
                new_export_expr(clone_node(&exported))
            };
            push_node(execute, new_expr_stmt(new_export_call(orig_sym.clone(), dummy_span(), new_as_arg(value))));
        }
        c.export_map.add(ExportKey { sym: orig_sym, ctxt }, name);
    }
}

/// The specifiers of `export { .. }` (see [`export_local_specs`]).
fn export_local_exec(c: &mut Collected, before: &Vec<Node>, execute: &mut Vec<Node>, sps: Vec<Node>)
    ensures
        acc_matches(*final(c), before@, final(execute)@, export_local_specs(acc_of(*old(c), before@, old(execute)@), nodes_view(sps@))),
{
    let ghost spv = nodes_view(sps@);
    let ghost acc0 = acc_of(*c, before@, execute@);
    let mut sps = sps;
    let n = sps.len();
    let mut i: usize = 0;
    proof {
        lemma_nodes_view(sps@);
        assert(spv.take(0) =~= Seq::<SNode>::empty());
    }
    while i < n
        invariant
            i <= n,
            spv.len() == n,
            nodes_view(sps@) == spv.skip(i as int),
            sps@.len() == n - i,
            acc_matches(*c, before@, execute@, export_local_specs(acc0, spv.take(i as int))),
        decreases n - i,
    {
        let sp = take_first(&mut sps);
        proof {
            assert(spv.take(i + 1).drop_last() =~= spv.take(i as int));
            assert(spv.skip(i as int)[0] == spv[i as int]);
            assert(nodes_view(sps@) =~= spv.skip(i + 1));
        }
        export_local_step_exec(c, before, execute, sp);
        i = i + 1;
    }
    proof {
        assert(spv.take(n as int) =~= spv);
    }
}

/// Records the bindings of `bs` as exported under their own names (see [`export_names_of`]).
fn export_names_exec(map: &mut ExportMap, bs: &Vec<Binding>)
    ensures
        final(map).spec_map() == export_names_of(old(map).spec_map(), bindings_view(bs@)),
{
    let ghost bv = bindings_view(bs@);
    let ghost m0 = map.spec_map();
    let n = bs.len();
    let mut i: usize = 0;
    proof {
        assert(bv.take(0) =~= Seq::<(Seq<char>, u32, u32)>::empty());
    }
    while i < n
        invariant
            i <= n,
            n == bs@.len(),
            bv == bindings_view(bs@),
            map.spec_map() == export_names_of(m0, bv.take(i as int)),
        decreases n - i,
    {
        proof {
            assert(bv.take(i + 1).drop_last() =~= bv.take(i as int));
        }
        map.add(ExportKey { sym: bs[i].sym.clone(), ctxt: Some(bs[i].ctxt) }, bs[i].sym.clone());
        i = i + 1;
    }
    proof {
        assert(bv.take(n as int) =~= bv);
    }
}

/// Records the bindings of the declarators of `d` (see [`export_var_bindings`]).
fn export_var_bindings_exec(map: &mut ExportMap, d: &Node)
    ensures
        final(map).spec_map() == export_var_bindings(old(map).spec_map(), decls_of(d@)),
{
    proof {
        lemma_nodes_view(d.children@);
    }
    if d.children.len() == 0 {
        assert(decls_of(d@) =~= Seq::<SNode>::empty());
        return;
    }
    let list = &d.children[0];
    let ghost dv = nodes_view(list.children@);
    let ghost m0 = map.spec_map();
    proof {
        lemma_nodes_view(list.children@);
        assert(dv.take(0) =~= Seq::<SNode>::empty());
    }
    let n = list.children.len();
    let mut i: usize = 0;
    while i < n
        invariant
            i <= n,
            n == list.children@.len(),
            dv == nodes_view(list.children@),
            dv.len() == n,
            forall|j: int| 0 <= j < n ==> #[trigger] dv[j] == node_view(list.children@[j]),
            map.spec_map() == export_var_bindings(m0, dv.take(i as int)),
        decreases n - i,
    {
        let decl = &list.children[i];
        proof {
            assert(dv.take(i + 1).drop_last() =~= dv.take(i as int));
            lemma_nodes_view(decl.children@);
        }
        let bs = if decl.children.len() >= 1 {
            collect_bindings(&decl.children[0])
        } else {
            let v = Vec::new();
            assert(bindings_view(v@) =~= Seq::empty());
            v
        };
        export_names_exec(map, &bs);
        i = i + 1;
    }
    proof {
        assert(dv.take(n as int) =~= dv);
    }
}

/// `export class|function|var ..` (see [`process_export_decl`]).
fn process_export_decl_exec(c: &mut Collected, before: &mut Vec<Node>, execute: &mut Vec<Node>, d: Node)
    ensures
        acc_matches(*final(c), final(before)@, final(execute)@, process_export_decl(acc_of(*old(c), old(before)@, old(execute)@), d@)),
{
    let ghost dv = d@;
    proof {
        lemma_nodes_view(d.children@);
    }
    match d.kind {
        Kind::ClassDecl => {
            if d.children.len() == 2 {
                let mut kids = into_children(d);
                let ident = take_first(&mut kids);
                let class = take_first(&mut kids);
                let ghost e0 = c.exports@;
                c.exports.push((ident.sym.clone(), new_undefined_expr(dummy_span())));
                assert(exports_view(c.exports@) =~= exports_view(e0).push((ident@.sym, undefined_expr(dummy_sp()))));
                push_node(&mut c.declare_var_idents, clone_node(&ident));
                c.export_map.add(ExportKey { sym: ident.sym.clone(), ctxt: Some(ident.span.ctxt) }, ident.sym.clone());
                let ce = new_class_expr(clone_node(&ident), class);
                push_node(execute, new_class_assign(ident, ce));
            }
        },
        Kind::FnDecl => {
            if d.children.len() == 2 {
                let ident = clone_node(&d.children[0]);
                let ghost e0 = c.exports@;
                c.exports.push((ident.sym.clone(), set_kind(clone_node(&ident), Kind::ExprIdent)));
                assert(exports_view(c.exports@) =~= exports_view(e0).push((ident@.sym, with_kind(ident@, Kind::ExprIdent))));
                c.export_map.add(ExportKey { sym: ident.sym.clone(), ctxt: Some(ident.span.ctxt) }, ident.sym.clone());
                push_node(before, d);
            }
        },
        Kind::VarDecl { .. } => {
            export_var_bindings_exec(&mut c.export_map, &d);
            push_node(execute, d);
        },
        _ => {},
    }
}

/// `export default class|function ..` (see [`process_export_default_decl`]).
fn process_export_default_decl_exec(c: &mut Collected, before: &mut Vec<Node>, execute: &mut Vec<Node>, d: Node)
    ensures
        acc_matches(*final(c), final(before)@, final(execute)@, process_export_default_decl(acc_of(*old(c), old(before)@, old(execute)@), d@)),
{
    let ghost dv = d@;
    proof {
        lemma_nodes_view(d.children@);
    }
    let is_class = d.kind == Kind::ClassExpr;
    let is_fn = d.kind == Kind::FnExpr;
    if (is_class || is_fn) && d.children.len() == 2 {
        if d.children[0].kind != Kind::Absent {
            let ident = clone_node(&d.children[0]);
            if is_class {
                let ghost e0 = c.exports@;
                c.exports.push(("default".to_string(), new_undefined_expr(dummy_span())));
                assert(exports_view(c.exports@) =~= exports_view(e0).push(("default"@, undefined_expr(dummy_sp()))));
                push_node(&mut c.declare_var_idents, clone_node(&ident));
                c.export_map.add(ExportKey { sym: ident.sym.clone(), ctxt: Some(ident.span.ctxt) }, "default".to_string());
                push_node(execute, new_class_assign(ident, d));
            } else {
                let ghost e0 = c.exports@;
                c.exports.push(("default".to_string(), set_kind(clone_node(&ident), Kind::ExprIdent)));
                assert(exports_view(c.exports@) =~= exports_view(e0).push(("default"@, with_kind(ident@, Kind::ExprIdent))));
                c.export_map.add(ExportKey { sym: ident.sym.clone(), ctxt: Some(ident.span.ctxt) }, "default".to_string());
                let mut kids = into_children(d);
                let _ = take_first(&mut kids);
                let function = take_first(&mut kids);
                push_node(before, new_node(Kind::FnDecl, dummy_span(), vec2(ident, function)));
            }
        } else {
            let ghost e0 = c.exports@;
            c.exports.push(("default".to_string(), d));
            assert(exports_view(c.exports@) =~= exports_view(e0).push(("default"@, dv)));
        }
    }
}

/// One item of a module's body (see [`process_item`]).
pub fn process_item_exec(c: &mut Collected, before: &mut Vec<Node>, execute: &mut Vec<Node>, item: Node, src: String)
    ensures
        acc_matches(*final(c), final(before)@, final(execute)@, process_item(acc_of(*old(c), old(before)@, old(execute)@), item@, src@)),
{
    let ghost iv = item@;
    proof {
        lemma_nodes_view(item.children@);
    }
    match item.kind {
        Kind::ImportDecl => {
            if item.children.len() == 3 {
                process_import_exec(c, item, src);
            }
        },
        Kind::NamedExport => {
            if item.children.len() == 3 {
                let mut kids = into_children(item);
                let list = take_first(&mut kids);
                let from = take_first(&mut kids);
                let sps = into_children(list);
                if from.kind != Kind::Absent {
                    export_from_exec(&mut c.module_item_meta_list, &src, sps);
                } else {
                    export_local_exec(c, before, execute, sps);
                }
            }
        },
        Kind::ExportDecl => {
            if item.children.len() == 1 {
                let mut kids = into_children(item);
                let d = take_first(&mut kids);
                process_export_decl_exec(c, before, execute, d);
            }
        },
        Kind::ExportDefaultDecl => {
            if item.children.len() == 1 {
                let mut kids = into_children(item);
                let d = take_first(&mut kids);
                process_export_default_decl_exec(c, before, execute, d);
            }
        },
        Kind::ExportDefaultExpr => {
            if item.children.len() == 1 {
                let span = item.span;
                let mut kids = into_children(item);
                let e = take_first(&mut kids);
                push_node(execute, new_expr_stmt(new_export_call("default".to_string(), span, new_as_arg(e))));
            }
        },
        Kind::ExportAll => {
            if item.children.len() == 2 {
                let mut kids = into_children(item);
                let s = take_first(&mut kids);
                let meta = ModuleItemMeta { exports: Vec::new(), has_export_all: true, src: s.sym, stmts: Vec::new() };
                proof {
                    assert(nodes_view(Seq::<Node>::empty()) =~= Seq::<SNode>::empty());
                    assert(exports_view(Seq::<(String, Node)>::empty()) =~= Seq::empty());
                }
                add_module_item_meta(&mut c.module_item_meta_list, meta);
            }
        },
        Kind::OpaqueModuleDecl => {},
        Kind::ClassDecl => {
            if item.children.len() == 2 {
                let mut kids = into_children(item);
                let ident = take_first(&mut kids);
                let class = take_first(&mut kids);
                push_node(&mut c.declare_var_idents, clone_node(&ident));
                let ce = new_class_expr(clone_node(&ident), class);
                push_node(execute, new_class_assign(ident, ce));
            } else {
                push_node(execute, item);
            }
        },
        Kind::FnDecl => {
            push_node(before, item);
        },
        _ => {
            push_node(execute, item);
        },
    }
}

impl Collected {
    /// Nothing collected yet.
    pub fn new() -> (r: Collected)
        ensures
            r@ == empty_collected(),
    {
        let r = Collected {
            declare_var_idents: Vec::new(),
            export_map: ExportMap::new(),
            exports: Vec::new(),
            root_fn_decl_idents: Vec::new(),
            module_item_meta_list: Vec::new(),
            import_ident_names: Vec::new(),
        };
        proof {
            assert(nodes_view(Seq::<Node>::empty()) =~= Seq::<SNode>::empty());
            assert(exports_view(Seq::<(String, Node)>::empty()) =~= Seq::empty());
            assert(metas_view(Seq::<ModuleItemMeta>::empty()) =~= Seq::empty());
            assert(names_view(Seq::<String>::empty()) =~= Seq::empty());
        }
        r
    }
}

/// The state before any module: nothing declared, exported or imported.
pub open spec fn empty_collected() -> SCollected {
    SCollected {
        declare_var_idents: Seq::empty(),
        export_map: Map::empty(),
        exports: Seq::empty(),
        root_fn_decl_idents: Seq::empty(),
        metas: Seq::empty(),
        import_ident_names: Seq::empty(),
    }
}

/// Appends the identifiers of the top-level function declarations of `items`
/// (see [`root_fn_idents`]).
pub fn collect_root_fn_idents(idents: &mut Vec<Node>, items: &Vec<Node>)
    ensures
        nodes_view(final(idents)@) == nodes_view(old(idents)@) + root_fn_idents(nodes_view(items@)),
{
    let ghost iv = nodes_view(items@);
    let ghost base = nodes_view(idents@);
    proof {
        lemma_nodes_view(items@);
        assert(iv.take(0) =~= Seq::<SNode>::empty());
        assert(base + Seq::<SNode>::empty() =~= base);
    }
    let n = items.len();
    let mut i: usize = 0;
    while i < n
        invariant
            i <= n,
            n == items@.len(),
            iv == nodes_view(items@),
            iv.len() == n,
            forall|j: int| 0 <= j < n ==> #[trigger] iv[j] == node_view(items@[j]),
            nodes_view(idents@) == base + root_fn_idents(iv.take(i as int)),
        decreases n - i,
    {
        let item = &items[i];
        proof {
            assert(iv.take(i + 1).drop_last() =~= iv.take(i as int));
            assert(iv.take(i + 1).last() == item@);
            lemma_nodes_view(item.children@);
        }
        if item.kind == Kind::FnDecl && item.children.len() >= 1 {
            let ghost before = nodes_view(idents@);
            push_node(idents, clone_node(&item.children[0]));
            proof {
                assert(base + root_fn_idents(iv.take(i as int)).push(item@.children[0]) =~= (base + root_fn_idents(iv.take(i as int))).push(item@.children[0]));
            }
        }
        i = i + 1;
    }
    proof {
        assert(iv.take(n as int) =~= iv);
    }
}

pub proof fn lemma_resolve_targets_take(items: Seq<SNode>, i: int)
    requires
        0 <= i < items.len(),
    ensures
        resolve_targets(items.take(i + 1)) == if resolves(items[i]) {
            resolve_targets(items.take(i)).push(items[i].children[1].sym)
        } else {
            resolve_targets(items.take(i))
        },
        resolve_targets(items.take(i)).len() <= resolve_targets(items).len(),
    decreases items.len(),
{
    assert(items.take(i + 1).drop_last() =~= items.take(i));
    if i + 1 < items.len() {
        lemma_resolve_targets_take(items.drop_last(), i);
        assert(items.drop_last().take(i + 1) =~= items.take(i + 1));
        assert(items.drop_last().take(i) =~= items.take(i));
        assert(items.drop_last()[i] == items[i]);
    } else {
        assert(items.take(i + 1) =~= items);
    }
    lemma_resolve_targets_prefix_len(items, i + 1);
}

pub proof fn lemma_resolve_targets_prefix_len(items: Seq<SNode>, i: int)
    requires
        0 <= i <= items.len(),
    ensures
        resolve_targets(items.take(i)).len() <= resolve_targets(items).len(),
        i < items.len() ==> resolve_targets(items.take(i)).len() <= resolve_targets(items.take(i + 1)).len(),
    decreases items.len(),
{
    if i < items.len() {
        assert(items.take(i + 1).drop_last() =~= items.take(i));
        lemma_resolve_targets_prefix_len(items.drop_last(), i);
        assert(items.drop_last().take(i) =~= items.take(i));
    } else {
        assert(items.take(i) =~= items);
    }
}

/// The items of a module body in order (see [`process_items`]); `resolved`
/// holds the resolved sources of the items that [`resolves`].
pub fn process_items_exec(
    c: &mut Collected,
    before: &mut Vec<Node>,
    execute: &mut Vec<Node>,
    items: Vec<Node>,
    resolved: Vec<String>,
)
    requires
        resolved@.len() == resolve_targets(nodes_view(items@)).len(),
    ensures
        acc_matches(
            *final(c),
            final(before)@,
            final(execute)@,
            process_items(acc_of(*old(c), old(before)@, old(execute)@), nodes_view(items@), names_view(resolved@)),
        ),
{
    let ghost iv = nodes_view(items@);
    let ghost rv = names_view(resolved@);
    let ghost acc0 = acc_of(*c, before@, execute@);
    let mut items = items;
    let n = items.len();
    let mut i: usize = 0;
    let mut k: usize = 0;
    let rlen = resolved.len();
    proof {
        lemma_nodes_view(items@);
        assert(iv.take(0) =~= Seq::<SNode>::empty());
        assert(resolve_targets(iv.take(0)) =~= Seq::<Seq<char>>::empty());
    }
    while i < n
        invariant
            i <= n,
            iv.len() == n,
            nodes_view(items@) == iv.skip(i as int),
            items@.len() == n - i,
            rv == names_view(resolved@),
            rv.len() == resolve_targets(iv).len(),
            rlen == rv.len(),
            k == resolve_targets(iv.take(i as int)).len(),
            k <= rv.len(),
            acc_matches(*c, before@, execute@, process_items(acc0, iv.take(i as int), rv.take(k as int))),
        decreases n - i,
    {
        let item = take_first(&mut items);
        proof {
            assert(iv.skip(i as int)[0] == iv[i as int]);
            assert(nodes_view(items@) =~= iv.skip(i + 1));
            lemma_resolve_targets_take(iv, i as int);
            assert(iv.take(i + 1).drop_last() =~= iv.take(i as int));
            assert(iv.take(i + 1).last() == iv[i as int]);
        }
        let ghost r_before = resolve_targets(iv.take(i as int));
        let takes = (item.kind == Kind::ImportDecl && item.children.len() == 3) || (item.kind == Kind::NamedExport
            && item.children.len() == 3 && item.children[1].kind != Kind::Absent);
        proof {
            lemma_nodes_view(item.children@);
            assert(takes == resolves(item@));
        }
        proof {
            lemma_resolve_targets_prefix_len(iv, i + 1);
            assert(takes ==> k < rv.len());
        }
        let src = if takes {
            resolved[k].clone()
        } else {
            String::new()
        };
        proof {
            let k1 = resolve_targets(iv.take(i + 1)).len() as int;
            assert(rv.take(k1).take(k as int) =~= rv.take(k as int));
            if takes {
                assert(rv.take(k1)[k as int] == rv[k as int]);
            }
        }
        process_item_exec(c, before, execute, item, src);
        if takes {
            k = k + 1;
        }
        i = i + 1;
    }
    proof {
        assert(iv.take(n as int) =~= iv);
        assert(rv.take(k as int) =~= rv);
    }
}

/// No statement of `s` is one whose hoisting the transform rejects.
pub open spec fn none_rejected(s: Seq<SNode>) -> bool {
    forall|i: int| 0 <= i < s.len() ==> !#[trigger] hoist_rejects(s[i])
}

proof fn lemma_none_rejected_push(s: Seq<SNode>, x: SNode)
    requires
        none_rejected(s),
        !hoist_rejects(x),
    ensures
        none_rejected(s.push(x)),
{
    assert forall|i: int| 0 <= i < s.push(x).len() implies !#[trigger] hoist_rejects(s.push(x)[i]) by {
        if i < s.len() {
            assert(s.push(x)[i] == s[i]);
        }
    }
}

proof fn lemma_export_local_specs_execute(acc: SItemAcc, sps: Seq<SNode>)
    requires
        none_rejected(acc.execute),
    ensures
        none_rejected(export_local_specs(acc, sps).execute),
    decreases sps.len(),
{
    if sps.len() > 0 {
        lemma_export_local_specs_execute(acc, sps.drop_last());
        let a1 = export_local_specs(acc, sps.drop_last());
        let sp = sps.last();
        if sp.kind == Kind::ExportNamedSpecifier && sp.children.len() == 2 {
            let orig_sym = export_name(sp.children[0]).0;
            if a1.c.import_ident_names.contains(orig_sym) {
                let x = expr_stmt(
                    export_call(
                        orig_sym,
                        dummy_sp(),
                        as_arg(export_expr(if sp.children[1].kind == Kind::Absent { sp.children[0] } else { sp.children[1] })),
                    ),
                );
                lemma_none_rejected_push(a1.execute, x);
            }
        }
    }
}

proof fn lemma_process_item_execute(acc: SItemAcc, item: SNode, src: Seq<char>)
    requires
        none_rejected(acc.execute),
        !hoist_rejects(item),
    ensures
        none_rejected(process_item(acc, item, src).execute),
{
    let c = acc.c;
    match item.kind {
        Kind::NamedExport => {
            if item.children.len() == 3 && item.children[1].kind == Kind::Absent {
                lemma_export_local_specs_execute(acc, item.children[0].children);
            }
        },
        Kind::ExportDecl => {
            if item.children.len() == 1 {
                let d = item.children[0];
                match d.kind {
                    Kind::ClassDecl => {
                        if d.children.len() == 2 {
                            lemma_none_rejected_push(
                                acc.execute,
                                class_assign(d.children[0], class_expr(d.children[0], d.children[1])),
                            );
                        }
                    },
                    Kind::VarDecl { .. } => {
                        lemma_none_rejected_push(acc.execute, d);
                    },
                    _ => {},
                }
            }
        },
        Kind::ExportDefaultDecl => {
            if item.children.len() == 1 {
                let d = item.children[0];
                if d.kind == Kind::ClassExpr && d.children.len() == 2 && d.children[0].kind != Kind::Absent {
                    lemma_none_rejected_push(acc.execute, class_assign(d.children[0], d));
                }
            }
        },
        Kind::ExportDefaultExpr => {
            if item.children.len() == 1 {
                lemma_none_rejected_push(
                    acc.execute,
                    expr_stmt(export_call("default"@, item.span, as_arg(item.children[0]))),
                );
            }
        },
        Kind::ClassDecl => {
            if item.children.len() == 2 {
                lemma_none_rejected_push(
                    acc.execute,
                    class_assign(item.children[0], class_expr(item.children[0], item.children[1])),
                );
            } else {
                lemma_none_rejected_push(acc.execute, item);
            }
        },
        Kind::ImportDecl | Kind::ExportAll | Kind::OpaqueModuleDecl | Kind::FnDecl => {},
        _ => {
            lemma_none_rejected_push(acc.execute, item);
        },
    }
}

/// The statements that the items of a module contribute to `execute` are the
/// items themselves or generated expression statements and declarations, so
/// none is rejected by hoisting where no item is.
pub proof fn lemma_process_items_execute(acc: SItemAcc, items: Seq<SNode>, resolved: Seq<Seq<char>>)
    requires
        none_rejected(acc.execute),
        none_rejected(items),
    ensures
        none_rejected(process_items(acc, items, resolved).execute),
    decreases items.len(),
{
    if items.len() > 0 {
        let k = resolve_targets(items.drop_last()).len() as int;
        assert(none_rejected(items.drop_last())) by {
            assert forall|i: int| 0 <= i < items.drop_last().len() implies !#[trigger] hoist_rejects(items.drop_last()[i]) by {
                assert(items.drop_last()[i] == items[i]);
            }
        }
        lemma_process_items_execute(acc, items.drop_last(), resolved.take(k));
        assert(!hoist_rejects(items[items.len() - 1]));
        lemma_process_item_execute(
            process_items(acc, items.drop_last(), resolved.take(k)),
            items.last(),
            if resolves(items.last()) { resolved[k] } else { Seq::empty() },
        );
    }
}

} // verus!

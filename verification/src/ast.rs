//! A uniform model of the ECMAScript syntax tree that the SystemJS transform
//! works on.
//!
//! Every node of the tree is a [`Node`]: a [`Kind`] (the syntax form, named
//! after the form's type in the ECMAScript AST), the scalar data of that form
//! and its children.  The children of a node are the non-scalar fields of the
//! form, in the order in which the form declares them; an absent optional field
//! is an [`Kind::Absent`] node and a list field is a [`Kind::List`] node whose
//! children are the list's elements.  Forms that the transform neither inspects
//! nor descends into (type annotations and other TypeScript types, TypeScript
//! declarations) are [`Kind::Opaque`] leaves.  Forms that it does not inspect
//! but whose expressions it rewrites (TypeScript `as`, `!`, `as const` and
//! instantiation expressions, JSX elements and fragments) are
//! [`Kind::Carried`] nodes whose children are those expressions.
//!
//! The number of children of each kind is fixed (see [`arity`]); the transform
//! treats a node whose children do not have that number as a form it does not
//! recognise.
use vstd::prelude::*;

verus! {

/// The kind of a variable declaration.
#[derive(Debug, PartialEq, Eq, Structural, Clone, Copy)]
pub enum VarDeclKind {
    Var,
    Let,
    Const,
}

/// The kind of a meta property expression.
#[derive(Debug, PartialEq, Eq, Structural, Clone, Copy)]
pub enum MetaPropKind {
    NewTarget,
    ImportMeta,
}

/// The syntax form of a node.
///
/// Children are listed as `[..]` in field order.  `text` is the node's `sym`
/// field, `opt` its `raw` field.
#[derive(Debug, PartialEq, Eq, Structural, Clone, Copy)]
pub enum Kind {
    /// The root: `[body: List]`; `raw` holds the shebang.
    Module,
    /// A list of nodes: its children are the elements.
    List,
    /// An absent optional field.
    Absent,
    /// A token that only carries a span (`...`, `?.`, `await` of `for await`).
    Token,
    /// A form that the transform carries unchanged and does not descend into.
    Opaque,
    /// A form that the transform carries unchanged apart from the expressions
    /// inside it: its children are those expressions, in source order.
    Carried,
    /// A module declaration that the transform drops (TypeScript module declarations).
    OpaqueModuleDecl,
    /// An identifier outside of expression position: `sym` is its name.
    Ident,
    /// An identifier expression: `sym` is its name.
    ExprIdent,
    /// `#name`: `[id: Ident]`.
    PrivateName,
    /// A string literal: `sym` is its value, `raw` its source text.
    Str,
    /// A boolean literal: `bits` is its value.
    Bool,
    /// `null`.
    Null,
    /// A numeric literal: `sym` is its value in decimal notation, `raw` its source text.
    Number,
    /// A BigInt literal: `sym` is its value in decimal notation, `raw` its source text.
    BigInt,
    /// A regular expression literal: `sym` is its pattern, `raw` its flags.
    Regex,
    /// `this`.
    ThisExpr,
    /// `[elems: List of (Absent | ExprOrSpread)]`.
    ArrayLit,
    /// `[props: List of (SpreadElement | property)]`.
    ObjectLit,
    /// `[dot3: Token, expr]`.
    SpreadElement,
    /// `[spread: Absent | Token, expr]`.
    ExprOrSpread,
    /// `[ident: Absent | Ident, function: Function]`.
    FnExpr,
    /// `[ident: Absent | Ident, class: Class]`.
    ClassExpr,
    /// `[arg]`; `sym` is the operator.
    UnaryExpr,
    /// `[arg]`; `sym` is the operator.
    UpdateExpr { prefix: bool },
    /// `[left, right]`; `sym` is the operator.
    BinExpr,
    /// `[left: pattern | expression, right]`; `sym` is the operator.
    AssignExpr,
    /// `[obj, prop: Ident | PrivateName | ComputedPropName]`.
    MemberExpr,
    /// `[obj: Super, prop: Ident | ComputedPropName]`.
    SuperPropExpr,
    /// `super`.
    Super,
    /// The callee `import` of a dynamic import.
    Import,
    /// `[expr]`.
    ComputedPropName,
    /// `[test, cons, alt]`.
    CondExpr,
    /// `[callee: Super | Import | expression, args: List of ExprOrSpread, type_args]`.
    CallExpr,
    /// `[callee, args: Absent | List of ExprOrSpread, type_args]`.
    NewExpr,
    /// `[exprs: List]`.
    SeqExpr,
    /// `[exprs: List, quasis: List of TplElement]`.
    Tpl,
    /// A template element: `sym` is its raw text, `raw` its cooked text.
    TplElement,
    /// `[tag, type_params, tpl: Tpl]`.
    TaggedTpl,
    /// `[params: List, body: BlockStmt | expression, type_params, return_type]`.
    ArrowExpr,
    /// `[arg: Absent | expression]`.
    YieldExpr,
    /// `new.target` or `import.meta`.
    MetaPropExpr { meta_kind: MetaPropKind },
    /// `[arg]`.
    AwaitExpr,
    /// `[expr]`.
    ParenExpr,
    /// `[question_dot: Token, base: MemberExpr | OptCall]`.
    OptChainExpr,
    /// `[callee, args: List of ExprOrSpread, type_args]`.
    OptCall,
    /// An invalid expression.
    InvalidExpr,
    /// A shorthand property `{ a }`: `sym` is the name.
    PropShorthand,
    /// `[key, value]`.
    KeyValueProp,
    /// `[key: Ident, value]`.
    AssignProp,
    /// `[key, type_ann, body: Absent | BlockStmt]`.
    GetterProp,
    /// `[key, param, body: Absent | BlockStmt]`.
    SetterProp,
    /// `[key, function: Function]`.
    MethodProp,
    /// A binding identifier: `sym` is the name; `[type_ann]`.
    BindingIdent,
    /// `[elems: List of (Absent | pattern), type_ann]`.
    ArrayPat,
    /// `[props: List, type_ann]`.
    ObjectPat,
    /// `[left, right, type_ann]`.
    AssignPat,
    /// `[dot3: Token, arg, type_ann]`.
    RestPat,
    /// `[key, value]`.
    KeyValuePatProp,
    /// `[key: Ident, value: Absent | expression]`.
    AssignPatProp,
    /// An invalid pattern.
    InvalidPat,
    /// An expression in pattern position: `[expr]`.
    PatExpr,
    /// `[params: List of Param, decorators: List, body: Absent | BlockStmt, type_params, return_type]`.
    Function { is_async: bool },
    /// `[decorators: List, pat]`.
    Param,
    /// `[expr]`.
    Decorator,
    /// `[decorators: List, body: List, super_class: Absent | expression, type_params, super_type_params, implements: List]`.
    Class,
    /// `[key, function: Function]`.
    ClassMethod,
    /// `[key: PrivateName, function: Function]`.
    PrivateMethod,
    /// `[key, value: Absent | expression, type_ann, decorators: List]`.
    ClassProp,
    /// `[key: PrivateName, value: Absent | expression, type_ann, decorators: List]`.
    PrivateProp,
    /// `[key, params: List, body: Absent | BlockStmt]`.
    Constructor,
    /// `[body: BlockStmt]`.
    StaticBlock,
    /// `[stmts: List]`.
    BlockStmt,
    /// `;`.
    EmptyStmt,
    /// `debugger`.
    DebuggerStmt,
    /// `[obj, body]`.
    WithStmt,
    /// `[arg: Absent | expression]`.
    ReturnStmt,
    /// `[label: Ident, body]`.
    LabeledStmt,
    /// `[label: Absent | Ident]`.
    BreakStmt,
    /// `[label: Absent | Ident]`.
    ContinueStmt,
    /// `[test, cons, alt: Absent | statement]`.
    IfStmt,
    /// `[discriminant, cases: List of SwitchCase]`.
    SwitchStmt,
    /// `[test: Absent | expression, cons: List]`.
    SwitchCase,
    /// `[arg]`.
    ThrowStmt,
    /// `[block: BlockStmt, handler: Absent | CatchClause, finalizer: Absent | BlockStmt]`.
    TryStmt,
    /// `[param: Absent | pattern, body: BlockStmt]`.
    CatchClause,
    /// `[test, body]`.
    WhileStmt,
    /// `[test, body]`.
    DoWhileStmt,
    /// `[init: Absent | VarDecl | expression, test: Absent | expression, update: Absent | expression, body]`.
    ForStmt,
    /// `[left: VarDecl | pattern, right, body]`.
    ForInStmt,
    /// `[await_token: Absent | Token, left: VarDecl | pattern, right, body]`.
    ForOfStmt,
    /// `[expr]`.
    ExprStmt,
    /// `[ident: Ident, function: Function]`.
    FnDecl,
    /// `[ident: Ident, class: Class]`.
    ClassDecl,
    /// `[decls: List of VarDeclarator]`.
    VarDecl { var_kind: VarDeclKind },
    /// `[name: pattern, init: Absent | expression]`.
    VarDeclarator,
    /// `[specifiers: List, src: Str, asserts: Absent | ObjectLit]`.
    ImportDecl,
    /// `[local: Ident, imported: Absent | Ident | Str]`.
    ImportNamedSpecifier,
    /// `[local: Ident]`.
    ImportDefaultSpecifier,
    /// `[local: Ident]`.
    ImportStarAsSpecifier,
    /// `[decl]`.
    ExportDecl,
    /// `[specifiers: List, src: Absent | Str, asserts: Absent | ObjectLit]`.
    NamedExport,
    /// `[orig: Ident | Str, exported: Absent | Ident | Str]`.
    ExportNamedSpecifier,
    /// `[exported: Ident]`.
    ExportDefaultSpecifier,
    /// `[name: Ident | Str]`.
    ExportNamespaceSpecifier,
    /// `[decl: ClassExpr | FnExpr | Opaque]`.
    ExportDefaultDecl,
    /// `[expr]`.
    ExportDefaultExpr,
    /// `[src: Str, asserts: Absent | ObjectLit]`.
    ExportAll,
}

/// A source position range and the syntax context of a node.
#[derive(Debug, PartialEq, Eq, Structural, Clone, Copy)]
pub struct Span {
    pub lo: u32,
    pub hi: u32,
    pub ctxt: u32,
}

/// A node of the syntax tree.
#[derive(Debug)]
pub struct Node {
    pub kind: Kind,
    /// The name, value, operator or text of the node (empty where the kind has none).
    pub sym: String,
    /// The second text of the node, where its kind has one.
    pub raw: Option<String>,
    pub span: Span,
    /// The outermost mark of the syntax context of an identifier.
    pub mark: u32,
    /// Further flags of the form, carried unchanged.
    pub bits: u32,
    pub children: Vec<Node>,
}

/// The mathematical value of a [`Node`].
pub struct SNode {
    pub kind: Kind,
    pub sym: Seq<char>,
    pub raw: Option<Seq<char>>,
    pub span: Span,
    pub mark: u32,
    pub bits: u32,
    pub children: Seq<SNode>,
}

pub open spec fn opt_str_view(o: Option<String>) -> Option<Seq<char>> {
    match o {
        Some(s) => Some(s@),
        None => None,
    }
}

pub open spec fn node_view(n: Node) -> SNode
    decreases n,
{
    SNode {
        kind: n.kind,
        sym: n.sym@,
        raw: opt_str_view(n.raw),
        span: n.span,
        mark: n.mark,
        bits: n.bits,
        children: nodes_view(n.children@),
    }
}

pub open spec fn nodes_view(s: Seq<Node>) -> Seq<SNode>
    decreases s,
{
    if s.len() == 0 {
        Seq::empty()
    } else {
        nodes_view(s.drop_last()).push(node_view(s.last()))
    }
}

impl View for Node {
    type V = SNode;

    open spec fn view(&self) -> SNode {
        node_view(*self)
    }
}

pub proof fn lemma_nodes_view(s: Seq<Node>)
    ensures
        nodes_view(s).len() == s.len(),
        forall|i: int| 0 <= i < s.len() ==> #[trigger] nodes_view(s)[i] == node_view(s[i]),
    decreases s.len(),
{
    if s.len() > 0 {
        lemma_nodes_view(s.drop_last());
    }
}

pub proof fn lemma_nodes_view_push(s: Seq<Node>, n: Node)
    ensures
        nodes_view(s.push(n)) == nodes_view(s).push(node_view(n)),
{
    assert(s.push(n).drop_last() =~= s);
}

pub proof fn lemma_nodes_view_add(s: Seq<Node>, t: Seq<Node>)
    ensures
        nodes_view(s + t) == nodes_view(s) + nodes_view(t),
{
    lemma_nodes_view(s);
    lemma_nodes_view(t);
    lemma_nodes_view(s + t);
    assert(nodes_view(s + t) =~= nodes_view(s) + nodes_view(t));
}

/// The number of children that a node of kind `k` has, or `None` for a list.
pub open spec fn arity(k: Kind) -> Option<nat> {
    match k {
        Kind::List | Kind::Carried => None,
        Kind::Module | Kind::PrivateName | Kind::ArrayLit | Kind::ObjectLit | Kind::UnaryExpr
        | Kind::UpdateExpr { .. } | Kind::ComputedPropName | Kind::SeqExpr | Kind::YieldExpr
        | Kind::AwaitExpr | Kind::ParenExpr | Kind::BindingIdent | Kind::PatExpr | Kind::Decorator
        | Kind::StaticBlock | Kind::BlockStmt | Kind::ReturnStmt | Kind::BreakStmt
        | Kind::ContinueStmt | Kind::ThrowStmt | Kind::ExprStmt | Kind::VarDecl { .. }
        | Kind::ImportDefaultSpecifier | Kind::ImportStarAsSpecifier | Kind::ExportDecl
        | Kind::ExportDefaultSpecifier | Kind::ExportNamespaceSpecifier | Kind::ExportDefaultDecl
        | Kind::ExportDefaultExpr => Some(1),
        Kind::SpreadElement | Kind::ExprOrSpread | Kind::FnExpr | Kind::ClassExpr | Kind::BinExpr
        | Kind::AssignExpr | Kind::MemberExpr | Kind::SuperPropExpr | Kind::Tpl
        | Kind::OptChainExpr | Kind::KeyValueProp | Kind::AssignProp | Kind::MethodProp
        | Kind::ArrayPat | Kind::ObjectPat | Kind::KeyValuePatProp | Kind::AssignPatProp
        | Kind::Param | Kind::ClassMethod | Kind::PrivateMethod | Kind::WithStmt
        | Kind::LabeledStmt | Kind::SwitchStmt | Kind::SwitchCase | Kind::CatchClause
        | Kind::WhileStmt | Kind::DoWhileStmt | Kind::FnDecl | Kind::ClassDecl
        | Kind::VarDeclarator | Kind::ImportNamedSpecifier | Kind::ExportNamedSpecifier
        | Kind::ExportAll => Some(2),
        Kind::CondExpr | Kind::CallExpr | Kind::NewExpr | Kind::TaggedTpl | Kind::OptCall
        | Kind::GetterProp | Kind::SetterProp | Kind::AssignPat | Kind::RestPat
        | Kind::Constructor | Kind::IfStmt | Kind::TryStmt | Kind::ForInStmt | Kind::ImportDecl
        | Kind::NamedExport => Some(3),
        Kind::ArrowExpr | Kind::ClassProp | Kind::PrivateProp | Kind::ForStmt | Kind::ForOfStmt => Some(4),
        Kind::Function { .. } => Some(5),
        Kind::Class => Some(6),
        _ => Some(0),
    }
}

/// An identifier or a string literal (a module export name).
pub open spec fn is_name_kind(k: Kind) -> bool {
    k == Kind::Ident || k == Kind::Str
}

/// The positions that hold an identifier hold one: the names of declarations
/// and of import and export specifiers.
pub open spec fn positions_ok(n: SNode) -> bool {
    match n.kind {
        Kind::FnDecl | Kind::ClassDecl | Kind::ImportDefaultSpecifier | Kind::ImportStarAsSpecifier
        | Kind::ExportDefaultSpecifier => n.children.len() >= 1 ==> n.children[0].kind == Kind::Ident,
        Kind::ImportNamedSpecifier => n.children.len() == 2 ==> {
            &&& n.children[0].kind == Kind::Ident
            &&& (n.children[1].kind == Kind::Absent || is_name_kind(n.children[1].kind))
        },
        Kind::FnExpr | Kind::ClassExpr => n.children.len() >= 1 ==> (n.children[0].kind == Kind::Absent
            || n.children[0].kind == Kind::Ident),
        Kind::ExportNamedSpecifier => n.children.len() == 2 ==> {
            &&& is_name_kind(n.children[0].kind)
            &&& (n.children[1].kind == Kind::Absent || is_name_kind(n.children[1].kind))
        },
        Kind::ExportNamespaceSpecifier => n.children.len() >= 1 ==> is_name_kind(n.children[0].kind),
        _ => true,
    }
}

/// Every node of the tree has the number of children that its kind asks for,
/// and its identifier positions hold identifiers.
pub open spec fn well_formed(n: SNode) -> bool
    decreases n,
{
    &&& (match arity(n.kind) {
        Some(a) => n.children.len() == a,
        None => true,
    })
    &&& positions_ok(n)
    &&& forall|i: int| 0 <= i < n.children.len() ==> well_formed(#[trigger] n.children[i])
}

/// The kinds of patterns (the forms of the `Pat` type).
pub open spec fn is_pat_kind(k: Kind) -> bool {
    match k {
        Kind::BindingIdent | Kind::ArrayPat | Kind::RestPat | Kind::ObjectPat | Kind::AssignPat
        | Kind::InvalidPat | Kind::PatExpr => true,
        _ => false,
    }
}

pub fn kind_is_pat(k: Kind) -> (r: bool)
    ensures
        r == is_pat_kind(k),
{
    match k {
        Kind::BindingIdent | Kind::ArrayPat | Kind::RestPat | Kind::ObjectPat | Kind::AssignPat
        | Kind::InvalidPat | Kind::PatExpr => true,
        _ => false,
    }
}

// ---------------------------------------------------------------------------
// Constructors
// ---------------------------------------------------------------------------

/// The span of generated code.
pub open spec fn dummy_sp() -> Span {
    Span { lo: 0, hi: 0, ctxt: 0 }
}

pub fn dummy_span() -> (r: Span)
    ensures
        r == dummy_sp(),
{
    Span { lo: 0, hi: 0, ctxt: 0 }
}

/// A node of kind `kind` with the given span and children and no scalar data.
pub open spec fn mk(kind: Kind, span: Span, children: Seq<SNode>) -> SNode {
    SNode { kind, sym: Seq::empty(), raw: None, span, mark: 0, bits: 0, children }
}

/// A node of kind `kind` with text `sym`, the given span and no children.
pub open spec fn mk_text(kind: Kind, sym: Seq<char>, span: Span) -> SNode {
    SNode { kind, sym, raw: None, span, mark: 0, bits: 0, children: Seq::empty() }
}

/// An absent optional field.
pub open spec fn absent() -> SNode {
    mk(Kind::Absent, dummy_sp(), Seq::empty())
}

/// A list node.
pub open spec fn list(items: Seq<SNode>) -> SNode {
    mk(Kind::List, dummy_sp(), items)
}

/// A generated identifier of kind `kind` (`Ident`, `ExprIdent`).
pub open spec fn quote_ident(kind: Kind, sym: Seq<char>) -> SNode {
    mk_text(kind, sym, dummy_sp())
}

/// A generated binding identifier without a type annotation.
pub open spec fn binding_ident(sym: Seq<char>) -> SNode {
    SNode {
        kind: Kind::BindingIdent,
        sym,
        raw: None,
        span: dummy_sp(),
        mark: 0,
        bits: 0,
        children: seq![absent()],
    }
}

/// A generated string literal.
pub open spec fn str_lit(value: Seq<char>) -> SNode {
    mk_text(Kind::Str, value, dummy_sp())
}

/// A generated numeric literal.
pub open spec fn num_lit(value: Seq<char>, span: Span) -> SNode {
    mk_text(Kind::Number, value, span)
}

/// `expr` as a call argument.
pub open spec fn as_arg(expr: SNode) -> SNode {
    mk(Kind::ExprOrSpread, dummy_sp(), seq![absent(), expr])
}

/// `expr;`.
pub open spec fn expr_stmt(expr: SNode) -> SNode {
    mk(Kind::ExprStmt, dummy_sp(), seq![expr])
}

/// `obj.prop` with an identifier property.
pub open spec fn member(obj: SNode, prop: Seq<char>) -> SNode {
    mk(Kind::MemberExpr, dummy_sp(), seq![obj, quote_ident(Kind::Ident, prop)])
}

/// `obj[prop]`.
pub open spec fn computed_member(obj: SNode, prop: SNode) -> SNode {
    mk(Kind::MemberExpr, dummy_sp(), seq![obj, mk(Kind::ComputedPropName, dummy_sp(), seq![prop])])
}

/// `left op right`.
pub open spec fn bin(op: Seq<char>, left: SNode, right: SNode) -> SNode {
    SNode { kind: Kind::BinExpr, sym: op, raw: None, span: dummy_sp(), mark: 0, bits: 0, children: seq![left, right] }
}

/// `left = right`.
pub open spec fn assign(span: Span, left: SNode, right: SNode) -> SNode {
    SNode { kind: Kind::AssignExpr, sym: "="@, raw: None, span, mark: 0, bits: 0, children: seq![left, right] }
}

/// A call of `callee` with the given arguments.
pub open spec fn call(span: Span, callee: SNode, args: Seq<SNode>) -> SNode {
    mk(Kind::CallExpr, span, seq![callee, list(args), absent()])
}

/// A sequence expression.
pub open spec fn seq_expr(exprs: Seq<SNode>) -> SNode {
    mk(Kind::SeqExpr, dummy_sp(), seq![list(exprs)])
}

/// An object literal with the given properties.
pub open spec fn object_lit(props: Seq<SNode>) -> SNode {
    mk(Kind::ObjectLit, dummy_sp(), seq![list(props)])
}

/// The property `key: value`.
pub open spec fn key_value(key: SNode, value: SNode) -> SNode {
    mk(Kind::KeyValueProp, dummy_sp(), seq![key, value])
}

/// `void 0` with the given span.
pub open spec fn undefined_expr(span: Span) -> SNode {
    SNode {
        kind: Kind::UnaryExpr,
        sym: "void"@,
        raw: None,
        span,
        mark: 0,
        bits: 0,
        children: seq![num_lit("0"@, span)],
    }
}

/// A `var` declaration of the given declarators.
pub open spec fn var_decl(decls: Seq<SNode>) -> SNode {
    mk(Kind::VarDecl { var_kind: VarDeclKind::Var }, dummy_sp(), seq![list(decls)])
}

/// A declarator of `name` with initializer `init` (an expression or `absent()`).
pub open spec fn var_declarator(span: Span, name: SNode, init: SNode) -> SNode {
    mk(Kind::VarDeclarator, span, seq![name, init])
}

/// A block statement.
pub open spec fn block(stmts: Seq<SNode>) -> SNode {
    mk(Kind::BlockStmt, dummy_sp(), seq![list(stmts)])
}

/// A function with the given parameter patterns and body statements.
pub open spec fn function(params: Seq<SNode>, body: Seq<SNode>, is_async: bool) -> SNode {
    mk(
        Kind::Function { is_async },
        dummy_sp(),
        seq![list(params_of(params)), list(Seq::empty()), block(body), absent(), absent()],
    )
}

/// The parameters of the given patterns.
pub open spec fn params_of(pats: Seq<SNode>) -> Seq<SNode> {
    pats.map_values(|p: SNode| mk(Kind::Param, dummy_sp(), seq![list(Seq::empty()), p]))
}

/// An anonymous function expression.
pub open spec fn fn_expr(params: Seq<SNode>, body: Seq<SNode>, is_async: bool) -> SNode {
    mk(Kind::FnExpr, dummy_sp(), seq![absent(), function(params, body, is_async)])
}

/// `node` with its kind replaced.
pub open spec fn with_kind(n: SNode, kind: Kind) -> SNode {
    SNode { kind, ..n }
}

/// `node` with its children replaced.
pub open spec fn with_children(n: SNode, children: Seq<SNode>) -> SNode {
    SNode { children, ..n }
}

// ---------------------------------------------------------------------------
// Executable constructors
// ---------------------------------------------------------------------------

pub fn new_node(kind: Kind, span: Span, children: Vec<Node>) -> (r: Node)
    ensures
        r@ == mk(kind, span, nodes_view(children@)),
{
    Node { kind, sym: String::new(), raw: None, span, mark: 0, bits: 0, children }
}

pub fn new_text(kind: Kind, sym: String, span: Span) -> (r: Node)
    ensures
        r@ == mk_text(kind, sym@, span),
{
    let r = Node { kind, sym, raw: None, span, mark: 0, bits: 0, children: Vec::new() };
    assert(r@.children =~= Seq::<SNode>::empty());
    r
}

pub fn new_absent() -> (r: Node)
    ensures
        r@ == absent(),
{
    let r = new_node(Kind::Absent, dummy_span(), Vec::new());
    assert(r@ =~= absent());
    r
}

pub fn new_list(items: Vec<Node>) -> (r: Node)
    ensures
        r@ == list(nodes_view(items@)),
{
    new_node(Kind::List, dummy_span(), items)
}

pub fn vec1(a: Node) -> (r: Vec<Node>)
    ensures
        nodes_view(r@) == seq![a@],
{
    let mut v = Vec::new();
    v.push(a);
    proof {
        lemma_nodes_view(v@);
        assert(nodes_view(v@) =~= seq![a@]);
    }
    v
}

pub fn vec2(a: Node, b: Node) -> (r: Vec<Node>)
    ensures
        nodes_view(r@) == seq![a@, b@],
{
    let mut v = vec1(a);
    let ghost v1 = v@;
    v.push(b);
    proof {
        lemma_nodes_view_push(v1, b);
        assert(nodes_view(v@) =~= seq![a@, b@]);
    }
    v
}

pub fn vec3(a: Node, b: Node, c: Node) -> (r: Vec<Node>)
    ensures
        nodes_view(r@) == seq![a@, b@, c@],
{
    let mut v = vec2(a, b);
    let ghost v1 = v@;
    v.push(c);
    proof {
        lemma_nodes_view_push(v1, c);
        assert(nodes_view(v@) =~= seq![a@, b@, c@]);
    }
    v
}

pub fn vec5(a: Node, b: Node, c: Node, d: Node, e: Node) -> (r: Vec<Node>)
    ensures
        nodes_view(r@) == seq![a@, b@, c@, d@, e@],
{
    let mut v = vec3(a, b, c);
    let ghost v1 = v@;
    v.push(d);
    let ghost v2 = v@;
    v.push(e);
    proof {
        lemma_nodes_view_push(v1, d);
        lemma_nodes_view_push(v2, e);
        assert(nodes_view(v@) =~= seq![a@, b@, c@, d@, e@]);
    }
    v
}

pub fn new_quote_ident(kind: Kind, sym: &str) -> (r: Node)
    ensures
        r@ == quote_ident(kind, sym@),
{
    new_text(kind, sym.to_string(), dummy_span())
}

pub fn new_ident_string(kind: Kind, sym: String) -> (r: Node)
    ensures
        r@ == quote_ident(kind, sym@),
{
    new_text(kind, sym, dummy_span())
}

pub fn new_binding_ident(sym: String) -> (r: Node)
    ensures
        r@ == binding_ident(sym@),
{
    let r = Node { kind: Kind::BindingIdent, sym, raw: None, span: dummy_span(), mark: 0, bits: 0, children: vec1(new_absent()) };
    assert(r@ =~= binding_ident(sym@));
    r
}

pub fn new_str_lit(value: String) -> (r: Node)
    ensures
        r@ == str_lit(value@),
{
    new_text(Kind::Str, value, dummy_span())
}

pub fn new_as_arg(expr: Node) -> (r: Node)
    ensures
        r@ == as_arg(expr@),
{
    new_node(Kind::ExprOrSpread, dummy_span(), vec2(new_absent(), expr))
}

pub fn new_expr_stmt(expr: Node) -> (r: Node)
    ensures
        r@ == expr_stmt(expr@),
{
    new_node(Kind::ExprStmt, dummy_span(), vec1(expr))
}

pub fn new_member(obj: Node, prop: &str) -> (r: Node)
    ensures
        r@ == member(obj@, prop@),
{
    new_node(Kind::MemberExpr, dummy_span(), vec2(obj, new_quote_ident(Kind::Ident, prop)))
}

pub fn new_member_string(obj: Node, prop: String) -> (r: Node)
    ensures
        r@ == member(obj@, prop@),
{
    new_node(Kind::MemberExpr, dummy_span(), vec2(obj, new_ident_string(Kind::Ident, prop)))
}

pub fn new_computed_member(obj: Node, prop: Node) -> (r: Node)
    ensures
        r@ == computed_member(obj@, prop@),
{
    let c = new_node(Kind::ComputedPropName, dummy_span(), vec1(prop));
    new_node(Kind::MemberExpr, dummy_span(), vec2(obj, c))
}

pub fn new_bin(op: &str, left: Node, right: Node) -> (r: Node)
    ensures
        r@ == bin(op@, left@, right@),
{
    let r = Node { kind: Kind::BinExpr, sym: op.to_string(), raw: None, span: dummy_span(), mark: 0, bits: 0, children: vec2(left, right) };
    r
}

pub fn new_assign(span: Span, left: Node, right: Node) -> (r: Node)
    ensures
        r@ == assign(span, left@, right@),
{
    let r = Node { kind: Kind::AssignExpr, sym: "=".to_string(), raw: None, span, mark: 0, bits: 0, children: vec2(left, right) };
    r
}

pub fn new_call(span: Span, callee: Node, args: Vec<Node>) -> (r: Node)
    ensures
        r@ == call(span, callee@, nodes_view(args@)),
{
    new_node(Kind::CallExpr, span, vec3(callee, new_list(args), new_absent()))
}

pub fn new_seq_expr(exprs: Vec<Node>) -> (r: Node)
    ensures
        r@ == seq_expr(nodes_view(exprs@)),
{
    new_node(Kind::SeqExpr, dummy_span(), vec1(new_list(exprs)))
}

pub fn new_object_lit(props: Vec<Node>) -> (r: Node)
    ensures
        r@ == object_lit(nodes_view(props@)),
{
    new_node(Kind::ObjectLit, dummy_span(), vec1(new_list(props)))
}

pub fn new_key_value(key: Node, value: Node) -> (r: Node)
    ensures
        r@ == key_value(key@, value@),
{
    new_node(Kind::KeyValueProp, dummy_span(), vec2(key, value))
}

pub fn new_undefined_expr(span: Span) -> (r: Node)
    ensures
        r@ == undefined_expr(span),
{
    let zero = new_text(Kind::Number, "0".to_string(), span);
    let r = Node { kind: Kind::UnaryExpr, sym: "void".to_string(), raw: None, span, mark: 0, bits: 0, children: vec1(zero) };
    r
}

pub fn new_var_decl(decls: Vec<Node>) -> (r: Node)
    ensures
        r@ == var_decl(nodes_view(decls@)),
{
    new_node(Kind::VarDecl { var_kind: VarDeclKind::Var }, dummy_span(), vec1(new_list(decls)))
}

pub fn new_var_declarator(span: Span, name: Node, init: Node) -> (r: Node)
    ensures
        r@ == var_declarator(span, name@, init@),
{
    new_node(Kind::VarDeclarator, span, vec2(name, init))
}

pub fn new_block(stmts: Vec<Node>) -> (r: Node)
    ensures
        r@ == block(nodes_view(stmts@)),
{
    new_node(Kind::BlockStmt, dummy_span(), vec1(new_list(stmts)))
}

pub fn new_fn_expr(params: Vec<Node>, body: Vec<Node>, is_async: bool) -> (r: Node)
    ensures
        r@ == fn_expr(nodes_view(params@), nodes_view(body@), is_async),
{
    let ghost pv = nodes_view(params@);
    let ghost p0 = params@;
    let mut ps: Vec<Node> = Vec::new();
    let mut rest = params;
    let len = rest.len();
    let mut i: usize = 0;
    proof {
        lemma_nodes_view(params@);
    }
    while i < len
        invariant
            i <= len,
            len == p0.len(),
            pv == nodes_view(p0),
            pv.len() == p0.len(),
            forall|j: int| 0 <= j < p0.len() ==> #[trigger] pv[j] == node_view(p0[j]),
            rest@ == p0.skip(i as int),
            nodes_view(ps@) == params_of(pv.take(i as int)),
        decreases len - i,
    {
        let p = rest.remove(0);
        assert(p == p0[i as int]);
        let ghost ps0 = ps@;
        let param = new_node(Kind::Param, dummy_span(), vec2(new_list(Vec::new()), p));
        ps.push(param);
        proof {
            lemma_nodes_view_push(ps0, param);
            assert(nodes_view(Seq::<Node>::empty()) =~= Seq::<SNode>::empty());
            assert(pv.take(i + 1) =~= pv.take(i as int).push(p@));
            assert(params_of(pv.take(i + 1)) =~= params_of(pv.take(i as int)).push(param@));
            assert(rest@ =~= p0.skip(i + 1));
        }
        i = i + 1;
    }
    proof {
        assert(pv.take(len as int) =~= pv);
    }
    let f = new_node(
        Kind::Function { is_async },
        dummy_span(),
        vec5(new_list(ps), new_list(Vec::new()), new_block(body), new_absent(), new_absent()),
    );
    proof {
        assert(nodes_view(Seq::<Node>::empty()) =~= Seq::<SNode>::empty());
    }
    new_node(Kind::FnExpr, dummy_span(), vec2(new_absent(), f))
}

/// A copy of a node.
pub fn clone_node(n: &Node) -> (r: Node)
    ensures
        r@ == n@,
    decreases n,
{
    let mut kids: Vec<Node> = Vec::new();
    let len = n.children.len();
    let mut i: usize = 0;
    proof {
        lemma_nodes_view(n.children@);
    }
    while i < len
        invariant
            i <= len,
            len == n.children@.len(),
            nodes_view(kids@) == nodes_view(n.children@).take(i as int),
            nodes_view(n.children@).len() == n.children@.len(),
            forall|j: int| 0 <= j < n.children@.len() ==> #[trigger] nodes_view(n.children@)[j] == node_view(n.children@[j]),
        decreases len - i,
    {
        assert(decreases_to!(n => n.children@[i as int])) by {
            assert(decreases_to!(n => n.children));
            assert(decreases_to!(n.children => n.children@));
        }
        let c = clone_node(&n.children[i]);
        let ghost k0 = kids@;
        kids.push(c);
        proof {
            lemma_nodes_view_push(k0, c);
            assert(nodes_view(n.children@).take(i + 1) =~= nodes_view(n.children@).take(i as int).push(c@));
        }
        i = i + 1;
    }
    proof {
        assert(nodes_view(n.children@).take(len as int) =~= nodes_view(n.children@));
    }
    let raw = match &n.raw {
        Some(s) => Some(s.clone()),
        None => None,
    };
    Node { kind: n.kind, sym: n.sym.clone(), raw, span: n.span, mark: n.mark, bits: n.bits, children: kids }
}

impl Clone for Node {
    fn clone(&self) -> (r: Node)
        ensures
            r@ == self@,
    {
        clone_node(self)
    }
}

} // verus!

# swc_ecma_transforms_module (SystemJS)

The SystemJS module transform: an ECMAScript module becomes

    System.register([deps..], function (_export, _context) {
        "use strict";
        var <every top-level name>;
        <hoisted functions>
        _export(<their exports>);
        return { setters: [<one per dependency>], execute: function () { <the rest> } };
    });

`src/` is a library verified with Verus. It works on a uniform model of the
syntax tree (`ast::Node`: a kind, scalar data and the children in field
order); every public function states its result exactly in terms of spec
functions, and `laws.rs` / `laws_tree.rs` prove properties of the whole
transform (dependencies are distinct and cover every import, hoisting
declares each name once, a top-level `await` makes `execute` async, the
output of a well-formed module is well-formed, ...).

`app/` is the `swc_ecma_visit::Fold` pass around the library: it converts
the AST of `swc_ecma_ast` to the library's tree and back, and holds the
serde form of `Config`.

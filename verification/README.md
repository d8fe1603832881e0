# hako to JavaScript, verified

A compiler for the hako language into JavaScript, written in Verus. Every function of
the library is verified against its contract.

The pipeline, in `src/`:

- `ast::grammar` states the grammar as spec functions over the characters of a text
  (a parsing expression grammar with a bound on how deeply rules nest);
  `ast::syntax` is the parser, proved to build exactly the trees that the grammar
  describes, with `Syntax::parse` as its entry point.
- `ast::syntax_tree` holds syntax trees and their model; `ast::operator` turns the
  operators and terms of an operation into an expression (postfix conversion, then
  evaluation), with laws in `ast::operator_laws`.
- `hir::hirify` turns syntax trees into the intermediate representation: the path
  tree of hakos, modules and functions, and the items; `hir::hirify_laws` proves that
  every item is bound to a function of the path tree. The hirifier reads a number's
  data type suffix from a `data_type_suffix` node and the arguments of a generic data
  type from a `DataType::generic_arguments` node, while the parser names these nodes
  `DataType::primitive_number` and `args`: numbers from the parser keep no data type
  suffix, and a source text with a generic data type is not one that the hirifier,
  and so the transpiler, handles.
- `hir::type_check` resolves the paths in the items against the path tree.
- `js::generate` turns items into JavaScript items, `js::code` writes them out, and
  `js::JsTranspiler` runs the whole pipeline; its contract states what a source text
  compiles to.

`tests/` runs the library on concrete inputs.

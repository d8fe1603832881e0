pub mod code;
pub mod generate;
pub mod ir;

use vstd::prelude::*;
use crate::Compiler;
use crate::ast::syntax::{ParserError, ParserResult, RuleId, Syntax, parser_result_view, spec_parse};
use crate::ast::syntax_tree::{SpecNode, SyntaxNode};
use crate::hir::ir::item::SpecItem;
use crate::hir::ir::path::HirPathIndex;
use crate::hir::hirify::{AstHako, AstModule, SpecHako, SpecModule, TreeHirifier, initial_state, spec_hakos};
use crate::hir::type_check::{DataTypeChecker, item_checkable, resolve_item};
use crate::js::code::{JsCodeGenerator, item_has_code, program_code};
use crate::js::generate::{JsGenerator, item_js_supported, js_item};
use crate::js::ir::item::SpecJsItem;
use vstd::string::StringExecFns;

verus! {

/// How deeply the rules of a source text may nest.
pub const MAX_RECURSION: usize = 1024;

/// The hako that a source text makes: `test`, with the text as its `main` module.
pub open spec fn main_hako(root: SpecNode) -> SpecHako {
    SpecHako {
        id: "test"@,
        modules: seq![SpecModule { id: "main"@, node: root, submodules: Seq::empty() }],
    }
}

/// The items of a hirified program with their paths resolved.
pub open spec fn resolved_items(
    nodes: Map<usize, crate::hir::ir::path::SpecPathNode>,
    hakos: Seq<HirPathIndex>,
    items: Seq<(HirPathIndex, SpecItem)>,
) -> Seq<(HirPathIndex, SpecItem)> {
    items.map_values(|b: (HirPathIndex, SpecItem)| (b.0, resolve_item(nodes, hakos, b.1)))
}

/// The JavaScript items of items bound to path indexes.
pub open spec fn js_items(items: Seq<(HirPathIndex, SpecItem)>) -> Seq<SpecJsItem> {
    items.map_values(|b: (HirPathIndex, SpecItem)| js_item(b.0, b.1))
}

/// The JavaScript code of a parsed source text: its hako hirified, the paths of its
/// items resolved, the items turned into JavaScript and written out. `None` where one
/// of these steps is not defined on what it is given.
pub open spec fn transpiled(root: SpecNode) -> Option<Seq<char>> {
    match spec_hakos(seq![main_hako(root)], initial_state()) {
        Some(st) => {
            let resolved = resolved_items(st.nodes, st.hakos, st.items);
            let js = js_items(resolved);
            if (forall|i: int| 0 <= i < st.items.len() ==> item_checkable(#[trigger] st.items[i].1))
                && (forall|i: int| 0 <= i < resolved.len() ==> item_js_supported(#[trigger] resolved[i].1))
                && (forall|i: int| 0 <= i < js.len() ==> item_has_code(#[trigger] js[i])) {
                Some(program_code(js))
            } else {
                None
            }
        },
        None => None,
    }
}

/// The JavaScript functions that a source text becomes have pairwise different names:
/// each is named after the path index of its function, and no two functions share one.
pub proof fn lemma_transpiled_names_distinct(root: SpecNode)
    requires
        transpiled(root) is Some,
    ensures
        ({
            let st = spec_hakos(seq![main_hako(root)], initial_state()).unwrap();
            let js = js_items(resolved_items(st.nodes, st.hakos, st.items));
            forall|j: int, k: int| 0 <= j < k < js.len() ==> (#[trigger] js[j])->Function_0.id != (#[trigger] js[k])->Function_0.id
        }),
{
    let st = spec_hakos(seq![main_hako(root)], initial_state()).unwrap();
    let resolved = resolved_items(st.nodes, st.hakos, st.items);
    let js = js_items(resolved);
    crate::hir::hirify_laws::lemma_hirify_binds_items_to_functions(seq![main_hako(root)]);
    assert forall|j: int, k: int| 0 <= j < k < js.len() implies (#[trigger] js[j])->Function_0.id != (#[trigger] js[k])->Function_0.id by {
        assert(item_checkable(st.items[j].1));
        assert(item_checkable(st.items[k].1));
        assert(st.items[j].0.0 < st.items[k].0.0);
        crate::js::generate::lemma_function_names_distinct(st.items[j].0, st.items[k].0);
    }
}

/// Whether transpiling a source text is defined: it does not parse, or its tree goes
/// through every step.
pub open spec fn transpilable(input: Seq<char>) -> bool {
    match spec_parse("Main::main"@, input, MAX_RECURSION as nat) {
        Ok(root) => transpiled(root) is Some,
        Err(_) => true,
    }
}

/// What transpiling a source text gives: the parser's error, or the JavaScript code.
pub open spec fn spec_transpile(input: Seq<char>) -> Result<Seq<char>, ParserError> {
    match spec_parse("Main::main"@, input, MAX_RECURSION as nat) {
        Ok(root) => Ok(transpiled(root)->0),
        Err(e) => Err(e),
    }
}

/// The JavaScript code of a parsed source text.
fn transpile_tree(root: &SyntaxNode) -> (code: String)
    requires
        transpiled(root@) is Some,
    ensures
        code@ == transpiled(root@)->0,
{
    let module = AstModule { id: String::from_str("main"), node: root, submodules: Vec::new() };
    let modules = vec![module];
    let hako = AstHako { id: String::from_str("test"), modules };
    proof {
        crate::hir::hirify::lemma_modules_view(hako.modules@);
        crate::hir::hirify::lemma_modules_view(hako.modules@[0].submodules@);
        assert(hako@.modules[0].submodules =~= Seq::<SpecModule>::empty());
        assert(hako@.modules =~= main_hako(root@).modules);
        assert(hako@ == main_hako(root@));
    }
    let hakos = vec![&hako];
    proof {
        assert(hakos@.map_values(|h: &AstHako| (*h)@) =~= seq![main_hako(root@)]);
    }
    let (mut hir, _logs) = TreeHirifier::hirify(hakos);
    let ghost st = spec_hakos(seq![main_hako(root@)], initial_state()).unwrap();
    let ghost orig = hir.items@;
    proof {
        assert(st.items.len() == hir.items.len());
        assert(forall|i: int| 0 <= i < st.items.len() ==> item_checkable(#[trigger] st.items[i].1));
        assert forall|i: int| 0 <= i < hir.items.len() implies item_checkable(#[trigger] hir.items@[i].1@) by {
            assert(st.items[i] == crate::hir::hirify::item_binding_view(hir.items@[i]));
            assert(item_checkable(st.items[i].1));
        }
    }
    let _errors = DataTypeChecker::check(&hir.path_tree, &mut hir.items);
    let ghost resolved = resolved_items(st.nodes, st.hakos, st.items);
    proof {
        assert forall|i: int| 0 <= i < hir.items.len() implies item_js_supported(#[trigger] hir.items@[i].1@) by {
            assert(st.items[i] == crate::hir::hirify::item_binding_view(orig[i]));
            assert(resolved[i].1 == hir.items@[i].1@);
        }
    }
    let js = JsGenerator::generate(&hir);
    proof {
        assert(js@ =~= js_items(resolved)) by {
            assert forall|i: int| 0 <= i < js@.len() implies #[trigger] js@[i] == js_items(resolved)[i] by {
                assert(st.items[i] == crate::hir::hirify::item_binding_view(orig[i]));
            }
        }
    }
    JsCodeGenerator::generate(&js)
}

#[derive(Clone, Debug, PartialEq)]
pub struct JsTranspilerOptions;

#[derive(Clone, Debug, PartialEq)]
pub enum JsTranspilerError {
    ParserError(ParserError),
}

pub open spec fn transpile_result_view(r: Result<String, JsTranspilerError>) -> Result<Seq<char>, ParserError> {
    match r {
        Ok(code) => Ok(code@),
        Err(JsTranspilerError::ParserError(e)) => Err(e),
    }
}

/// Compiles a source text of one module into JavaScript.
pub struct JsTranspiler {
    options: JsTranspilerOptions,
}

impl JsTranspiler {
    /// The options the transpiler was made with.
    pub closed spec fn options(&self) -> JsTranspilerOptions {
        self.options
    }
}

impl<'a> Compiler<&'a str, Result<String, JsTranspilerError>, JsTranspilerOptions> for JsTranspiler {
    open spec fn compilable(&self, input: &'a str) -> bool {
        transpilable(input@)
    }

    fn new(options: JsTranspilerOptions) -> (transpiler: Self)
        ensures
            transpiler.options() == options,
    {
        Self { options }
    }

    fn compile(&self, input: &'a str) -> (output: Result<String, JsTranspilerError>)
        ensures
            transpile_result_view(output) == spec_transpile(input@),
    {
        let tree = match self.parse(input) {
            Ok(v) => v,
            Err(e) => return Err(JsTranspilerError::ParserError(e)),
        };
        proof {
            assert(tree@ == tree.root@);
        }
        Ok(transpile_tree(&tree.root))
    }

    fn parse(&self, input: &'a str) -> (result: ParserResult)
        ensures
            parser_result_view(result) == spec_parse("Main::main"@, input@, MAX_RECURSION as nat),
    {
        let syntax = Syntax::generate_volt(MAX_RECURSION);
        syntax.parse(input, &RuleId(String::from_str("Main::main")))
    }
}

} // verus!

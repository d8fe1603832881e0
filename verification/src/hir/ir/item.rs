use vstd::prelude::*;
use crate::hir::{HirAccessibility, HirIdentifierBinding, HirMutability};
use crate::hir::ir::expr::{HirDataType, HirExpression, SpecDataType, SpecExpression, exprs_view};

verus! {

#[derive(Clone, Debug, PartialEq)]
pub enum HirItem {
    Function(HirFunction),
    Struct,
    Enum,
    Trait,
}

#[derive(Clone, Debug, PartialEq)]
pub struct HirFunction {
    pub accessibility: HirAccessibility,
    pub return_type: HirDataType,
    pub arguments: Vec<HirIdentifierBinding<HirFormalArgument>>,
    pub expressions: Vec<HirExpression>,
}

#[derive(Clone, Debug, PartialEq)]
pub struct HirFormalArgument {
    pub mutability: HirMutability,
    pub data_type: HirDataType,
}

} // verus!

verus! {

/// The model of an item.
pub enum SpecItem {
    Function(SpecFunction),
    Struct,
    Enum,
    Trait,
}

pub struct SpecFunction {
    pub accessibility: HirAccessibility,
    pub return_type: SpecDataType,
    pub arguments: Seq<(Seq<char>, SpecFormalArgument)>,
    pub expressions: Seq<SpecExpression>,
}

pub struct SpecFormalArgument {
    pub mutability: HirMutability,
    pub data_type: SpecDataType,
}

pub open spec fn formal_argument_view(a: HirIdentifierBinding<HirFormalArgument>) -> (Seq<char>, SpecFormalArgument) {
    (a.0@, SpecFormalArgument { mutability: a.1.mutability, data_type: a.1.data_type@ })
}

pub open spec fn function_view(f: HirFunction) -> SpecFunction {
    SpecFunction {
        accessibility: f.accessibility,
        return_type: f.return_type@,
        arguments: f.arguments@.map_values(|a: HirIdentifierBinding<HirFormalArgument>| formal_argument_view(a)),
        expressions: exprs_view(f.expressions@),
    }
}

pub open spec fn item_view(item: HirItem) -> SpecItem {
    match item {
        HirItem::Function(f) => SpecItem::Function(function_view(f)),
        HirItem::Struct => SpecItem::Struct,
        HirItem::Enum => SpecItem::Enum,
        HirItem::Trait => SpecItem::Trait,
    }
}

impl View for HirItem {
    type V = SpecItem;

    open spec fn view(&self) -> SpecItem {
        item_view(*self)
    }
}

impl View for HirFunction {
    type V = SpecFunction;

    open spec fn view(&self) -> SpecFunction {
        function_view(*self)
    }
}

} // verus!

pub mod item;
pub mod stmt;

use vstd::prelude::*;
use self::item::{JsItem, SpecJsItem, js_item_view};

verus! {

/// A JavaScript program: a list of items.
#[derive(Clone, Debug, PartialEq)]
pub struct Js {
    pub items: Vec<JsItem>,
}

impl View for Js {
    type V = Seq<SpecJsItem>;

    open spec fn view(&self) -> Seq<SpecJsItem> {
        self.items@.map_values(|i: JsItem| js_item_view(i))
    }
}

} // verus!

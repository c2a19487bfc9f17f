//! What applets can call of the radio.

use crate::api::{documented, Field, Fn, Item, Mod, Type};
use vstd::prelude::*;

verus! {

/// The radio operations: `register`, which takes the handler function and
/// the opaque data to call it with, and `unregister`, which takes nothing.
/// Neither returns anything. Each item carries its documentation.
pub fn new() -> (r: Item)
    ensures
        r matches Item::Mod(m) && {
            &&& m.name@ == "radio"@
            &&& documented(m.docs@, seq!["Radio operations."@])
            &&& m.items@.len() == 2
            &&& m.items@[0].is_procedure("register"@, "rr"@, 2)
            &&& documented(m.items@[0]->Fn_0.docs@, seq!["Register a handler for radio events."@])
            &&& m.items@[0]->Fn_0.params@[0].is_callback("handler_func"@, "data"@)
            &&& documented(
                m.items@[0]->Fn_0.params@[0].docs@,
                seq![
                    "Function called on radio events."@,
                    ""@,
                    "The function takes its opaque `data` as argument."@,
                ],
            )
            &&& documented(
                m.items@[0]->Fn_0.params@[0].type_->Function_params@[0].docs@,
                Seq::empty(),
            )
            &&& m.items@[0]->Fn_0.params@[1].is_pointer("handler_data"@)
            &&& documented(
                m.items@[0]->Fn_0.params@[1].docs@,
                seq!["The opaque data to use when calling the handler function."@],
            )
            &&& m.items@[1].is_procedure("unregister"@, "ru"@, 0)
            &&& documented(
                m.items@[1]->Fn_0.docs@,
                seq!["Unregister handlers for radio events."@],
            )
        },
{
    let docs = vec!["Radio operations."];
    let name = "radio";
    let data = Field { docs: Vec::new(), name: "data", type_: Type::Pointer };
    let handler_func = Field {
        docs: vec![
            "Function called on radio events.",
            "",
            "The function takes its opaque `data` as argument.",
        ],
        name: "handler_func",
        type_: Type::Function { params: vec![data] },
    };
    let handler_data = Field {
        docs: vec!["The opaque data to use when calling the handler function."],
        name: "handler_data",
        type_: Type::Pointer,
    };
    let register = Item::Fn(
        Fn {
            docs: vec!["Register a handler for radio events."],
            name: "register",
            link: "rr",
            params: vec![handler_func, handler_data],
            results: Vec::new(),
        },
    );
    let unregister = Item::Fn(
        Fn {
            docs: vec!["Unregister handlers for radio events."],
            name: "unregister",
            link: "ru",
            params: Vec::new(),
            results: Vec::new(),
        },
    );
    let items = vec![register, unregister];
    Item::Mod(Mod { docs, name, items })
}

} // verus!

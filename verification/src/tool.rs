//! Tools, as the downstream servers describe them.

use vstd::prelude::*;
use crate::json::{Json, JsonValue};

verus! {

/// The identifier under which a downstream server is registered.
pub type ServerId = String;

/// A tool that a downstream server offers.
#[derive(Debug, PartialEq)]
pub struct Tool {
    pub name: String,
    pub description: Option<String>,
    pub input_schema: Json,
}

pub ghost struct ToolView {
    pub name: Seq<char>,
    pub description: Option<Seq<char>>,
    pub input_schema: JsonValue,
}

impl View for Tool {
    type V = ToolView;

    open spec fn view(&self) -> ToolView {
        ToolView {
            name: self.name@,
            description: match self.description {
                Some(d) => Some(d@),
                None => None,
            },
            input_schema: self.input_schema@,
        }
    }
}

impl Clone for Tool {
    fn clone(&self) -> (r: Tool)
        ensures
            r@ == self@,
    {
        Tool {
            name: self.name.clone(),
            description: match &self.description {
                Some(d) => Some(d.clone()),
                None => None,
            },
            input_schema: self.input_schema.clone(),
        }
    }
}

} // verus!

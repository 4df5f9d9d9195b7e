//! A parsed request to run one named action.

use vstd::prelude::*;
use vstd::string::*;

use crate::storage::{kv_clone, kv_find, kv_first_at, kv_has_key};

verus! {

/// One named action call, as interpreted from a model reply: the action's
/// name, optional key-to-value attributes, and an optional free-text payload.
#[derive(Debug)]
pub struct Invocation {
    /// The name of the action to run.
    pub action: String,
    /// Named arguments of the call.
    pub attributes: Option<Vec<(String, String)>>,
    /// Free-text argument of the call.
    pub payload: Option<String>,
}

impl Invocation {
    /// The attribute list seen as a sequence of entries.
    pub open spec fn spec_attrs(&self) -> Option<Seq<(String, String)>> {
        match self.attributes {
            Some(attrs) => Some(attrs@),
            None => None,
        }
    }

    /// A new invocation of `action` with the given arguments.
    pub fn new(action: String, attributes: Option<Vec<(String, String)>>, payload: Option<
        String,
    >) -> (r: Invocation)
        ensures
            r.action == action,
            r.attributes == attributes,
            r.payload == payload,
    {
        Invocation { action, attributes, payload }
    }

    /// The value of the first attribute named `key`, if any.
    pub fn get_attr(&self, key: &String) -> (r: Option<String>)
        ensures
            match r {
                Some(v) => self.attributes matches Some(attrs) && exists|i: int|
                    kv_first_at(attrs@, key@, i) && v == attrs@[i].1,
                None => match self.attributes {
                    Some(attrs) => !kv_has_key(attrs@, key@),
                    None => true,
                },
            },
    {
        match &self.attributes {
            Some(attrs) => match kv_find(attrs, key) {
                Some(i) => {
                    let v = attrs[i].1.clone();
                    proof {
                        assert(kv_first_at(attrs@, key@, i as int) && v == attrs@[i as int].1);
                    }
                    Some(v)
                },
                None => None,
            },
            None => None,
        }
    }

    /// A copy of this invocation; it renders and dispatches as the original
    /// does.
    pub fn duplicate(&self) -> (r: Invocation)
        ensures
            r.action == self.action,
            r.spec_attrs() == self.spec_attrs(),
            r.payload == self.payload,
    {
        let attributes: Option<Vec<(String, String)>> = match &self.attributes {
            Some(attrs) => Some(kv_clone(attrs)),
            None => None,
        };
        let payload: Option<String> = match &self.payload {
            Some(p) => Some(p.clone()),
            None => None,
        };
        Invocation { action: self.action.clone(), attributes, payload }
    }
}

} // verus!

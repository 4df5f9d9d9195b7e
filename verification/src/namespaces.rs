//! The capability catalog: actions, namespaces, and the registry the state
//! is constructed from.

use vstd::prelude::*;
use vstd::string::*;

use crate::storage::{kv_clone, StorageDescriptor, StorageType};

verus! {

/// One invocable capability. The built-in web capabilities are closed
/// variants; tasks may supply further ones as `Custom` values.
#[derive(Debug)]
pub enum Action {
    /// Sets one HTTP header for later requests.
    SetHeader,
    /// Drops every HTTP header set so far.
    ClearHeaders,
    /// Performs one HTTP request against the task's target.
    HttpRequest,
    /// A task-supplied capability, described by its data.
    Custom {
        name: String,
        description: String,
        example_payload: Option<String>,
        example_attributes: Option<Vec<(String, String)>>,
        required_variables: Option<Vec<String>>,
        timeout_secs: Option<u64>,
    },
}

/// The mathematical shape of an action: every list is a sequence, so copies
/// of an action compare equal.
pub enum ActionModel {
    SetHeader,
    ClearHeaders,
    HttpRequest,
    Custom {
        name: String,
        description: String,
        example_payload: Option<String>,
        example_attributes: Option<Seq<(String, String)>>,
        required_variables: Option<Seq<String>>,
        timeout_secs: Option<u64>,
    },
}

/// The prompt text describing an action of the given shape.
pub open spec fn spec_description(m: ActionModel) -> Seq<char> {
    match m {
        ActionModel::SetHeader => "Set an HTTP request header for the following requests."@,
        ActionModel::ClearHeaders => "Remove every HTTP request header set so far."@,
        ActionModel::HttpRequest => "Perform an HTTP request against the target and return the response."@,
        ActionModel::Custom { description, .. } => description@,
    }
}

impl Action {
    /// The mathematical shape of this action.
    pub open spec fn model(&self) -> ActionModel {
        match self {
            Action::SetHeader => ActionModel::SetHeader,
            Action::ClearHeaders => ActionModel::ClearHeaders,
            Action::HttpRequest => ActionModel::HttpRequest,
            Action::Custom {
                name,
                description,
                example_payload,
                example_attributes,
                required_variables,
                timeout_secs,
            } => ActionModel::Custom {
                name: *name,
                description: *description,
                example_payload: *example_payload,
                example_attributes: match example_attributes {
                    Some(a) => Some(a@),
                    None => None,
                },
                required_variables: match required_variables {
                    Some(v) => Some(v@),
                    None => None,
                },
                timeout_secs: *timeout_secs,
            },
        }
    }

    /// The action's identity.
    pub open spec fn spec_name(&self) -> Seq<char> {
        match self {
            Action::SetHeader => "http-set-header"@,
            Action::ClearHeaders => "http-clear-headers"@,
            Action::HttpRequest => "http-request"@,
            Action::Custom { name, .. } => name@,
        }
    }

    /// The variable names that must be defined before the action may run.
    pub open spec fn spec_required_variables(&self) -> Seq<Seq<char>> {
        match self {
            Action::HttpRequest => seq!["HTTP_TARGET"@],
            Action::Custom { required_variables: Some(v), .. } => v@.map_values(|s: String| s@),
            _ => Seq::<Seq<char>>::empty(),
        }
    }

    /// The per-invocation time limit, in seconds.
    pub open spec fn spec_timeout(&self) -> Option<u64> {
        match self {
            Action::HttpRequest => Some(30u64),
            Action::Custom { timeout_secs, .. } => *timeout_secs,
            _ => None,
        }
    }

    /// The action's identity.
    pub fn name(&self) -> (r: String)
        ensures
            r@ == self.spec_name(),
    {
        match self {
            Action::SetHeader => String::from_str("http-set-header"),
            Action::ClearHeaders => String::from_str("http-clear-headers"),
            Action::HttpRequest => String::from_str("http-request"),
            Action::Custom { name, .. } => name.clone(),
        }
    }

    /// Prompt text describing the action to the model.
    pub fn description(&self) -> (r: String)
        ensures
            r@ == spec_description(self.model()),
    {
        match self {
            Action::SetHeader => String::from_str(
                "Set an HTTP request header for the following requests.",
            ),
            Action::ClearHeaders => String::from_str(
                "Remove every HTTP request header set so far.",
            ),
            Action::HttpRequest => String::from_str(
                "Perform an HTTP request against the target and return the response.",
            ),
            Action::Custom { description, .. } => description.clone(),
        }
    }

    /// An example free-text payload, for few-shot prompting.
    pub fn example_payload(&self) -> (r: Option<String>)
        ensures
            (match self.model() {
                ActionModel::SetHeader => r matches Some(p) && p@ == "some-value-for-the-header"@,
                ActionModel::ClearHeaders => r is None,
                ActionModel::HttpRequest => r matches Some(p) && p@ == "/index.php?id=1"@,
                ActionModel::Custom { example_payload, .. } => r == example_payload,
            }),
    {
        match self {
            Action::SetHeader => Some(String::from_str("some-value-for-the-header")),
            Action::ClearHeaders => None,
            Action::HttpRequest => Some(String::from_str("/index.php?id=1")),
            Action::Custom { example_payload, .. } => clone_opt_string(example_payload),
        }
    }

    /// Example attributes, for few-shot prompting.
    pub fn example_attributes(&self) -> (r: Option<Vec<(String, String)>>)
        ensures
            (match self.model() {
                ActionModel::SetHeader => r matches Some(a) && a@.len() == 1 && a@[0].0@ == "name"@
                    && a@[0].1@ == "X-Header"@,
                ActionModel::ClearHeaders => r is None,
                ActionModel::HttpRequest => r matches Some(a) && a@.len() == 1 && a@[0].0@
                    == "method"@ && a@[0].1@ == "GET"@,
                ActionModel::Custom { example_attributes, .. } => (match r {
                    Some(a) => example_attributes == Some(a@),
                    None => example_attributes is None,
                }),
            }),
    {
        match self {
            Action::SetHeader => {
                let mut a: Vec<(String, String)> = Vec::new();
                a.push((String::from_str("name"), String::from_str("X-Header")));
                Some(a)
            },
            Action::ClearHeaders => None,
            Action::HttpRequest => {
                let mut a: Vec<(String, String)> = Vec::new();
                a.push((String::from_str("method"), String::from_str("GET")));
                Some(a)
            },
            Action::Custom { example_attributes, .. } => match example_attributes {
                Some(a) => Some(kv_clone(a)),
                None => None,
            },
        }
    }

    /// The variable names that must be defined before the action may run.
    pub fn required_variables(&self) -> (r: Option<Vec<String>>)
        ensures
            (match r {
                Some(v) => v@.map_values(|s: String| s@) == self.spec_required_variables(),
                None => self.spec_required_variables().len() == 0,
            }),
    {
        match self {
            Action::HttpRequest => {
                let mut v: Vec<String> = Vec::new();
                v.push(String::from_str("HTTP_TARGET"));
                proof {
                    assert(v@.map_values(|s: String| s@) =~= self.spec_required_variables());
                }
                Some(v)
            },
            Action::Custom { required_variables: Some(v), .. } => {
                let out = clone_string_vec(v);
                proof {
                    assert(out@.map_values(|s: String| s@) =~= self.spec_required_variables());
                }
                Some(out)
            },
            _ => None,
        }
    }

    /// The per-invocation time limit, in seconds, if the action declares one.
    pub fn timeout_secs(&self) -> (r: Option<u64>)
        ensures
            r == self.spec_timeout(),
    {
        match self {
            Action::HttpRequest => Some(30),
            Action::Custom { timeout_secs, .. } => *timeout_secs,
            _ => None,
        }
    }

    /// A copy of this action with the same shape.
    pub fn duplicate(&self) -> (r: Action)
        ensures
            r.model() == self.model(),
    {
        match self {
            Action::SetHeader => Action::SetHeader,
            Action::ClearHeaders => Action::ClearHeaders,
            Action::HttpRequest => Action::HttpRequest,
            Action::Custom {
                name,
                description,
                example_payload,
                example_attributes,
                required_variables,
                timeout_secs,
            } => Action::Custom {
                name: name.clone(),
                description: description.clone(),
                example_payload: clone_opt_string(example_payload),
                example_attributes: match example_attributes {
                    Some(a) => Some(kv_clone(a)),
                    None => None,
                },
                required_variables: match required_variables {
                    Some(v) => Some(clone_string_vec(v)),
                    None => None,
                },
                timeout_secs: *timeout_secs,
            },
        }
    }
}

/// Two actions of the same shape share their identity, their required
/// variables, their time limit, and their variant.
pub proof fn lemma_model_determines(a: Action, b: Action)
    requires
        a.model() == b.model(),
    ensures
        a.spec_name() == b.spec_name(),
        a.spec_required_variables() == b.spec_required_variables(),
        a.spec_timeout() == b.spec_timeout(),
        a is SetHeader <==> b is SetHeader,
        a is ClearHeaders <==> b is ClearHeaders,
        a is HttpRequest <==> b is HttpRequest,
        a is Custom <==> b is Custom,
{
}

/// An element-wise copy of a list of names.
pub fn clone_string_vec(v: &Vec<String>) -> (r: Vec<String>)
    ensures
        r@ == v@,
{
    let mut r: Vec<String> = Vec::new();
    let mut i: usize = 0;
    while i < v.len()
        invariant
            i <= v@.len(),
            r@.len() == i,
            forall|j: int| 0 <= j < i ==> r@[j] == v@[j],
        decreases v@.len() - i,
    {
        r.push(v[i].clone());
        i = i + 1;
    }
    proof {
        assert(r@ =~= v@);
    }
    r
}

/// A copy of an optional text.
pub fn clone_opt_string(v: &Option<String>) -> (r: Option<String>)
    ensures
        r == *v,
{
    match v {
        Some(s) => Some(s.clone()),
        None => None,
    }
}

/// A named, described group of actions, with the storages the group needs.
#[derive(Debug)]
pub struct Namespace {
    /// The display name of the group.
    pub name: String,
    /// Prompt text introducing the group to the model.
    pub description: String,
    /// The group's actions, in declaration order.
    pub actions: Vec<Action>,
    /// The storages the group requires.
    pub storages: Option<Vec<StorageDescriptor>>,
    /// Whether the group is part of every run that does not name its
    /// namespaces explicitly.
    pub default: bool,
}

/// The mathematical shape of a storage requirement.
pub struct DescriptorModel {
    pub name: String,
    pub type_: StorageType,
    pub predefined: Option<Seq<(String, String)>>,
}

/// The mathematical shape of a namespace.
pub struct NamespaceModel {
    pub name: String,
    pub description: String,
    pub actions: Seq<ActionModel>,
    pub storages: Option<Seq<DescriptorModel>>,
    pub default: bool,
}

/// The mathematical shape of a storage requirement.
pub open spec fn descriptor_model(d: StorageDescriptor) -> DescriptorModel {
    DescriptorModel {
        name: d.name,
        type_: d.type_,
        predefined: match d.predefined {
            Some(p) => Some(p@),
            None => None,
        },
    }
}

impl Namespace {
    /// The mathematical shape of this namespace.
    pub open spec fn model(&self) -> NamespaceModel {
        NamespaceModel {
            name: self.name,
            description: self.description,
            actions: self.actions@.map_values(|a: Action| a.model()),
            storages: match self.storages {
                Some(s) => Some(s@.map_values(|d: StorageDescriptor| descriptor_model(d))),
                None => None,
            },
            default: self.default,
        }
    }

    /// A namespace that is part of every run without an explicit list.
    pub fn new_default(
        name: String,
        description: String,
        actions: Vec<Action>,
        storages: Option<Vec<StorageDescriptor>>,
    ) -> (r: Namespace)
        ensures
            r.name == name,
            r.description == description,
            r.actions == actions,
            r.storages == storages,
            r.default == true,
    {
        Namespace { name, description, actions, storages, default: true }
    }

    /// A namespace that only runs which ask for it get.
    pub fn new_non_default(
        name: String,
        description: String,
        actions: Vec<Action>,
        storages: Option<Vec<StorageDescriptor>>,
    ) -> (r: Namespace)
        ensures
            r.name == name,
            r.description == description,
            r.actions == actions,
            r.storages == storages,
            r.default == false,
    {
        Namespace { name, description, actions, storages, default: false }
    }

    /// A copy of this namespace with the same shape.
    pub fn duplicate(&self) -> (r: Namespace)
        ensures
            r.model() == self.model(),
    {
        let mut actions: Vec<Action> = Vec::new();
        let mut i: usize = 0;
        while i < self.actions.len()
            invariant
                i <= self.actions@.len(),
                actions@.len() == i,
                forall|j: int| 0 <= j < i ==> actions@[j].model() == self.actions@[j].model(),
            decreases self.actions@.len() - i,
        {
            actions.push(self.actions[i].duplicate());
            i = i + 1;
        }
        let storages: Option<Vec<StorageDescriptor>> = match &self.storages {
            Some(descs) => {
                let mut out: Vec<StorageDescriptor> = Vec::new();
                let mut k: usize = 0;
                while k < descs.len()
                    invariant
                        k <= descs@.len(),
                        out@.len() == k,
                        forall|j: int|
                            0 <= j < k ==> descriptor_model(out@[j]) == descriptor_model(
                                descs@[j],
                            ),
                    decreases descs@.len() - k,
                {
                    let d = &descs[k];
                    let predefined: Option<Vec<(String, String)>> = match &d.predefined {
                        Some(p) => Some(kv_clone(p)),
                        None => None,
                    };
                    out.push(
                        StorageDescriptor { name: d.name.clone(), type_: d.type_, predefined },
                    );
                    k = k + 1;
                }
                Some(out)
            },
            None => None,
        };
        let r = Namespace {
            name: self.name.clone(),
            description: self.description.clone(),
            actions,
            storages,
            default: self.default,
        };
        proof {
            assert(r.actions@.map_values(|a: Action| a.model()) =~= self.actions@.map_values(
                |a: Action| a.model(),
            ));
            if r.storages is Some {
                assert(r.storages->0@.map_values(|d: StorageDescriptor| descriptor_model(d))
                    =~= self.storages->0@.map_values(|d: StorageDescriptor| descriptor_model(d)));
            }
        }
        r
    }
}

/// The catalog of registrable namespaces: registration key to namespace, in
/// registration order. Built once at process start; a run is constructed
/// from it.
#[derive(Debug)]
pub struct Registry {
    entries: Vec<(String, Namespace)>,
}

/// Key `key` occurs in the registry entries `s`.
pub open spec fn reg_has_key(s: Seq<(String, Namespace)>, key: Seq<char>) -> bool {
    exists|i: int| 0 <= i < s.len() && s[i].0@ == key
}

/// Position `i` holds the first registry entry under `key`.
pub open spec fn reg_first_at(s: Seq<(String, Namespace)>, key: Seq<char>, i: int) -> bool {
    &&& 0 <= i < s.len()
    &&& s[i].0@ == key
    &&& forall|j: int| 0 <= j < i ==> s[j].0@ != key
}

/// The shape of the first namespace registered under `key`, scanning in
/// registration order.
pub open spec fn spec_lookup_model(s: Seq<(String, Namespace)>, key: Seq<char>) -> Option<
    NamespaceModel,
>
    decreases s.len(),
{
    if s.len() == 0 {
        None
    } else if s[0].0@ == key {
        Some(s[0].1.model())
    } else {
        spec_lookup_model(s.skip(1), key)
    }
}

/// The shapes of the default-flagged namespaces, in registration order.
pub open spec fn spec_default_models(s: Seq<(String, Namespace)>) -> Seq<NamespaceModel>
    decreases s.len(),
{
    if s.len() == 0 {
        Seq::<NamespaceModel>::empty()
    } else {
        let rest = spec_default_models(s.drop_last());
        if s.last().1.default {
            rest.push(s.last().1.model())
        } else {
            rest
        }
    }
}

/// A scan that stops at the first entry under `key` computes the same
/// namespace as the recursive lookup.
pub proof fn lemma_lookup_first_at(s: Seq<(String, Namespace)>, key: Seq<char>, i: int)
    requires
        reg_first_at(s, key, i),
    ensures
        spec_lookup_model(s, key) == Some(s[i].1.model()),
    decreases i,
{
    if i > 0 {
        assert(reg_first_at(s.skip(1), key, i - 1));
        lemma_lookup_first_at(s.skip(1), key, i - 1);
    }
}

/// A key that occurs nowhere makes the lookup empty.
pub proof fn lemma_lookup_none(s: Seq<(String, Namespace)>, key: Seq<char>)
    requires
        !reg_has_key(s, key),
    ensures
        spec_lookup_model(s, key) is None,
    decreases s.len(),
{
    if s.len() > 0 {
        assert(!reg_has_key(s.skip(1), key)) by {
            if reg_has_key(s.skip(1), key) {
                let j = choose|j: int| 0 <= j < s.skip(1).len() && s.skip(1)[j].0@ == key;
                assert(s[j + 1].0@ == key);
            }
        }
        lemma_lookup_none(s.skip(1), key);
    }
}

impl Registry {
    /// The registered namespaces, in registration order.
    pub closed spec fn entries(&self) -> Seq<(String, Namespace)> {
        self.entries@
    }

    /// Fresh copies of every default-flagged namespace, in registration
    /// order.
    pub fn defaults(&self) -> (r: Vec<Namespace>)
        ensures
            r@.map_values(|ns: Namespace| ns.model()) == spec_default_models(self.entries()),
    {
        let mut r: Vec<Namespace> = Vec::new();
        let mut i: usize = 0;
        while i < self.entries.len()
            invariant
                i <= self.entries@.len(),
                r@.map_values(|ns: Namespace| ns.model()) == spec_default_models(
                    self.entries@.take(i as int),
                ),
            decreases self.entries@.len() - i,
        {
            let ghost pre = r@.map_values(|ns: Namespace| ns.model());
            if self.entries[i].1.default {
                r.push(self.entries[i].1.duplicate());
            }
            proof {
                assert(self.entries@.take(i + 1).drop_last() =~= self.entries@.take(i as int));
                assert(self.entries@.take(i + 1).last() == self.entries@[i as int]);
                if self.entries@[i as int].1.default {
                    assert(r@.map_values(|ns: Namespace| ns.model()) =~= pre.push(
                        self.entries@[i as int].1.model(),
                    ));
                } else {
                    assert(r@.map_values(|ns: Namespace| ns.model()) =~= pre);
                }
            }
            i = i + 1;
        }
        proof {
            assert(self.entries@.take(self.entries@.len() as int) =~= self.entries@);
        }
        r
    }

    /// An empty catalog.
    pub fn new() -> (r: Registry)
        ensures
            r.entries().len() == 0,
    {
        Registry { entries: Vec::new() }
    }

    /// Registers one more namespace under a lookup key.
    pub fn register(&mut self, key: String, namespace: Namespace)
        ensures
            final(self).entries() == old(self).entries().push((key, namespace)),
    {
        self.entries.push((key, namespace));
    }

    /// A fresh copy of the first namespace registered under `key`.
    pub fn build(&self, key: &String) -> (r: Option<Namespace>)
        ensures
            match r {
                Some(ns) => spec_lookup_model(self.entries(), key@) == Some(ns.model()),
                None => spec_lookup_model(self.entries(), key@) is None,
            },
    {
        let mut i: usize = 0;
        while i < self.entries.len()
            invariant
                i <= self.entries@.len(),
                forall|j: int| 0 <= j < i ==> self.entries@[j].0@ != key@,
            decreases self.entries@.len() - i,
        {
            if self.entries[i].0.eq(key) {
                let ns = self.entries[i].1.duplicate();
                proof {
                    assert(reg_first_at(self.entries(), key@, i as int));
                    lemma_lookup_first_at(self.entries(), key@, i as int);
                }
                return Some(ns);
            }
            i = i + 1;
        }
        proof {
            assert(!reg_has_key(self.entries(), key@));
            lemma_lookup_none(self.entries(), key@);
        }
        None
    }

    /// How many namespaces are registered.
    pub fn len(&self) -> (r: usize)
        ensures
            r == self.entries().len(),
    {
        self.entries.len()
    }
}

/// The web namespace: HTTP request, header set and header clear actions over
/// a shared `http-headers` storage that starts from a browser-like header
/// set.
pub fn get_namespace() -> (r: Namespace)
    ensures
        r.name@ == "Web"@,
        r.default == false,
        r.actions@.len() == 3,
        r.actions@[0] is SetHeader,
        r.actions@[1] is ClearHeaders,
        r.actions@[2] is HttpRequest,
        r.storages matches Some(descs) && descs@.len() == 1 && {
            let d = descs@[0];
            &&& d.name@ == "http-headers"@
            &&& d.type_ == StorageType::Tagged
            &&& d.predefined matches Some(p) && p@.len() == 2 && p@[0].0@ == "User-Agent"@
                && p@[0].1@
                == "Mozilla/5.0 (Windows NT 10.0; Win64; x64) AppleWebKit/537.36 (KHTML, like Gecko) Chrome/126.0.0.0 Safari/537.36"@
                && p@[1].0@ == "Accept-Encoding"@ && p@[1].1@ == "deflate"@
        },
{
    let mut predefined_headers: Vec<(String, String)> = Vec::new();
    predefined_headers.push(
        (
            String::from_str("User-Agent"),
            String::from_str(
                "Mozilla/5.0 (Windows NT 10.0; Win64; x64) AppleWebKit/537.36 (KHTML, like Gecko) Chrome/126.0.0.0 Safari/537.36",
            ),
        ),
    );
    predefined_headers.push((String::from_str("Accept-Encoding"), String::from_str("deflate")));

    let mut actions: Vec<Action> = Vec::new();
    actions.push(Action::SetHeader);
    actions.push(Action::ClearHeaders);
    actions.push(Action::HttpRequest);

    let mut descriptors: Vec<StorageDescriptor> = Vec::new();
    descriptors.push(StorageDescriptor::tagged("http-headers").predefine(predefined_headers));

    Namespace::new_non_default(
        String::from_str("Web"),
        String::from_str(
            "You can use the following actions to interact with a web application over HTTP.",
        ),
        actions,
        Some(descriptors),
    )
}

} // verus!

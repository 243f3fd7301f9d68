//! The catalogue of node constructors and overload resolution over it.
//!
//! The registry is an explicitly constructed table that is handed to the
//! typing context; overloads that share an identifier are tried in
//! registration order and the first one that accepts wins.

use vstd::prelude::*;
use crate::proto::{NodeConstructor, NodeIdentifier};
use crate::types::Type;

verus! {

/// The resolved or declared signature of a node: the type it takes when
/// evaluated, the type it produces, and the types of its parameters.
#[derive(Debug)]
pub struct NodeIOTypes {
    pub input: Type,
    pub output: Type,
    pub parameters: Vec<Type>,
}

/// The mathematical content of a [`NodeIOTypes`].
pub ghost struct NodeIOTypesView {
    pub input: Type,
    pub output: Type,
    pub parameters: Seq<Type>,
}

impl NodeIOTypesView {
    /// The kind of a node with this signature, seen as a parameter of
    /// another node.
    pub open spec fn ty(self) -> Type {
        Type::Fn(Box::new(self.input), Box::new(self.output))
    }
}

impl View for NodeIOTypes {
    type V = NodeIOTypesView;

    open spec fn view(&self) -> NodeIOTypesView {
        NodeIOTypesView {
            input: self.input,
            output: self.output,
            parameters: self.parameters@,
        }
    }
}

impl Clone for NodeIOTypes {
    fn clone(&self) -> (r: Self)
        ensures
            r@ == self@,
    {
        let parameters = self.parameters.clone();
        assert(parameters@ =~= self.parameters@);
        NodeIOTypes { input: self.input.clone(), output: self.output.clone(), parameters }
    }
}

impl NodeIOTypes {
    pub fn new(input: Type, output: Type, parameters: Vec<Type>) -> (r: Self)
        ensures
            r.input == input,
            r.output == output,
            r.parameters == parameters,
    {
        NodeIOTypes { input, output, parameters }
    }

    /// The kind of a node with this signature, seen as a parameter of
    /// another node.
    pub fn ty(&self) -> (t: Type)
        ensures
            t == self@.ty(),
    {
        Type::Fn(Box::new(self.input.clone()), Box::new(self.output.clone()))
    }
}

/// The actual type that the type parameter `g` of `declared` stands for when
/// `declared` is matched against `actual`: the first occurrence, input side
/// of a function kind before its output side.
pub open spec fn binding(declared: Type, actual: Type, g: u32) -> Option<Type>
    decreases declared,
{
    match declared {
        Type::Generic(h) => if h == g {
            Some(actual)
        } else {
            None
        },
        Type::Concrete(_) => None,
        Type::Fn(a, b) => match actual {
            Type::Fn(x, y) => match binding(*a, *x, g) {
                Some(t) => Some(t),
                None => binding(*b, *y, g),
            },
            _ => None,
        },
    }
}

/// The first binding of `g` among the parameters from position `from` on.
pub open spec fn binding_from(declared: Seq<Type>, actual: Seq<Type>, g: u32, from: int) -> Option<
    Type,
>
    decreases declared.len() - from,
{
    if from < 0 || from >= declared.len() || from >= actual.len() {
        None
    } else {
        match binding(declared[from], actual[from], g) {
            Some(t) => Some(t),
            None => binding_from(declared, actual, g, from + 1),
        }
    }
}

/// The output type of a declared signature for the given actual types: a
/// declared type parameter is replaced by what it is bound to, on the input
/// first and then on the parameters in order; without a binding there is no
/// output type.
pub open spec fn resolved_output(declared: NodeIOTypesView, input: Type, parameters: Seq<Type>)
    -> Option<Type> {
    match declared.output {
        Type::Generic(g) => match binding(declared.input, input, g) {
            Some(t) => Some(t),
            None => binding_from(declared.parameters, parameters, g, 0),
        },
        t => Some(t),
    }
}

/// Whether there are as many actual parameters as declared ones and each is
/// accepted by the declared parameter at its position.
pub open spec fn parameters_accepted(declared: Seq<Type>, actual: Seq<Type>) -> bool {
    &&& declared.len() == actual.len()
    &&& forall|i: int| 0 <= i < actual.len() ==> (#[trigger] actual[i]).accepted_by(declared[i])
}

/// Whether a declared signature accepts the given actual types.
pub open spec fn signature_accepts(declared: NodeIOTypesView, input: Type, parameters: Seq<Type>)
    -> bool {
    &&& input.accepted_by(declared.input)
    &&& parameters_accepted(declared.parameters, parameters)
    &&& resolved_output(declared, input, parameters) is Some
}

fn find_binding(declared: &Type, actual: &Type, g: u32) -> (r: Option<Type>)
    ensures
        r == binding(*declared, *actual, g),
    decreases *declared,
{
    match declared {
        Type::Generic(h) => if *h == g {
            Some(actual.clone())
        } else {
            None
        },
        Type::Concrete(_) => None,
        Type::Fn(a, b) => match actual {
            Type::Fn(x, y) => match find_binding(&**a, &**x, g) {
                Some(t) => Some(t),
                None => find_binding(&**b, &**y, g),
            },
            _ => None,
        },
    }
}

fn find_binding_in(declared: &Vec<Type>, actual: &Vec<Type>, g: u32) -> (r: Option<Type>)
    ensures
        r == binding_from(declared@, actual@, g, 0),
{
    let mut i: usize = 0;
    while i < declared.len() && i < actual.len()
        invariant
            i <= declared.len(),
            binding_from(declared@, actual@, g, 0) == binding_from(declared@, actual@, g, i as int),
        decreases declared.len() - i,
    {
        match find_binding(&declared[i], &actual[i], g) {
            Some(t) => {
                return Some(t);
            },
            None => {},
        }
        i += 1;
    }
    None
}

impl NodeIOTypes {
    /// The output type this declared signature yields for the given actual
    /// input and parameter types, if it accepts them.
    pub fn resolve(&self, input: &Type, parameters: &Vec<Type>) -> (r: Option<Type>)
        ensures
            r is Some <==> signature_accepts(self@, *input, parameters@),
            r is Some ==> Some(r->Some_0) == resolved_output(self@, *input, parameters@),
    {
        if !input.covariant(&self.input) {
            return None;
        }
        if parameters.len() != self.parameters.len() {
            return None;
        }
        let mut i: usize = 0;
        while i < parameters.len()
            invariant
                i <= parameters.len(),
                parameters.len() == self.parameters.len(),
                forall|j: int| 0 <= j < i ==> (#[trigger] parameters@[j]).accepted_by(self.parameters@[j]),
            decreases parameters.len() - i,
        {
            if !parameters[i].covariant(&self.parameters[i]) {
                return None;
            }
            i += 1;
        }
        match &self.output {
            Type::Generic(g) => match find_binding(&self.input, input, *g) {
                Some(t) => Some(t),
                None => find_binding_in(&self.parameters, parameters, *g),
            },
            t => Some(t.clone()),
        }
    }
}

/// One overload: a constructor registered under an identifier for a declared
/// signature.
#[derive(Debug)]
pub struct RegistryEntry {
    pub identifier: NodeIdentifier,
    pub types: NodeIOTypes,
    pub constructor: NodeConstructor,
}

impl Clone for RegistryEntry {
    fn clone(&self) -> (r: Self)
        ensures
            r.identifier == self.identifier,
            r.types@ == self.types@,
            r.constructor == self.constructor,
    {
        RegistryEntry {
            identifier: self.identifier.clone(),
            types: self.types.clone(),
            constructor: self.constructor,
        }
    }
}

impl RegistryEntry {
    /// Whether the overload is registered under `name` and accepts the given
    /// actual types.
    pub open spec fn accepts(self, name: Seq<char>, input: Type, parameters: Seq<Type>) -> bool {
        self.identifier.name@ == name && signature_accepts(self.types@, input, parameters)
    }
}

/// The ordered table of overloads.
#[derive(Debug, Clone)]
pub struct NodeRegistry {
    pub entries: Vec<RegistryEntry>,
}

impl NodeRegistry {
    /// Whether some overload is registered under `name`, at position `from`
    /// or later.
    pub open spec fn knows_from(self, name: Seq<char>, from: int) -> bool {
        exists|i: int| from <= i < self.entries@.len() && (#[trigger] self.entries@[i]).identifier.name@ == name
    }

    /// Whether some overload is registered under `name`.
    pub open spec fn knows(self, name: Seq<char>) -> bool {
        self.knows_from(name, 0)
    }

    /// The first overload at position `from` or later that is registered
    /// under `name` and accepts the actual types, with the output type it
    /// yields.
    pub open spec fn resolution_from(
        self,
        name: Seq<char>,
        input: Type,
        parameters: Seq<Type>,
        from: int,
    ) -> Option<(NodeConstructor, Type)>
        decreases self.entries@.len() - from,
    {
        if from < 0 || from >= self.entries@.len() {
            None
        } else if self.entries@[from].accepts(name, input, parameters) {
            Some(
                (
                    self.entries@[from].constructor,
                    resolved_output(self.entries@[from].types@, input, parameters)->Some_0,
                ),
            )
        } else {
            self.resolution_from(name, input, parameters, from + 1)
        }
    }

    /// The first overload in registration order that is registered under
    /// `name` and accepts the actual types, with the output type it yields.
    pub open spec fn resolution(self, name: Seq<char>, input: Type, parameters: Seq<Type>)
        -> Option<(NodeConstructor, Type)> {
        self.resolution_from(name, input, parameters, 0)
    }

    /// An empty table.
    pub fn new() -> (r: Self)
        ensures
            r.entries@.len() == 0,
    {
        NodeRegistry { entries: Vec::new() }
    }

    /// Appends an overload; it is tried after all those registered before.
    pub fn register(&mut self, entry: RegistryEntry)
        ensures
            final(self).entries@ == old(self).entries@.push(entry),
    {
        self.entries.push(entry);
    }

    /// Whether some overload is registered under the identifier.
    pub fn contains(&self, identifier: &NodeIdentifier) -> (r: bool)
        ensures
            r == self.knows(identifier.name@),
    {
        let mut i: usize = 0;
        while i < self.entries.len()
            invariant
                i <= self.entries.len(),
                forall|j: int| 0 <= j < i ==> (#[trigger] self.entries@[j]).identifier.name@ != identifier.name@,
            decreases self.entries.len() - i,
        {
            if self.entries[i].identifier.name == identifier.name {
                return true;
            }
            i += 1;
        }
        false
    }

    /// Picks the constructor for a node: the first overload registered under
    /// the identifier whose declared types accept the actual ones.
    pub fn resolve(&self, identifier: &NodeIdentifier, input: &Type, parameters: &Vec<Type>) -> (r:
        Option<(NodeConstructor, Type)>)
        ensures
            r == self.resolution(identifier.name@, *input, parameters@),
    {
        let mut i: usize = 0;
        while i < self.entries.len()
            invariant
                i <= self.entries.len(),
                self.resolution(identifier.name@, *input, parameters@) == self.resolution_from(
                    identifier.name@,
                    *input,
                    parameters@,
                    i as int,
                ),
            decreases self.entries.len() - i,
        {
            if self.entries[i].identifier.name == identifier.name {
                match self.entries[i].types.resolve(input, parameters) {
                    Some(output) => {
                        return Some((self.entries[i].constructor, output));
                    },
                    None => {},
                }
            }
            i += 1;
        }
        None
    }
}

/// An overload that accepts is never passed over in favour of a later one:
/// the resolution is the first accepting overload in registration order.
pub proof fn lemma_first_match_wins(
    registry: NodeRegistry,
    name: Seq<char>,
    input: Type,
    parameters: Seq<Type>,
    from: int,
    i: int,
)
    requires
        0 <= from <= i < registry.entries@.len(),
        registry.entries@[i].accepts(name, input, parameters),
        forall|j: int| from <= j < i ==> !(#[trigger] registry.entries@[j]).accepts(name, input, parameters),
    ensures
        registry.resolution_from(name, input, parameters, from) == Some(
            (
                registry.entries@[i].constructor,
                resolved_output(registry.entries@[i].types@, input, parameters)->Some_0,
            ),
        ),
    decreases i - from,
{
    if from < i {
        lemma_first_match_wins(registry, name, input, parameters, from + 1, i);
    }
}

/// Where no overload accepts, there is no resolution.
pub proof fn lemma_no_match_no_resolution(
    registry: NodeRegistry,
    name: Seq<char>,
    input: Type,
    parameters: Seq<Type>,
    from: int,
)
    requires
        0 <= from,
        forall|j: int|
            from <= j < registry.entries@.len() ==> !(#[trigger] registry.entries@[j]).accepts(
                name,
                input,
                parameters,
            ),
    ensures
        registry.resolution_from(name, input, parameters, from) is None,
    decreases registry.entries@.len() - from,
{
    if from < registry.entries@.len() {
        lemma_no_match_no_resolution(registry, name, input, parameters, from + 1);
    }
}

/// A resolution is an overload that accepts: the constructor it names is
/// registered under the identifier for declared types that accept the actual
/// ones.
pub proof fn lemma_resolution_accepts(
    registry: NodeRegistry,
    name: Seq<char>,
    input: Type,
    parameters: Seq<Type>,
    from: int,
) -> (i: int)
    requires
        0 <= from,
        registry.resolution_from(name, input, parameters, from) is Some,
    ensures
        from <= i < registry.entries@.len(),
        registry.entries@[i].accepts(name, input, parameters),
        registry.resolution_from(name, input, parameters, from) == Some(
            (
                registry.entries@[i].constructor,
                resolved_output(registry.entries@[i].types@, input, parameters)->Some_0,
            ),
        ),
    decreases registry.entries@.len() - from,
{
    if registry.entries@[from].accepts(name, input, parameters) {
        from
    } else {
        lemma_resolution_accepts(registry, name, input, parameters, from + 1)
    }
}

} // verus!

use vstd::prelude::*;

verus! {

/// The pairs of native computation and program emission that the engine knows.
#[derive(Debug, Clone, Copy, PartialEq, Eq, Structural)]
pub enum Gadget {
    /// Limb addition of two four-limb values.
    M31LimbsAdd,
    /// Multiplication of two field elements, reduced with an advice quotient.
    M31Mult,
}

/// A value held by a memory cell.
#[derive(Debug, Clone, PartialEq, Eq)]
pub enum Element {
    Num(i32),
    ManyNum(Vec<i32>),
    Str(Vec<u8>),
}

/// A memory cell: a value with the name of its type.
#[derive(Debug, Clone)]
pub struct MemoryEntry {
    pub data_type: String,
    pub data: Element,
}

/// What a native computation produces: output cells, returned to the caller, and hint cells,
/// kept for the program only.
pub struct FunctionOutput {
    pub new_elements: Vec<MemoryEntry>,
    pub new_hints: Vec<MemoryEntry>,
}

/// An operation that takes no parameters: its gadget and its declared input and output types.
pub struct FunctionMetadata {
    pub gadget: Gadget,
    pub input: Vec<String>,
    pub output: Vec<String>,
}

/// An operation that also takes a parameter bag.
pub struct FunctionWithOptionsMetadata {
    pub gadget: Gadget,
    pub input: Vec<String>,
    pub output: Vec<String>,
}

/// A registered operation, of either shape.
pub enum AcceptableFunctionMetadata {
    FunctionWithoutOptions(FunctionMetadata),
    FunctionWithOptions(FunctionWithOptionsMetadata),
}

impl From<FunctionMetadata> for AcceptableFunctionMetadata {
    fn from(m: FunctionMetadata) -> Self {
        AcceptableFunctionMetadata::FunctionWithoutOptions(m)
    }
}

impl vstd::std_specs::convert::FromSpecImpl<FunctionMetadata> for AcceptableFunctionMetadata {
    open spec fn obeys_from_spec() -> bool {
        true
    }

    open spec fn from_spec(m: FunctionMetadata) -> Self {
        AcceptableFunctionMetadata::FunctionWithoutOptions(m)
    }
}

impl From<FunctionWithOptionsMetadata> for AcceptableFunctionMetadata {
    fn from(m: FunctionWithOptionsMetadata) -> Self {
        AcceptableFunctionMetadata::FunctionWithOptions(m)
    }
}

impl vstd::std_specs::convert::FromSpecImpl<FunctionWithOptionsMetadata> for AcceptableFunctionMetadata {
    open spec fn obeys_from_spec() -> bool {
        true
    }

    open spec fn from_spec(m: FunctionWithOptionsMetadata) -> Self {
        AcceptableFunctionMetadata::FunctionWithOptions(m)
    }
}

impl AcceptableFunctionMetadata {
    pub open spec fn takes_options(&self) -> bool {
        self is FunctionWithOptions
    }
}

/// Operations by name; no name is registered twice.
pub struct FunctionRegistry {
    pub names: Vec<String>,
    pub entries: Vec<AcceptableFunctionMetadata>,
}

impl FunctionRegistry {
    pub open spec fn wf(&self) -> bool {
        &&& self.names@.len() == self.entries@.len()
        &&& forall|i: int, j: int|
            0 <= i < j < self.names@.len() ==> #[trigger] self.names@[i]@ != #[trigger] self.names@[j]@
    }

    /// Some operation is registered under `name`.
    pub open spec fn has(&self, name: Seq<char>) -> bool {
        exists|i: int| 0 <= i < self.names@.len() && #[trigger] self.names@[i]@ == name
    }

    /// An empty registry.
    pub fn new() -> (r: Self)
        ensures
            r.wf(),
            r.names@.len() == 0,
    {
        FunctionRegistry { names: Vec::new(), entries: Vec::new() }
    }

    /// Finds where `name` is registered.
    pub fn find(&self, name: &String) -> (r: Option<usize>)
        requires
            self.wf(),
        ensures
            r is None <==> !self.has(name@),
            r matches Some(i) ==> i < self.names@.len() && self.names@[i as int]@ == name@,
    {
        let mut i: usize = 0;
        while i < self.names.len()
            invariant
                0 <= i <= self.names@.len(),
                forall|j: int| 0 <= j < i ==> #[trigger] self.names@[j]@ != name@,
            decreases self.names@.len() - i,
        {
            if self.names[i] == *name {
                return Some(i);
            }
            i = i + 1;
        }
        None
    }

    /// Registers `entry` under `name`; false, with nothing changed, where the name is taken.
    pub fn register(&mut self, name: String, entry: AcceptableFunctionMetadata) -> (ok: bool)
        requires
            old(self).wf(),
        ensures
            final(self).wf(),
            ok <==> !old(self).has(name@),
            ok ==> final(self).names@ == old(self).names@.push(name) && final(self).entries@
                == old(self).entries@.push(entry),
            !ok ==> final(self).names@ == old(self).names@ && final(self).entries@ == old(self).entries@,
    {
        match self.find(&name) {
            Some(_) => false,
            None => {
                self.names.push(name);
                self.entries.push(entry);
                true
            },
        }
    }
}

} // verus!

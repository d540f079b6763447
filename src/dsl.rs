use vstd::prelude::*;

use crate::functions::{
    AcceptableFunctionMetadata, Element, FunctionMetadata, FunctionOutput, FunctionRegistry, Gadget,
    MemoryEntry,
};
use crate::gadget::{add_limbs_program, mult_program, reduce_program, M31LimbsGadget, M31MultGadget};
use crate::m31::{ints64, limbs_sum, lemma_mult_then_reduce, lemma_single_pair_limbs, pairs_limbs, quotient, reduced, M31Limbs, M31Mult};
use crate::script::Op;
use crate::utils::{limbs_value, modulus};

verus! {

/// Why a construction step failed; every failure ends the session.
#[derive(Debug, Clone, Copy, PartialEq, Eq, Structural)]
pub enum DslError {
    /// No operation is registered under the name.
    UnknownOperation,
    /// The operands do not match the operation's declared inputs.
    ShapeMismatch,
    /// The operation takes parameters and got none, or the other way round.
    VariantMismatch,
    /// A native computation left its checked range.
    ArithmeticOverflow,
    /// The type of an input value is not registered.
    UnknownDataType,
}

/// The program that the gadget emits.
pub open spec fn gadget_program(g: Gadget) -> Seq<Op> {
    match g {
        Gadget::M31LimbsAdd => add_limbs_program(),
        Gadget::M31Mult => mult_program(0) + reduce_program(),
    }
}

/// The operands' cells exist and have, one for one, the declared types.
pub open spec fn shape_matches(memory: Seq<MemoryEntry>, inputs: Seq<usize>, types: Seq<String>) -> bool {
    &&& inputs.len() == types.len()
    &&& forall|j: int|
        0 <= j < inputs.len() ==> #[trigger] inputs[j] < memory.len() && memory[inputs[j] as int].data_type@
            == types[j]@
}

/// The product of two field elements modulo 2^31 - 1, with the quotient that reduces it, computed
/// natively. Fails where an operand is not a canonical field element.
pub fn m31_mult_native(a: i32, b: i32) -> (r: Result<(i32, i64), DslError>)
    ensures
        r is Ok <==> 0 <= a < modulus() && 0 <= b < modulus(),
        r is Err ==> r == Err::<(i32, i64), DslError>(DslError::ShapeMismatch),
        r matches Ok((v, q)) ==> v == (a * b) % modulus() && q == quotient(
            limbs_value(pairs_limbs(seq![(a as u32, b as u32)])),
        ) && 0 <= q <= 4000,
{
    if a < 0 || b < 0 || a == i32::MAX || b == i32::MAX {
        return Err(DslError::ShapeMismatch);
    }
    let pairs = [(a as u32, b as u32)];
    let ghost s = seq![(a as u32, b as u32)];
    assert(pairs@ =~= s);
    proof {
        lemma_single_pair_limbs((a as u32, b as u32));
    }
    let c = match M31Mult::compute_c_limbs(&pairs) {
        Ok(c) => c,
        Err(_) => {
            return Err(DslError::ArithmeticOverflow);
        },
    };
    let q = match M31Mult::compute_q(&c) {
        Ok(q) => q,
        Err(_) => {
            return Err(DslError::ArithmeticOverflow);
        },
    };
    proof {
        lemma_mult_then_reduce(a as u32, b as u32);
        assert(c@.map_values(|v: i32| v as int) =~= pairs_limbs(s));
    }
    let sum = (c[3] as i64) * 16777216 + (c[2] as i64) * 65536 + (c[1] as i64) * 256 + (c[0] as i64);
    assert(sum == limbs_value(pairs_limbs(s)));
    assert(0 <= reduced(pairs_limbs(s)) < modulus()) by {
        assert(reduced(pairs_limbs(s)) == (a as u32 * b as u32) % modulus());
    }
    assert(0 <= sum - q * 2147483647 < 2147483647);
    assert(0 <= q <= 4000) by {
        assert(0 <= c[0] <= 455175 && 0 <= c[1] <= 455175 && 0 <= c[2] <= 455175 && 0 <= c[3]
            <= 455175);
        assert(0 <= sum <= 7700000000000);
        assert(q == sum / 2147483647);
        assert(0 <= sum / 2147483647 <= 4000) by (nonlinear_arith)
            requires
                0 <= sum <= 7700000000000,
        ;
    }
    let v = sum - q * 2147483647;
    assert((a as u32 * b as u32) == a * b);
    Ok((v as i32, q))
}

/// The values of `v` as integers.
pub open spec fn ints(v: Seq<i32>) -> Seq<int> {
    v.map_values(|x: i32| x as int)
}

/// Limb addition of two four-limb values held as `i32`s. Fails where a value does not have four
/// limbs, or a limb of the sum does not fit an `i32`.
pub fn m31_limbs_add_native(a: &Vec<i32>, b: &Vec<i32>) -> (r: Result<Vec<i32>, DslError>)
    ensures
        a@.len() != 4 || b@.len() != 4 ==> r == Err::<Vec<i32>, DslError>(DslError::ShapeMismatch),
        r matches Ok(v) ==> ints(v@) == limbs_sum(ints(a@), ints(b@)),
        r matches Err(e) ==> e == DslError::ShapeMismatch || e == DslError::ArithmeticOverflow,
        a@.len() == 4 && b@.len() == 4 ==> (r is Ok <==> forall|l: int|
            0 <= l < 4 ==> i32::MIN <= #[trigger] limbs_sum(ints(a@), ints(b@))[l] <= i32::MAX),
{
    if a.len() != 4 || b.len() != 4 {
        return Err(DslError::ShapeMismatch);
    }
    let mut wa: Vec<i64> = Vec::new();
    wa.push(a[0] as i64);
    wa.push(a[1] as i64);
    wa.push(a[2] as i64);
    wa.push(a[3] as i64);
    let mut wb: Vec<i64> = Vec::new();
    wb.push(b[0] as i64);
    wb.push(b[1] as i64);
    wb.push(b[2] as i64);
    wb.push(b[3] as i64);
    assert(ints64(wa@) =~= ints(a@));
    assert(ints64(wb@) =~= ints(b@));
    let sum = M31Limbs::add_limbs(wa.as_slice(), wb.as_slice());
    let ghost want = limbs_sum(ints(a@), ints(b@));
    assert(ints64(sum@) == want);
    assert(want.len() == 4);
    assert(sum@.len() == 4);
    assert(ints64(sum@)[0] == sum@[0] as int);
    assert(ints64(sum@)[1] == sum@[1] as int);
    assert(ints64(sum@)[2] == sum@[2] as int);
    assert(ints64(sum@)[3] == sum@[3] as int);
    let mut out: Vec<i32> = Vec::new();
    let mut l: usize = 0;
    while l < 4
        invariant
            0 <= l <= 4,
            a@.len() == 4,
            b@.len() == 4,
            want == limbs_sum(ints(a@), ints(b@)),
            sum@.len() == 4,
            want.len() == 4,
            forall|j: int| 0 <= j < 4 ==> sum@[j] == #[trigger] want[j],
            out@.len() == l,
            forall|j: int| 0 <= j < l ==> out@[j] == #[trigger] want[j],
            forall|j: int| 0 <= j < l ==> i32::MIN <= #[trigger] want[j] <= i32::MAX,
        decreases 4 - l,
    {
        if sum[l] < i32::MIN as i64 || sum[l] > i32::MAX as i64 {
            return Err(DslError::ArithmeticOverflow);
        }
        out.push(sum[l] as i32);
        l = l + 1;
    }
    assert(ints(out@) =~= want);
    Ok(out)
}

/// An immutable bag of parameters for one operation: integer sequences and lists of byte
/// strings, each under a key.
pub struct Options {
    pub multi_u32: Vec<(String, Vec<u32>)>,
    pub multi_binary: Vec<(String, Vec<Vec<u8>>)>,
}

impl Options {
    /// An empty bag.
    pub fn new() -> (r: Self)
        ensures
            r.multi_u32@.len() == 0,
            r.multi_binary@.len() == 0,
    {
        Options { multi_u32: Vec::new(), multi_binary: Vec::new() }
    }

    /// The bag with the integer sequence `values` added under `key`.
    pub fn with_multi_u32(self, key: &str, values: Vec<u32>) -> (r: Self)
        ensures
            r.multi_u32@.len() == self.multi_u32@.len() + 1,
            r.multi_u32@.drop_last() == self.multi_u32@,
            r.multi_u32@.last().0@ == key@,
            r.multi_u32@.last().1 == values,
            r.multi_binary == self.multi_binary,
    {
        let mut r = self;
        r.multi_u32.push((key.to_owned(), values));
        assert(r.multi_u32@.drop_last() =~= self.multi_u32@);
        r
    }

    /// The bag with the list of byte strings `values` added under `key`.
    pub fn with_multi_binary(self, key: &str, values: Vec<Vec<u8>>) -> (r: Self)
        ensures
            r.multi_binary@.len() == self.multi_binary@.len() + 1,
            r.multi_binary@.drop_last() == self.multi_binary@,
            r.multi_binary@.last().0@ == key@,
            r.multi_binary@.last().1 == values,
            r.multi_u32 == self.multi_u32,
    {
        let mut r = self;
        r.multi_binary.push((key.to_owned(), values));
        assert(r.multi_binary@.drop_last() =~= self.multi_binary@);
        r
    }
}

/// The native step of `g` succeeds on the cells `inputs` with the declared outputs `output`: two
/// cells holding canonical field elements for multiplication, two cells holding four limbs whose
/// sum's limbs fit an `i32` for limb addition, and one declared output either way.
pub open spec fn native_ok(g: Gadget, memory: Seq<MemoryEntry>, inputs: Seq<usize>, output: Seq<String>) -> bool {
    &&& inputs.len() == 2
    &&& inputs[0] < memory.len()
    &&& inputs[1] < memory.len()
    &&& output.len() == 1
    &&& match (g, memory[inputs[0] as int].data, memory[inputs[1] as int].data) {
        (Gadget::M31Mult, Element::Num(a), Element::Num(b)) => 0 <= a < modulus() && 0 <= b
            < modulus(),
        (Gadget::M31LimbsAdd, Element::ManyNum(a), Element::ManyNum(b)) => {
            &&& a@.len() == 4
            &&& b@.len() == 4
            &&& forall|l: int|
                0 <= l < 4 ==> i32::MIN <= #[trigger] limbs_sum(ints(a@), ints(b@))[l] <= i32::MAX
        },
        _ => false,
    }
}

/// `new` is `old` with the cells that the native step of `g` makes appended: for multiplication
/// the product modulo 2^31 - 1 under the declared output type, then the quotient as a hint; for
/// limb addition the limbs of the sum under the declared output type.
pub open spec fn cells_appended(
    g: Gadget,
    old: Seq<MemoryEntry>,
    inputs: Seq<usize>,
    output: Seq<String>,
    new: Seq<MemoryEntry>,
) -> bool {
    let n = old.len() as int;
    &&& new.take(n) == old
    &&& n < new.len()
    &&& new[n].data_type == output[0]
    &&& match (g, old[inputs[0] as int].data, old[inputs[1] as int].data) {
        (Gadget::M31Mult, Element::Num(a), Element::Num(b)) => {
            &&& new.len() == n + 2
            &&& new[n].data == Element::Num(((a * b) % modulus()) as i32)
            &&& new[n + 1].data_type@ == "m31"@
            &&& new[n + 1].data == Element::Num(
                quotient(limbs_value(pairs_limbs(seq![(a as u32, b as u32)]))) as i32,
            )
        },
        (Gadget::M31LimbsAdd, Element::ManyNum(a), Element::ManyNum(b)) => {
            &&& new.len() == n + 1
            &&& new[n].data matches Element::ManyNum(w) && ints(w@) == limbs_sum(ints(a@), ints(b@))
        },
        _ => false,
    }
}

/// What applying the gadget `g`, with declared input types `types` and output types `output`, to
/// the cells `inputs` does: `ShapeMismatch` where the operands do not match the declared types;
/// success exactly where they do, the native step succeeds and the memory has room; on failure
/// nothing changes; on success one output cell, right after the old cells, then the hints, and the
/// gadget's program appended.
pub open spec fn applied(
    old: DSL,
    new: DSL,
    g: Gadget,
    types: Seq<String>,
    output: Seq<String>,
    inputs: Seq<usize>,
    r: Result<Vec<usize>, DslError>,
) -> bool {
    &&& !shape_matches(old.memory@, inputs, types) ==> r == Err::<Vec<usize>, DslError>(
        DslError::ShapeMismatch,
    )
    &&& r is Ok <==> shape_matches(old.memory@, inputs, types) && native_ok(
        g,
        old.memory@,
        inputs,
        output,
    ) && old.memory@.len() + 2 < usize::MAX
    &&& r is Err ==> new == old
    &&& r matches Err(e) ==> e == DslError::ShapeMismatch || e == DslError::ArithmeticOverflow
    &&& r matches Ok(refs) ==> {
        &&& refs@ == seq![old.memory@.len() as usize]
        &&& cells_appended(g, old.memory@, inputs, output, new.memory@)
        &&& new.program@ == old.program@ + gadget_program(g)
        &&& new.registry == old.registry
        &&& new.data_types == old.data_types
    }
}

/// What `alloc_input` does: where the type is registered, one new cell with the value, whose
/// index it returns; else `UnknownDataType`, with nothing changed.
pub open spec fn allocated(old: DSL, new: DSL, t: Seq<char>, data: Element, r: Result<usize, DslError>) -> bool {
    &&& r is Ok <==> old.knows_type(t)
    &&& r is Err ==> r == Err::<usize, DslError>(DslError::UnknownDataType) && new == old
    &&& r matches Ok(i) ==> {
        &&& i == old.memory@.len()
        &&& new.memory@.len() == old.memory@.len() + 1
        &&& new.memory@.drop_last() == old.memory@
        &&& new.memory@[i as int].data == data
        &&& new.memory@[i as int].data_type@ == t
        &&& new.registry == old.registry
        &&& new.data_types == old.data_types
        &&& new.program == old.program
    }
}

/// The construction engine: the registered operations and data types, the memory cells made so
/// far, and the program emitted so far.
pub struct DSL {
    pub registry: FunctionRegistry,
    pub data_types: Vec<String>,
    pub memory: Vec<MemoryEntry>,
    pub program: Vec<Op>,
}

impl DSL {
    pub open spec fn wf(&self) -> bool {
        self.registry.wf()
    }

    /// The data type `t` is registered.
    pub open spec fn knows_type(&self, t: Seq<char>) -> bool {
        exists|i: int| 0 <= i < self.data_types@.len() && #[trigger] self.data_types@[i]@ == t
    }

    /// An engine with no cells and no program, and with the standard data types ("m31",
    /// "m31_limbs", "hash") and operations ("m31_limbs_add", "m31_mult") registered.
    pub fn new() -> (r: Self)
        ensures
            r.wf(),
            r.memory@.len() == 0,
            r.program@.len() == 0,
            r.data_types@.len() == 3,
            r.data_types@[0]@ == "m31"@,
            r.data_types@[1]@ == "m31_limbs"@,
            r.data_types@[2]@ == "hash"@,
            r.registry.names@.len() == 2,
            r.registry.names@[0]@ == "m31_limbs_add"@,
            r.registry.names@[1]@ == "m31_mult"@,
            r.registry.entries@[0] matches AcceptableFunctionMetadata::FunctionWithoutOptions(m) && m.gadget
                == Gadget::M31LimbsAdd && m.input@.len() == 2 && m.input@[0]@ == "m31_limbs"@
                && m.input@[1]@ == "m31_limbs"@ && m.output@.len() == 1 && m.output@[0]@ == "m31_limbs"@,
            r.registry.entries@[1] matches AcceptableFunctionMetadata::FunctionWithoutOptions(m) && m.gadget
                == Gadget::M31Mult && m.input@.len() == 2 && m.input@[0]@ == "m31"@ && m.input@[1]@
                == "m31"@ && m.output@.len() == 1 && m.output@[0]@ == "m31"@,
    {
        proof {
            reveal_strlit("m31_limbs_add");
            reveal_strlit("m31_mult");
        }
        let mut registry = FunctionRegistry::new();
        let m31 = "m31".to_owned();
        let limbs = "m31_limbs".to_owned();
        let mut add_input: Vec<String> = Vec::new();
        add_input.push(limbs.clone());
        add_input.push(limbs.clone());
        let mut add_output: Vec<String> = Vec::new();
        add_output.push(limbs.clone());
        registry.register(
            "m31_limbs_add".to_owned(),
            AcceptableFunctionMetadata::FunctionWithoutOptions(
                FunctionMetadata { gadget: Gadget::M31LimbsAdd, input: add_input, output: add_output },
            ),
        );
        let mut mult_input: Vec<String> = Vec::new();
        mult_input.push(m31.clone());
        mult_input.push(m31.clone());
        let mut mult_output: Vec<String> = Vec::new();
        mult_output.push(m31.clone());
        let name = "m31_mult".to_owned();
        assert(name@ != registry.names@[0]@) by {
            assert(name@.len() != registry.names@[0]@.len());
        }
        registry.register(
            name,
            AcceptableFunctionMetadata::FunctionWithoutOptions(
                FunctionMetadata { gadget: Gadget::M31Mult, input: mult_input, output: mult_output },
            ),
        );
        let mut data_types: Vec<String> = Vec::new();
        data_types.push(m31);
        data_types.push(limbs);
        data_types.push("hash".to_owned());
        DSL { registry, data_types, memory: Vec::new(), program: Vec::new() }
    }

    /// Records a value supplied from outside as a new cell, whose index it returns. Fails, with
    /// nothing changed, where the type is not registered.
    pub fn alloc_input(&mut self, data_type: &str, data: Element) -> (r: Result<usize, DslError>)
        ensures
            allocated(*old(self), *final(self), data_type@, data, r),
    {
        let t = data_type.to_owned();
        let mut i: usize = 0;
        while i < self.data_types.len()
            invariant
                0 <= i <= self.data_types@.len(),
                *self == *old(self),
                t@ == data_type@,
                forall|j: int| 0 <= j < i ==> #[trigger] self.data_types@[j]@ != data_type@,
            decreases self.data_types@.len() - i,
        {
            if self.data_types[i] == t {
                assert(self.data_types@[i as int]@ == data_type@);
                let n = self.memory.len();
                self.memory.push(MemoryEntry { data_type: t, data });
                assert(self.memory@.drop_last() =~= old(self).memory@);
                return Ok(n);
            }
            i = i + 1;
        }
        assert(!old(self).knows_type(data_type@));
        Err(DslError::UnknownDataType)
    }

    /// The operands' cells exist and have the declared types.
    fn shape_ok(&self, inputs: &[usize], types: &Vec<String>) -> (ok: bool)
        ensures
            ok == shape_matches(self.memory@, inputs@, types@),
    {
        if inputs.len() != types.len() {
            return false;
        }
        let mut j: usize = 0;
        while j < inputs.len()
            invariant
                0 <= j <= inputs@.len(),
                inputs@.len() == types@.len(),
                forall|i: int|
                    0 <= i < j ==> #[trigger] inputs@[i] < self.memory@.len() && self.memory@[inputs@[i] as int].data_type@
                        == types@[i]@,
            decreases inputs@.len() - j,
        {
            let c = inputs[j];
            if c >= self.memory.len() {
                return false;
            }
            if !(self.memory[c].data_type == types[j]) {
                return false;
            }
            j = j + 1;
        }
        true
    }

    /// Runs the native computation of `g` on the cells `inputs`.
    fn native(&self, g: Gadget, inputs: &[usize], output: &Vec<String>) -> (r: Result<FunctionOutput, DslError>)
        ensures
            r is Ok <==> native_ok(g, self.memory@, inputs@, output@),
            r matches Err(e) ==> e == DslError::ShapeMismatch || e == DslError::ArithmeticOverflow,
            r matches Ok(out) ==> out.new_elements@.len() == 1 && cells_appended(
                g,
                self.memory@,
                inputs@,
                output@,
                self.memory@ + out.new_elements@ + out.new_hints@,
            ),
    {
        if inputs.len() != 2 || inputs[0] >= self.memory.len() || inputs[1] >= self.memory.len() {
            return Err(DslError::ShapeMismatch);
        }
        if output.len() != 1 {
            return Err(DslError::ShapeMismatch);
        }
        let ghost n = self.memory@.len() as int;
        match (g, &self.memory[inputs[0]].data, &self.memory[inputs[1]].data) {
            (Gadget::M31Mult, Element::Num(a), Element::Num(b)) => {
                let (v, q) = match m31_mult_native(*a, *b) {
                    Ok(p) => p,
                    Err(e) => {
                        return Err(e);
                    },
                };
                let out = MemoryEntry { data_type: output[0].clone(), data: Element::Num(v) };
                let hint = MemoryEntry { data_type: "m31".to_owned(), data: Element::Num(q as i32) };
                let mut new_elements: Vec<MemoryEntry> = Vec::new();
                new_elements.push(out);
                let mut new_hints: Vec<MemoryEntry> = Vec::new();
                new_hints.push(hint);
                assert((self.memory@ + new_elements@ + new_hints@).take(n) =~= self.memory@);
                Ok(FunctionOutput { new_elements, new_hints })
            },
            (Gadget::M31LimbsAdd, Element::ManyNum(a), Element::ManyNum(b)) => {
                let v = match m31_limbs_add_native(a, b) {
                    Ok(v) => v,
                    Err(e) => {
                        return Err(e);
                    },
                };
                let out = MemoryEntry { data_type: output[0].clone(), data: Element::ManyNum(v) };
                let mut new_elements: Vec<MemoryEntry> = Vec::new();
                new_elements.push(out);
                let new_hints: Vec<MemoryEntry> = Vec::new();
                assert((self.memory@ + new_elements@ + new_hints@).take(n) =~= self.memory@);
                Ok(FunctionOutput { new_elements, new_hints })
            },
            _ => Err(DslError::ShapeMismatch),
        }
    }

    /// The program that `g` emits.
    fn emit(g: Gadget) -> (r: Vec<Op>)
        ensures
            r@ == gadget_program(g),
    {
        match g {
            Gadget::M31LimbsAdd => M31LimbsGadget::add_limbs(),
            Gadget::M31Mult => {
                let mut v = M31MultGadget::compute_c_limbs(0);
                let mut t = M31MultGadget::reduce();
                v.append(&mut t);
                v
            },
        }
    }

    /// Applies the gadget `g` with the declared types to the cells `inputs` (see `applied`).
    fn apply(&mut self, g: Gadget, types: &Vec<String>, output: &Vec<String>, inputs: &[usize]) -> (r: Result<Vec<usize>, DslError>)
        ensures
            applied(*old(self), *final(self), g, types@, output@, inputs@, r),
    {
        if !self.shape_ok(inputs, types) {
            return Err(DslError::ShapeMismatch);
        }
        if self.memory.len() >= usize::MAX - 2 {
            return Err(DslError::ArithmeticOverflow);
        }
        let mut out = match self.native(g, inputs, output) {
            Ok(out) => out,
            Err(e) => {
                return Err(e);
            },
        };
        let mut fragment = DSL::emit(g);
        let start = self.memory.len();
        self.memory.append(&mut out.new_elements);
        self.memory.append(&mut out.new_hints);
        self.program.append(&mut fragment);
        let mut refs: Vec<usize> = Vec::new();
        refs.push(start);
        assert(refs@ =~= seq![start]);
        Ok(refs)
    }

    /// Applies the operation registered under `name`, which must take no parameters, to the cells
    /// `inputs`: appends its output cells, whose indices it returns, then its hint cells, and
    /// appends its program.
    pub fn execute(&mut self, name: &str, inputs: &[usize]) -> (r: Result<Vec<usize>, DslError>)
        requires
            old(self).wf(),
        ensures
            final(self).wf(),
            r == Err::<Vec<usize>, DslError>(DslError::UnknownOperation) <==> !old(self).registry.has(name@),
            !old(self).registry.has(name@) ==> *final(self) == *old(self),
            forall|i: int|
                0 <= i < old(self).registry.names@.len() && #[trigger] old(self).registry.names@[i]@
                    == name@ ==> match old(self).registry.entries@[i] {
                    AcceptableFunctionMetadata::FunctionWithOptions(_) => r == Err::<Vec<usize>, DslError>(
                        DslError::VariantMismatch,
                    ) && *final(self) == *old(self),
                    AcceptableFunctionMetadata::FunctionWithoutOptions(m) => applied(
                        *old(self),
                        *final(self),
                        m.gadget,
                        m.input@,
                        m.output@,
                        inputs@,
                        r,
                    ),
                },
    {
        let key = name.to_owned();
        let i = match self.registry.find(&key) {
            Some(i) => i,
            None => {
                return Err(DslError::UnknownOperation);
            },
        };
        let (g, types, output) = match &self.registry.entries[i] {
            AcceptableFunctionMetadata::FunctionWithOptions(_) => {
                return Err(DslError::VariantMismatch);
            },
            AcceptableFunctionMetadata::FunctionWithoutOptions(m) => (m.gadget, m.input.clone(), m.output.clone()),
        };
        self.apply(g, &types, &output, inputs)
    }

    /// Applies the operation registered under `name`, which must take parameters, to the cells
    /// `inputs` with the parameters `options`, which reach the native step and the emission
    /// unchanged; otherwise as `execute`.
    pub fn execute_with_options(&mut self, name: &str, inputs: &[usize], options: &Options) -> (r: Result<Vec<usize>, DslError>)
        requires
            old(self).wf(),
        ensures
            final(self).wf(),
            r == Err::<Vec<usize>, DslError>(DslError::UnknownOperation) <==> !old(self).registry.has(name@),
            !old(self).registry.has(name@) ==> *final(self) == *old(self),
            forall|i: int|
                0 <= i < old(self).registry.names@.len() && #[trigger] old(self).registry.names@[i]@
                    == name@ ==> match old(self).registry.entries@[i] {
                    AcceptableFunctionMetadata::FunctionWithoutOptions(_) => r == Err::<Vec<usize>, DslError>(
                        DslError::VariantMismatch,
                    ) && *final(self) == *old(self),
                    AcceptableFunctionMetadata::FunctionWithOptions(m) => applied(
                        *old(self),
                        *final(self),
                        m.gadget,
                        m.input@,
                        m.output@,
                        inputs@,
                        r,
                    ),
                },
    {
        let key = name.to_owned();
        let i = match self.registry.find(&key) {
            Some(i) => i,
            None => {
                return Err(DslError::UnknownOperation);
            },
        };
        let (g, types, output) = match &self.registry.entries[i] {
            AcceptableFunctionMetadata::FunctionWithoutOptions(_) => {
                return Err(DslError::VariantMismatch);
            },
            AcceptableFunctionMetadata::FunctionWithOptions(m) => (m.gadget, m.input.clone(), m.output.clone()),
        };
        self.apply(g, &types, &output, inputs)
    }
}

/// Two successive successful applications hand out cell indices that never collide and that
/// increase: the second call's cell comes after every cell of the first.
pub proof fn lemma_successive_refs(
    d0: DSL,
    d1: DSL,
    d2: DSL,
    g1: Gadget,
    t1: Seq<String>,
    o1: Seq<String>,
    in1: Seq<usize>,
    r1: Result<Vec<usize>, DslError>,
    g2: Gadget,
    t2: Seq<String>,
    o2: Seq<String>,
    in2: Seq<usize>,
    r2: Result<Vec<usize>, DslError>,
)
    requires
        applied(d0, d1, g1, t1, o1, in1, r1),
        applied(d1, d2, g2, t2, o2, in2, r2),
        r1 is Ok,
        r2 is Ok,
    ensures
        forall|i: int, j: int|
            0 <= i < r1->Ok_0@.len() && 0 <= j < r2->Ok_0@.len() ==> #[trigger] r1->Ok_0@[i]
                < #[trigger] r2->Ok_0@[j],
        forall|i: int| 0 <= i < r1->Ok_0@.len() ==> #[trigger] r1->Ok_0@[i] < d2.memory@.len(),
{
}

/// Allocating the same value twice under a registered type gives two different cells that hold
/// equal values.
pub proof fn lemma_alloc_twice(
    d0: DSL,
    d1: DSL,
    d2: DSL,
    t: Seq<char>,
    data: Element,
    r1: Result<usize, DslError>,
    r2: Result<usize, DslError>,
)
    requires
        d0.knows_type(t),
        allocated(d0, d1, t, data, r1),
        allocated(d1, d2, t, data, r2),
    ensures
        r1 is Ok,
        r2 is Ok,
        r1->Ok_0 != r2->Ok_0,
        d2.memory@[r1->Ok_0 as int].data == d2.memory@[r2->Ok_0 as int].data,
        d2.memory@[r1->Ok_0 as int].data == data,
{
    assert(d1.knows_type(t)) by {
        let i = choose|i: int| 0 <= i < d0.data_types@.len() && #[trigger] d0.data_types@[i]@ == t;
        assert(d1.data_types@[i]@ == t);
    }
    assert(d2.memory@.drop_last()[r1->Ok_0 as int] == d2.memory@[r1->Ok_0 as int]);
}

/// For an operation without parameters, operands whose count differs from the declared input
/// count give `ShapeMismatch`, with nothing changed.
pub proof fn lemma_wrong_arity(
    old: DSL,
    new: DSL,
    g: Gadget,
    types: Seq<String>,
    output: Seq<String>,
    inputs: Seq<usize>,
    r: Result<Vec<usize>, DslError>,
)
    requires
        applied(old, new, g, types, output, inputs, r),
        inputs.len() != types.len(),
    ensures
        r == Err::<Vec<usize>, DslError>(DslError::ShapeMismatch),
        new == old,
{
}

} // verus!

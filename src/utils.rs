use vstd::prelude::*;

verus! {

/// The order of the Mersenne31 field, 2^31 - 1.
pub open spec fn modulus() -> int {
    2147483647
}

/// The value of four little-endian base-256 limbs (each limb may be any integer).
pub open spec fn limbs_value(l: Seq<int>) -> int
    recommends
        l.len() == 4,
{
    l[0] + 256 * l[1] + 65536 * l[2] + 16777216 * l[3]
}

/// Limb `i` (little-endian) of `v`: its byte at bits 8i..8i+7.
pub open spec fn byte_of(v: u32, i: int) -> int {
    if i == 0 {
        (v % 256) as int
    } else if i == 1 {
        ((v / 256) % 256) as int
    } else if i == 2 {
        ((v / 65536) % 256) as int
    } else {
        ((v / 16777216) % 256) as int
    }
}

/// The four little-endian bytes of `v`.
pub open spec fn bytes_of(v: u32) -> Seq<int> {
    seq![byte_of(v, 0), byte_of(v, 1), byte_of(v, 2), byte_of(v, 3)]
}

/// The bytes of `v` are bytes and add back up to `v`.
pub proof fn lemma_bytes_of(v: u32)
    ensures
        limbs_value(bytes_of(v)) == v,
        forall|i: int| 0 <= i < 4 ==> 0 <= #[trigger] bytes_of(v)[i] < 256,
        v < 2147483648 ==> bytes_of(v)[3] < 128,
{
    assert(v == v % 256 + 256 * ((v / 256) % 256) + 65536 * ((v / 65536) % 256) + 16777216 * ((v
        / 16777216) % 256)) by (bit_vector);
    assert(v < 2147483648 ==> (v / 16777216) % 256 < 128) by (bit_vector);
}

/// Splits `v` into its four little-endian bytes.
pub fn m31_to_limbs(v: u32) -> (r: [i32; 4])
    ensures
        forall|i: int| 0 <= i < 4 ==> r[i] == #[trigger] byte_of(v, i),
        forall|i: int| 0 <= i < 4 ==> 0 <= #[trigger] r[i] < 256,
        v as int == r[0] + 256 * r[1] + 65536 * r[2] + 16777216 * r[3],
{
    let r0 = v & 255;
    let r1 = (v >> 8u32) & 255;
    let r2 = (v >> 16u32) & 255;
    let r3 = (v >> 24u32) & 255;
    assert(r0 == v % 256 && r1 == (v / 256) % 256 && r2 == (v / 65536) % 256 && r3 == (v / 16777216) % 256) by (bit_vector)
        requires r0 == v & 255, r1 == (v >> 8u32) & 255, r2 == (v >> 16u32) & 255, r3 == (v >> 24u32) & 255;
    assert(v == r0 + 256 * r1 + 65536 * r2 + 16777216 * r3) by (bit_vector)
        requires r0 == v & 255, r1 == (v >> 8u32) & 255, r2 == (v >> 16u32) & 255, r3 == (v >> 24u32) & 255;
    [r0 as i32, r1 as i32, r2 as i32, r3 as i32]
}

} // verus!

//! Numbers as bytes, the low byte first.
use vstd::prelude::*;

verus! {

/// The two bytes of a number below 65536.
pub open spec fn le2(v: int) -> Seq<u8> {
    seq![(v % 256) as u8, (v / 256 % 256) as u8]
}

/// The four bytes of a number below 2^32.
pub open spec fn le4(v: int) -> Seq<u8> {
    seq![
        (v % 256) as u8,
        (v / 256 % 256) as u8,
        (v / 65536 % 256) as u8,
        (v / 16777216 % 256) as u8,
    ]
}

/// The number in the four bytes from index `i` on.
pub open spec fn le4_at(data: Seq<u8>, i: int) -> nat {
    (data[i] + 256 * data[i + 1] + 65536 * data[i + 2] + 16777216 * data[i + 3]) as nat
}

/// The four bytes of a number.
pub fn le4_bytes(v: u32) -> (r: Vec<u8>)
    ensures
        r@ == le4(v as int),
{
    let mut r: Vec<u8> = Vec::new();
    r.push((v % 256) as u8);
    r.push((v / 256 % 256) as u8);
    r.push((v / 65536 % 256) as u8);
    r.push((v / 16777216 % 256) as u8);
    assert(r@ =~= le4(v as int));
    r
}

/// The number in the four bytes from index `i` on.
pub fn read_le4(data: &Vec<u8>, i: usize) -> (r: u32)
    requires
        i + 4 <= data@.len(),
    ensures
        r == le4_at(data@, i as int),
{
    let _n: usize = data.len();
    let a: u32 = data[i] as u32;
    let b: u32 = data[i + 1] as u32;
    let c: u32 = data[i + 2] as u32;
    let d: u32 = data[i + 3] as u32;
    a + 256 * b + 65536 * c + 16777216 * d
}

proof fn lemma_scale(v: int)
    requires
        0 <= v < 0x1_0000_0000,
    ensures
        v == v % 256 + 256 * (v / 256 % 256) + 65536 * (v / 65536 % 256) + 16777216 * (v / 16777216
            % 256),
{
    let a = v / 256;
    let b = a / 256;
    let c = b / 256;
    assert(v / 65536 == b);
    assert(v / 16777216 == c);
    assert(0 <= c < 256);
    assert(v == 256 * a + v % 256 && a == 256 * b + a % 256 && b == 256 * c + b % 256);
}

/// Reading the bytes of a number gives the number back.
pub proof fn read_undoes_write(v: u32)
    ensures
        le4_at(le4(v as int), 0) == v,
{
    lemma_scale(v as int);
}

/// The bytes of a number are its digits in the scale of 256, the low one first.
pub proof fn the_low_byte_comes_first(v: u32, w: u16)
    ensures
        le4(v as int).len() == 4,
        v == le4(v as int)[0] + 256 * le4(v as int)[1] + 65536 * le4(v as int)[2] + 16777216 * le4(
            v as int,
        )[3],
        le2(w as int).len() == 2,
        w == le2(w as int)[0] + 256 * le2(w as int)[1],
{
    lemma_scale(v as int);
}

/// A number is read from the four bytes at its place, the low one first, and the bytes around it do
/// not matter.
pub proof fn a_number_is_read_at_its_place(before: Seq<u8>, v: u32, rest: Seq<u8>)
    ensures
        le4_at(before + le4(v as int) + rest, before.len() as int) == v,
{
    let d = before + le4(v as int) + rest;
    let i = before.len() as int;
    assert(d[i] == le4(v as int)[0]);
    assert(d[i + 1] == le4(v as int)[1]);
    assert(d[i + 2] == le4(v as int)[2]);
    assert(d[i + 3] == le4(v as int)[3]);
    lemma_scale(v as int);
}

} // verus!

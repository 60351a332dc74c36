//! Small byte-string helpers shared by the key formats.

use vstd::prelude::*;

verus! {

/// A byte string whose first, middle and last parts are `a`, `b` and `c` is
/// their concatenation.
pub(crate) proof fn lemma_three_parts(input: Seq<u8>, a: Seq<u8>, b: Seq<u8>, c: Seq<u8>)
    requires
        input.len() == a.len() + b.len() + c.len(),
        input.subrange(0, a.len() as int) == a,
        input.subrange(a.len() as int, (a.len() + b.len()) as int) == b,
        input.subrange((a.len() + b.len()) as int, input.len() as int) == c,
    ensures
        input == a + b + c,
{
    let n = a.len() as int;
    let m = b.len() as int;
    assert forall|i: int| 0 <= i < input.len() implies input[i] == (a + b + c)[i] by {
        if i < n {
            assert(input[i] == input.subrange(0, n)[i]);
        } else if i < n + m {
            assert(input[i] == input.subrange(n, n + m)[i - n]);
        } else {
            assert(input[i] == input.subrange(n + m, input.len() as int)[i - n - m]);
        }
    }
    assert(input =~= a + b + c);
}

/// Whether `s` reads exactly `text`.
pub(crate) fn text_is(s: &String, text: &str) -> (r: bool)
    ensures
        r == (s@ == text@),
{
    let t: String = text.to_owned();
    s.eq(&t)
}

/// Appends `bytes` to `out`.
pub(crate) fn push_all(out: &mut Vec<u8>, bytes: &[u8])
    ensures
        final(out)@ == old(out)@ + bytes@,
{
    let ghost start = out@;
    let mut i: usize = 0;
    while i < bytes.len()
        invariant
            0 <= i <= bytes.len(),
            out@ == start + bytes@.subrange(0, i as int),
        decreases bytes.len() - i,
    {
        out.push(bytes[i]);
        assert(bytes@.subrange(0, i + 1) =~= bytes@.subrange(0, i as int).push(bytes@[i as int]));
        i += 1;
    }
    assert(bytes@.subrange(0, bytes@.len() as int) =~= bytes@);
}

/// The bytes of `data` from `from` up to `to`, as a new vector.
pub(crate) fn copy_range(data: &[u8], from: usize, to: usize) -> (out: Vec<u8>)
    requires
        from <= to <= data@.len(),
    ensures
        out@ == data@.subrange(from as int, to as int),
{
    let mut out: Vec<u8> = Vec::new();
    let mut i: usize = from;
    while i < to
        invariant
            from <= i <= to,
            to <= data@.len(),
            out@ == data@.subrange(from as int, i as int),
        decreases to - i,
    {
        out.push(data[i]);
        assert(data@.subrange(from as int, i + 1) =~= data@.subrange(from as int, i as int).push(
            data@[i as int],
        ));
        i += 1;
    }
    out
}

/// The 32 bytes of `data` from `from` on, as an array.
pub(crate) fn block32(data: &[u8], from: usize) -> (out: [u8; 32])
    requires
        from + 32 <= data@.len(),
    ensures
        out@ == data@.subrange(from as int, from + 32),
{
    let n: usize = data.len();
    let mut out: [u8; 32] = [0u8; 32];
    let mut i: usize = 0;
    while i < 32
        invariant
            0 <= i <= 32,
            n == data@.len(),
            from + 32 <= data@.len(),
            forall|j: int| 0 <= j < i ==> out@[j] == data@[from + j],
        decreases 32 - i,
    {
        out[i] = data[from + i];
        i += 1;
    }
    assert(out@ =~= data@.subrange(from as int, from + 32));
    out
}

} // verus!

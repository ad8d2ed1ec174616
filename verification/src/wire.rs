//! Writing fixed-width fields to a buffer and reading them off a stream of
//! bytes.

use vstd::prelude::*;
use vstd::std_specs::iter::IteratorSpec;

verus! {

/// Takes the next `n` bytes off the stream.
///
/// Gives the bytes when the stream still holds `n` of them, and leaves the
/// stream just behind them. Gives `None` when the stream ends before that;
/// the stream is then used up.
pub fn take_bytes<'a, I: Iterator<Item = &'a u8>>(it: &mut I, n: usize) -> (r: Option<Vec<u8>>)
    ensures
        r matches Some(v) ==> v@.len() == n,
        (*final(it)).obeys_prophetic_iter_laws() == (*old(it)).obeys_prophetic_iter_laws(),
        (*old(it)).obeys_prophetic_iter_laws() ==> match r {
            Some(v) => {
                &&& n <= (*old(it)).remaining().len()
                &&& v@ == (*old(it)).remaining().unref().take(n as int)
                &&& (*final(it)).remaining() == (*old(it)).remaining().skip(n as int)
            },
            None => {
                &&& (*old(it)).remaining().len() < n
                &&& (*final(it)).remaining().len() == 0
            },
        },
{
    let mut v: Vec<u8> = Vec::new();
    let mut i: usize = 0;
    while i < n
        invariant
            i <= n,
            v@.len() == i,
            (*it).obeys_prophetic_iter_laws() == (*old(it)).obeys_prophetic_iter_laws(),
            (*old(it)).obeys_prophetic_iter_laws() ==> {
                &&& i <= (*old(it)).remaining().len()
                &&& v@ == (*old(it)).remaining().unref().take(i as int)
                &&& (*it).remaining() == (*old(it)).remaining().skip(i as int)
            },
        decreases n - i,
    {
        match it.next() {
            Some(b) => {
                v.push(*b);
                proof {
                    if (*old(it)).obeys_prophetic_iter_laws() {
                        let rem = (*old(it)).remaining();
                        assert(rem.skip(i as int).drop_first() =~= rem.skip(i + 1));
                        assert(rem.unref().take(i + 1) =~= rem.unref().take(i as int).push(
                            *rem[i as int],
                        ));
                    }
                }
            },
            None => {
                return None;
            },
        }
        i += 1;
    }
    Some(v)
}

/// Appends `bytes` to `output`.
pub fn put_bytes(output: &mut Vec<u8>, bytes: &Vec<u8>)
    ensures
        final(output)@ == old(output)@ + bytes@,
{
    let mut i: usize = 0;
    while i < bytes.len()
        invariant
            i <= bytes@.len(),
            output@ == old(output)@ + bytes@.take(i as int),
        decreases bytes@.len() - i,
    {
        output.push(bytes[i]);
        proof {
            assert(output@ =~= old(output)@ + bytes@.take(i + 1));
        }
        i += 1;
    }
    proof {
        assert(bytes@.take(bytes@.len() as int) =~= bytes@);
    }
}

/// A copy of `bytes`.
pub fn copy_bytes(bytes: &Vec<u8>) -> (r: Vec<u8>)
    ensures
        r@ == bytes@,
{
    let mut r: Vec<u8> = Vec::new();
    put_bytes(&mut r, bytes);
    proof {
        assert(r@ =~= bytes@);
    }
    r
}

} // verus!

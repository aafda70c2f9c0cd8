use vstd::prelude::*;

verus! {

/// Splits a non-empty key sequence into its first character and the rest.
pub fn split_first_char(keys: &[char]) -> (r: (char, Vec<char>))
    requires
        keys@.len() >= 1,
    ensures
        r.0 == keys@[0],
        r.1@ == keys@.skip(1),
{
    let prefix = keys[0];
    let mut rest: Vec<char> = Vec::new();
    let mut i: usize = 1;
    while i < keys.len()
        invariant
            1 <= i <= keys@.len(),
            rest@ == keys@.subrange(1, i as int),
        decreases keys@.len() - i,
    {
        rest.push(keys[i]);
        i += 1;
    }
    proof {
        assert(keys@.subrange(1, keys@.len() as int) =~= keys@.skip(1));
    }
    (prefix, rest)
}

/// Appends every character of `src` to `dst`, in order.
pub fn append_chars(dst: &mut Vec<char>, src: &Vec<char>)
    ensures
        final(dst)@ == old(dst)@ + src@,
{
    let mut i: usize = 0;
    proof {
        assert(dst@ =~= old(dst)@ + src@.subrange(0, 0));
    }
    while i < src.len()
        invariant
            i <= src@.len(),
            dst@ == old(dst)@ + src@.subrange(0, i as int),
        decreases src@.len() - i,
    {
        dst.push(src[i]);
        proof {
            assert(dst@ =~= old(dst)@ + src@.subrange(0, i as int + 1));
        }
        i += 1;
    }
    proof {
        assert(old(dst)@ + src@.subrange(0, src@.len() as int) =~= old(dst)@ + src@);
    }
}

/// A copy of the characters of `line` from `a` (inclusive) to `b`
/// (exclusive).
pub fn copy_range(line: &Vec<char>, a: usize, b: usize) -> (r: Vec<char>)
    requires
        a <= b <= line@.len(),
    ensures
        r@ == line@.subrange(a as int, b as int),
{
    let mut r: Vec<char> = Vec::new();
    let mut i: usize = a;
    #[verifier::loop_isolation(false)]
    while i < b
        invariant
            a <= i <= b,
            r@ == line@.subrange(a as int, i as int),
        decreases b - i,
    {
        r.push(line[i]);
        proof {
            assert(r@ =~= line@.subrange(a as int, i as int + 1));
        }
        i += 1;
    }
    proof {
        assert(line@.subrange(a as int, a as int) =~= Seq::<char>::empty());
    }
    r
}

/// Relies on `String: FromIterator<char>`: collecting an iterator of
/// characters yields the string consisting of exactly those characters,
/// in order.
#[verifier::external_body]
pub fn chars_to_string(chars: &Vec<char>) -> (r: String)
    ensures
        r@ == chars@,
{
    chars.iter().collect()
}

} // verus!

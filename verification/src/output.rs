//! The text form of a report: rendered items written to a byte buffer, one
//! after another, or as a bracketed list.

use vstd::prelude::*;
use vstd::string::StringSliceAdditionalSpecFns;
use vstd::utf8::encode_utf8;

verus! {

/// The byte `[`, which opens a list.
pub const LIST_OPEN: u8 = 0x5B;

/// The byte `]`, which closes a list.
pub const LIST_CLOSE: u8 = 0x5D;

/// The byte `,`, which stands between two items of a list.
pub const LIST_SEPARATOR: u8 = 0x2C;

/// The items in UTF-8, one after another, with a comma between every two of
/// them.
pub open spec fn joined(items: Seq<String>) -> Seq<u8>
    decreases items.len(),
{
    if items.len() == 0 {
        Seq::empty()
    } else if items.len() == 1 {
        encode_utf8(items[0]@)
    } else {
        joined(items.drop_last()) + seq![LIST_SEPARATOR] + encode_utf8(items.last()@)
    }
}

/// The items as a list: an opening bracket, the items with a comma between
/// every two of them, a closing bracket. The empty list is `[]`.
pub open spec fn bracketed(items: Seq<String>) -> Seq<u8> {
    seq![LIST_OPEN] + joined(items) + seq![LIST_CLOSE]
}

/// Appends `data`, in UTF-8, to the output.
pub fn write(output: &mut Vec<u8>, data: &str)
    ensures
        final(output)@ == old(output)@ + data.spec_bytes(),
{
    let bytes = data.as_bytes();
    let mut i: usize = 0;
    while i < bytes.len()
        invariant
            i <= bytes@.len(),
            bytes@ == data.spec_bytes(),
            output@ == old(output)@ + bytes@.take(i as int),
        decreases bytes@.len() - i,
    {
        output.push(bytes[i]);
        proof {
            assert(bytes@.take(i + 1) =~= bytes@.take(i as int).push(bytes@[i as int]));
        }
        i += 1;
    }
    proof {
        assert(bytes@.take(bytes@.len() as int) =~= bytes@);
    }
}

/// Appends the items to the output as a bracketed list.
pub fn write_vec(output: &mut Vec<u8>, vec: &Vec<String>)
    ensures
        final(output)@ == old(output)@ + bracketed(vec@),
{
    output.push(LIST_OPEN);
    let mut i: usize = 0;
    while i < vec.len()
        invariant
            i <= vec@.len(),
            output@ == old(output)@ + seq![LIST_OPEN] + joined(vec@.take(i as int)),
        decreases vec@.len() - i,
    {
        if i > 0 {
            output.push(LIST_SEPARATOR);
        }
        write(output, vec[i].as_str());
        proof {
            let before = vec@.take(i as int);
            let after = vec@.take(i + 1);
            assert(after.drop_last() =~= before);
            assert(after.last() == vec@[i as int]);
            if i == 0 {
                assert(joined(before) =~= Seq::<u8>::empty());
                assert(joined(after) =~= encode_utf8(vec@[0]@));
            } else {
                assert(joined(after) =~= joined(before) + seq![LIST_SEPARATOR] + encode_utf8(
                    vec@[i as int]@,
                ));
            }
            assert(output@ =~= old(output)@ + seq![LIST_OPEN] + joined(after));
        }
        i += 1;
    }
    output.push(LIST_CLOSE);
    proof {
        assert(vec@.take(vec@.len() as int) =~= vec@);
        assert(output@ =~= old(output)@ + bracketed(vec@));
    }
}

} // verus!

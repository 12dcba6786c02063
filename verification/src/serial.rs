//! The serial console's terminal output: a newline goes out as a carriage return and a newline.
use vstd::prelude::*;

verus! {

/// `input` as sent to the serial line: each `\n` becomes `\r\n`, every other byte is sent as it
/// is.
pub open spec fn line_bytes(input: Seq<u8>) -> Seq<u8>
    decreases input.len(),
{
    if input.len() == 0 {
        Seq::empty()
    } else if input.last() == 0x0a {
        line_bytes(input.drop_last()) + seq![0x0du8, 0x0au8]
    } else {
        line_bytes(input.drop_last()).push(input.last())
    }
}

/// The bytes a terminal write of `input` sends to the serial line.
pub fn translate_newlines(input: &[u8]) -> (output: Vec<u8>)
    ensures
        output@ == line_bytes(input@),
{
    let mut output: Vec<u8> = Vec::new();
    let mut i: usize = 0;
    proof {
        assert(input@.take(0) =~= Seq::<u8>::empty());
    }
    while i < input.len()
        invariant
            i <= input@.len(),
            output@ == line_bytes(input@.take(i as int)),
        decreases input@.len() - i,
    {
        let byte = input[i];
        proof {
            assert(input@.take(i + 1).drop_last() =~= input@.take(i as int));
        }
        if byte == 0x0a {
            output.push(0x0d);
            output.push(0x0a);
            proof {
                assert(output@ =~= line_bytes(input@.take(i + 1)));
            }
        } else {
            output.push(byte);
        }
        i = i + 1;
    }
    proof {
        assert(input@.take(i as int) =~= input@);
    }
    output
}

} // verus!

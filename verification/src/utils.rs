//! Utilities for the generated code.

use vstd::prelude::*;

verus! {

/// The upper case hexadecimal digit of a value below 16.
pub open spec fn hex_digit(d: int) -> char {
    if d < 10 {
        (('0' as int) + d) as char
    } else {
        (('A' as int) + d - 10) as char
    }
}

/// The bytes written as upper case hexadecimal, two digits per byte.
pub open spec fn hex_text(bytes: Seq<u8>) -> Seq<char>
    decreases bytes.len(),
{
    if bytes.len() == 0 {
        Seq::empty()
    } else {
        hex_text(bytes.drop_last()) + seq![
            hex_digit(bytes.last() as int / 16),
            hex_digit(bytes.last() as int % 16),
        ]
    }
}

/// A wrapper around a slice that writes everything as upper case hexadecimal.
pub struct SliceHexFormatter<'a> {
    slice: &'a [u8],
}

impl<'a> SliceHexFormatter<'a> {
    /// The bytes that are written.
    pub closed spec fn bytes(&self) -> Seq<u8> {
        self.slice@
    }

    /// Wrap around the value
    pub fn new(slice: &'a [u8]) -> (res: Self)
        ensures
            res.bytes() == slice@,
    {
        Self { slice }
    }

    /// The bytes in upper case hexadecimal, two digits per byte.
    pub fn to_string(&self) -> (res: String)
        ensures
            res@ == hex_text(self.bytes()),
    {
        let digits = "0123456789ABCDEF";
        proof {
            reveal_strlit("0123456789ABCDEF");
        }
        let mut s = String::new();
        let mut i: usize = 0;
        proof {
            assert(self.slice@.take(0) =~= Seq::<u8>::empty());
        }
        while i < self.slice.len()
            invariant
                i <= self.slice@.len(),
                digits@ == "0123456789ABCDEF"@,
                digits@.len() == 16,
                forall|d: int| 0 <= d < 16 ==> #[trigger] digits@[d] == hex_digit(d),
                s@ == hex_text(self.slice@.take(i as int)),
            decreases self.slice@.len() - i,
        {
            let b = self.slice[i];
            let high = (b / 16) as usize;
            let low = (b % 16) as usize;
            let h = digits.substring_char(high, high + 1);
            let l = digits.substring_char(low, low + 1);
            proof {
                assert(h@ =~= seq![hex_digit(high as int)]);
                assert(l@ =~= seq![hex_digit(low as int)]);
            }
            s.append(h);
            s.append(l);
            proof {
                let next = self.slice@.take(i + 1);
                assert(next.drop_last() =~= self.slice@.take(i as int));
                assert(next.last() == b);
                assert(s@ =~= hex_text(next));
            }
            i = i + 1;
        }
        proof {
            assert(self.slice@.take(self.slice@.len() as int) =~= self.slice@);
        }
        s
    }
}

} // verus!

//! Reset values as they are read from a description file: bytes that are either of a
//! fixed length, or of a length that may be extended with zeroes in front.

use vstd::prelude::*;

use crate::error::Error;

verus! {

/// A reset value read as bytes, most significant first.
#[derive(Debug)]
pub struct ResetValue {
    data: Vec<u8>,
    /// When true, the length of the vec is the known length.
    /// If false, the length is not know and it may be extended with prepended zeroes.
    fixed: bool,
}

/// A reset value as mathematical values.
pub ghost struct ResetValueData {
    pub data: Seq<u8>,
    pub fixed: bool,
}

impl View for ResetValue {
    type V = ResetValueData;

    closed spec fn view(&self) -> ResetValueData {
        ResetValueData { data: self.data@, fixed: self.fixed }
    }
}

/// The number of zero bytes the bytes start with.
pub open spec fn leading_zeros(s: Seq<u8>) -> int
    decreases s.len(),
{
    if s.len() == 0 {
        0
    } else if s[0] != 0 {
        0
    } else {
        1 + leading_zeros(s.subrange(1, s.len() as int))
    }
}

/// `n` zero bytes.
pub open spec fn zeros(n: int) -> Seq<u8> {
    Seq::new(n as nat, |i: int| 0u8)
}

/// The bytes that a reset value read as `data` holds: all of them when the length is
/// fixed, else those after the leading zeroes.
pub open spec fn kept_data(data: Seq<u8>, fixed: bool) -> Seq<u8> {
    if fixed {
        data
    } else {
        data.skip(leading_zeros(data))
    }
}

proof fn lemma_leading_zeros_bound(s: Seq<u8>)
    ensures
        0 <= leading_zeros(s) <= s.len(),
    decreases s.len(),
{
    if s.len() > 0 && s[0] == 0 {
        lemma_leading_zeros_bound(s.subrange(1, s.len() as int));
    }
}

impl ResetValue {
    /// A reset value of the bytes; when the length is not fixed, the leading zero bytes
    /// are dropped.
    pub fn new(data: Vec<u8>, fixed: bool) -> (res: Self)
        ensures
            res@.fixed == fixed,
            res@.data == kept_data(data@, fixed),
    {
        if fixed {
            return ResetValue { data, fixed };
        }
        let ghost s = data@;
        proof {
            assert(s.subrange(0, s.len() as int) =~= s);
        }
        let mut start: usize = 0;
        while start < data.len() && data[start] == 0
            invariant
                start <= s.len(),
                s == data@,
                leading_zeros(s) == start + leading_zeros(s.subrange(start as int, s.len() as int)),
            decreases s.len() - start,
        {
            proof {
                let rest = s.subrange(start as int, s.len() as int);
                assert(rest.subrange(1, rest.len() as int) =~= s.subrange(start + 1, s.len() as int));
            }
            start = start + 1;
        }
        proof {
            let rest = s.subrange(start as int, s.len() as int);
            if start < s.len() {
                assert(rest[0] == s[start as int]);
            }
            assert(leading_zeros(rest) == 0);
        }
        let mut kept: Vec<u8> = Vec::new();
        let mut i: usize = start;
        while i < data.len()
            invariant
                start <= i <= s.len(),
                s == data@,
                kept@ == s.subrange(start as int, i as int),
            decreases s.len() - i,
        {
            kept.push(data[i]);
            i = i + 1;
            proof {
                assert(kept@ =~= s.subrange(start as int, i as int));
            }
        }
        proof {
            assert(kept@ =~= s.skip(leading_zeros(s)));
        }
        ResetValue { data: kept, fixed }
    }

    /// The bytes of the reset value for a register of `num_bytes` bytes: as they are
    /// when the length is fixed, else with zero bytes put in front; an error when they do
    /// not fit.
    pub fn get_data(&self, num_bytes: usize, register_name: &str) -> (res: Result<Vec<u8>, Error>)
        ensures
            res is Ok <==> (if self@.fixed {
                self@.data.len() == num_bytes
            } else {
                self@.data.len() <= num_bytes
            }),
            res matches Ok(v) ==> v@ == zeros(num_bytes - self@.data.len()) + self@.data,
            res matches Err(e) ==> e matches Error::ResetDataWrongLength {
                register_name: name,
                actual_bytes,
                expected_bytes,
            } && name@ == register_name@ && actual_bytes == self@.data.len() && expected_bytes
                == num_bytes,
    {
        if self.fixed {
            if self.data.len() == num_bytes {
                let mut copy: Vec<u8> = Vec::new();
                let mut i: usize = 0;
                while i < self.data.len()
                    invariant
                        i <= self.data@.len(),
                        copy@ == self.data@.take(i as int),
                    decreases self.data@.len() - i,
                {
                    copy.push(self.data[i]);
                    i = i + 1;
                    proof {
                        assert(copy@ =~= self.data@.take(i as int));
                    }
                }
                proof {
                    assert(copy@ =~= zeros(0) + self.data@);
                }
                Ok(copy)
            } else {
                Err(
                    Error::ResetDataWrongLength {
                        register_name: register_name.to_owned(),
                        actual_bytes: self.data.len(),
                        expected_bytes: num_bytes,
                    },
                )
            }
        } else if num_bytes < self.data.len() {
            Err(
                Error::ResetDataWrongLength {
                    register_name: register_name.to_owned(),
                    actual_bytes: self.data.len(),
                    expected_bytes: num_bytes,
                },
            )
        } else {
            let extra_length_required = num_bytes - self.data.len();
            let mut data: Vec<u8> = Vec::new();
            let mut i: usize = 0;
            while i < self.data.len()
                invariant
                    i <= self.data@.len(),
                    data@ == self.data@.take(i as int),
                decreases self.data@.len() - i,
            {
                data.push(self.data[i]);
                i = i + 1;
                proof {
                    assert(data@ =~= self.data@.take(i as int));
                }
            }
            proof {
                assert(self.data@.take(self.data@.len() as int) =~= self.data@);
            }
            let mut k: usize = 0;
            while k < extra_length_required
                invariant
                    k <= extra_length_required,
                    data@ == zeros(k as int) + self.data@,
                decreases extra_length_required - k,
            {
                data.insert(0, 0);
                k = k + 1;
                proof {
                    assert(data@ =~= zeros(k as int) + self.data@);
                }
            }
            Ok(data)
        }
    }
}


/// Reading back a reset value at the length it was given with gives the bytes it was
/// given with: a fixed one keeps them all, and one without a fixed length gets back the
/// leading zeroes it dropped.
pub proof fn lemma_reset_data_round_trip(data: Seq<u8>, fixed: bool)
    ensures
        kept_data(data, fixed).len() <= data.len(),
        zeros(data.len() - kept_data(data, fixed).len()) + kept_data(data, fixed) == data,
    decreases data.len(),
{
    lemma_leading_zeros_bound(data);
    if fixed {
        assert(zeros(0) + data =~= data);
    } else if data.len() > 0 && data[0] == 0 {
        let rest = data.subrange(1, data.len() as int);
        lemma_reset_data_round_trip(rest, false);
        lemma_leading_zeros_bound(rest);
        assert(leading_zeros(data) == 1 + leading_zeros(rest));
        assert(kept_data(data, false) =~= kept_data(rest, false));
        assert(zeros(data.len() - kept_data(data, false).len()) =~= seq![0u8] + zeros(
            rest.len() - kept_data(rest, false).len(),
        ));
        assert(data =~= seq![0u8] + rest);
        assert(zeros(data.len() - kept_data(data, false).len()) + kept_data(data, false) =~= data);
    } else {
        assert(kept_data(data, false) =~= data);
        assert(zeros(0) + data =~= data);
    }
}

} // verus!

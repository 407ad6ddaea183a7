//! Module parameters: the types a parameter may have, decimal argument
//! parsing, and the access wrapper the module glue reads values from.

use vstd::prelude::*;
use crate::DriverError;

verus! {

/// Whether a byte is an ASCII decimal digit.
pub open spec fn spec_is_digit(c: u8) -> bool {
    48 <= c <= 57
}

/// The value of an ASCII decimal numeral.
pub open spec fn spec_dec_value(s: Seq<u8>) -> int
    decreases s.len(),
{
    if s.len() == 0 {
        0
    } else {
        spec_dec_value(s.drop_last()) * 10 + (s.last() - 48)
    }
}

/// Whether a byte sequence is a well-formed decimal numeral.
pub open spec fn spec_dec_wf(s: Seq<u8>) -> bool {
    s.len() > 0 && forall|i: int| 0 <= i < s.len() ==> spec_is_digit(#[trigger] s[i])
}

/// Reading one more digit multiplies the prefix value by ten and adds
/// the digit.
pub proof fn lemma_dec_take_step(s: Seq<u8>, i: int)
    requires
        0 <= i < s.len(),
    ensures
        spec_dec_value(s.take(i + 1)) == spec_dec_value(s.take(i)) * 10 + (s[i] - 48),
{
    assert(s.take(i + 1).drop_last() =~= s.take(i));
    assert(s.take(i + 1).last() == s[i]);
}

/// Digits only grow a numeral: every prefix value bounds the whole.
pub proof fn lemma_dec_prefix_le(s: Seq<u8>, i: int)
    requires
        0 <= i <= s.len(),
        forall|j: int| 0 <= j < s.len() ==> spec_is_digit(#[trigger] s[j]),
    ensures
        spec_dec_value(s.take(i)) <= spec_dec_value(s),
        spec_dec_value(s.take(i)) >= 0,
    decreases s.len() - i,
{
    if i == s.len() {
        assert(s.take(i) =~= s);
        lemma_dec_nonneg(s);
    } else {
        lemma_dec_take_step(s, i);
        lemma_dec_prefix_le(s, i + 1);
        lemma_dec_nonneg(s.take(i));
    }
}

/// Numerals have non-negative values.
pub proof fn lemma_dec_nonneg(s: Seq<u8>)
    requires
        forall|j: int| 0 <= j < s.len() ==> spec_is_digit(#[trigger] s[j]),
    ensures
        spec_dec_value(s) >= 0,
    decreases s.len(),
{
    if s.len() > 0 {
        assert(forall|j: int|
            0 <= j < s.drop_last().len() ==> spec_is_digit(#[trigger] s.drop_last()[j]));
        lemma_dec_nonneg(s.drop_last());
    }
}

/// Types usable as module parameters.
pub trait ModuleParam: Sized {
    /// The parse result a parameter argument decodes to, if any.
    spec fn spec_parse(arg: Seq<u8>) -> Option<Self>;

    /// Parse a parameter argument into the parameter value; fails when
    /// the argument is not a numeral of the type's range.
    fn try_from_param_arg(arg: &[u8]) -> (r: Result<Self, DriverError>)
        ensures
            match Self::spec_parse(arg@) {
                Some(v) => r == Ok::<Self, DriverError>(v),
                None => r == Err::<Self, DriverError>(DriverError::Invalid),
            },
    ;
}

impl ModuleParam for u64 {
    open spec fn spec_parse(arg: Seq<u8>) -> Option<u64> {
        if spec_dec_wf(arg) && spec_dec_value(arg) <= u64::MAX {
            Some(spec_dec_value(arg) as u64)
        } else {
            None
        }
    }

    fn try_from_param_arg(arg: &[u8]) -> (r: Result<u64, DriverError>) {
        if arg.len() == 0 {
            return Err(DriverError::Invalid);
        }
        let ghost s = arg@;
        let mut acc: u64 = 0;
        let mut i: usize = 0;
        proof {
            assert(s.take(0) =~= Seq::<u8>::empty());
        }
        while i < arg.len()
            invariant
                i <= arg.len(),
                s == arg@,
                acc == spec_dec_value(s.take(i as int)),
                forall|j: int| 0 <= j < i ==> spec_is_digit(#[trigger] s[j]),
            decreases arg.len() - i,
        {
            let c = arg[i];
            if c < 48 || c > 57 {
                return Err(DriverError::Invalid);
            }
            let d = (c - 48) as u64;
            proof {
                lemma_dec_take_step(s, i as int);
            }
            if acc > (u64::MAX - d) / 10 {
                // The numeral has already outgrown the type; any further
                // digits only make it larger.
                proof {
                    vstd::arithmetic::div_mod::lemma_fundamental_div_mod(
                        u64::MAX - d,
                        10,
                    );
                    if spec_dec_wf(s) {
                        lemma_dec_prefix_le(s, i + 1);
                    }
                }
                return Err(DriverError::Invalid);
            }
            acc = acc * 10 + d;
            i = i + 1;
        }
        proof {
            assert(s.take(arg.len() as int) =~= s);
        }
        Ok(acc)
    }
}

impl ModuleParam for u32 {
    open spec fn spec_parse(arg: Seq<u8>) -> Option<u32> {
        if spec_dec_wf(arg) && spec_dec_value(arg) <= u32::MAX {
            Some(spec_dec_value(arg) as u32)
        } else {
            None
        }
    }

    fn try_from_param_arg(arg: &[u8]) -> (r: Result<u32, DriverError>) {
        let r64 = <u64 as ModuleParam>::try_from_param_arg(arg);
        proof {
            if spec_dec_wf(arg@) {
                lemma_dec_nonneg(arg@);
            }
        }
        match r64 {
            Ok(v) => {
                if v <= u32::MAX as u64 {
                    Ok(v as u32)
                } else {
                    Err(DriverError::Invalid)
                }
            },
            Err(e) => Err(e),
        }
    }
}

/// A module parameter as the kernel glue sees it: the parameter value
/// in a shared, read-only cell.
pub struct RacyKernelParam<T> {
    pub value: T,
}

/// Access wrapper the module glue reads parameter values through.
pub struct ModuleParamAccess<T> {
    pub data: T,
}

impl<T: Copy> ModuleParamAccess<T> {
    pub fn new(value: T) -> (r: Self)
        ensures
            r.data == value,
    {
        ModuleParamAccess { data: value }
    }

    /// A copy of the parameter value.
    pub fn get(&self) -> (r: T)
        ensures
            r == self.data,
    {
        self.data
    }
}

} // verus!

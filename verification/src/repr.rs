//! The integer types that can back an enum's indices.

use crate::number::Number;
use crate::schema::text_is;
use vstd::arithmetic::power2::pow2;
use vstd::layout::{signed_int_min_max_values, unsigned_int_max_values};
use vstd::prelude::*;

verus! {

/// One of the primitive integer types.
#[derive(Clone, Copy, Debug, PartialEq, Eq, Hash, Structural)]
pub enum ReprType {
    I8,
    U8,
    I16,
    U16,
    I32,
    U32,
    I64,
    U64,
    I128,
    U128,
    Isize,
    Usize,
}

impl ReprType {
    /// The smallest value of the type.
    pub open spec fn lowest(self) -> int {
        match self {
            ReprType::I8 => i8::MIN as int,
            ReprType::I16 => i16::MIN as int,
            ReprType::I32 => i32::MIN as int,
            ReprType::I64 => i64::MIN as int,
            ReprType::I128 => i128::MIN as int,
            ReprType::Isize => isize::MIN as int,
            _ => 0,
        }
    }

    /// The largest value of the type.
    pub open spec fn highest(self) -> int {
        match self {
            ReprType::I8 => i8::MAX as int,
            ReprType::U8 => u8::MAX as int,
            ReprType::I16 => i16::MAX as int,
            ReprType::U16 => u16::MAX as int,
            ReprType::I32 => i32::MAX as int,
            ReprType::U32 => u32::MAX as int,
            ReprType::I64 => i64::MAX as int,
            ReprType::U64 => u64::MAX as int,
            ReprType::I128 => i128::MAX as int,
            ReprType::U128 => u128::MAX as int,
            ReprType::Isize => isize::MAX as int,
            ReprType::Usize => usize::MAX as int,
        }
    }

    /// Whether the type has negative values.
    pub open spec fn spec_is_signed(self) -> bool {
        match self {
            ReprType::I8 | ReprType::I16 | ReprType::I32 | ReprType::I64 | ReprType::I128
            | ReprType::Isize => true,
            _ => false,
        }
    }

    /// The width of the type in bits.
    pub open spec fn spec_bits(self) -> u32 {
        match self {
            ReprType::I8 | ReprType::U8 => 8,
            ReprType::I16 | ReprType::U16 => 16,
            ReprType::I32 | ReprType::U32 => 32,
            ReprType::I64 | ReprType::U64 => 64,
            ReprType::I128 | ReprType::U128 => 128,
            ReprType::Isize | ReprType::Usize => usize::BITS,
        }
    }

    /// Whether `n` is a value of the type.
    pub open spec fn holds(self, n: int) -> bool {
        self.lowest() <= n <= self.highest()
    }

    /// The name of the type as it is written in source.
    pub open spec fn name(self) -> Seq<char> {
        match self {
            ReprType::I8 => "i8"@,
            ReprType::U8 => "u8"@,
            ReprType::I16 => "i16"@,
            ReprType::U16 => "u16"@,
            ReprType::I32 => "i32"@,
            ReprType::U32 => "u32"@,
            ReprType::I64 => "i64"@,
            ReprType::U64 => "u64"@,
            ReprType::I128 => "i128"@,
            ReprType::U128 => "u128"@,
            ReprType::Isize => "isize"@,
            ReprType::Usize => "usize"@,
        }
    }

    /// The type that `text` names, if it names one.
    pub open spec fn named(text: Seq<char>) -> Option<ReprType> {
        if text == "i8"@ {
            Some(ReprType::I8)
        } else if text == "u8"@ {
            Some(ReprType::U8)
        } else if text == "i16"@ {
            Some(ReprType::I16)
        } else if text == "u16"@ {
            Some(ReprType::U16)
        } else if text == "i32"@ {
            Some(ReprType::I32)
        } else if text == "u32"@ {
            Some(ReprType::U32)
        } else if text == "i64"@ {
            Some(ReprType::I64)
        } else if text == "u64"@ {
            Some(ReprType::U64)
        } else if text == "i128"@ {
            Some(ReprType::I128)
        } else if text == "u128"@ {
            Some(ReprType::U128)
        } else if text == "isize"@ {
            Some(ReprType::Isize)
        } else if text == "usize"@ {
            Some(ReprType::Usize)
        } else {
            None
        }
    }

    /// Every type holds zero and every value up to 127.
    pub proof fn lemma_range(self)
        ensures
            Number::lowest() <= self.lowest() <= 0,
            127 <= self.highest() <= Number::highest(),
    {
    }

    /// The range of a type follows from its width and from whether it has
    /// negative values: half of the `2^bits` values lie below zero if it
    /// has, none if it has not.
    pub proof fn lemma_range_by_width(self)
        ensures
            self.spec_is_signed() ==> self.lowest() == -pow2((self.spec_bits() - 1) as nat)
                && self.highest() == pow2((self.spec_bits() - 1) as nat) - 1,
            !self.spec_is_signed() ==> self.lowest() == 0 && self.highest() == pow2(
                self.spec_bits() as nat,
            ) - 1,
    {
        unsigned_int_max_values();
        signed_int_min_max_values();
    }

    /// No type has a name of a single letter.
    pub proof fn lemma_names_are_long(text: Seq<char>)
        ensures
            Self::named(text) is Some ==> text.len() >= 2,
    {
        reveal_strlit("i8");
        reveal_strlit("u8");
        reveal_strlit("i16");
        reveal_strlit("u16");
        reveal_strlit("i32");
        reveal_strlit("u32");
        reveal_strlit("i64");
        reveal_strlit("u64");
        reveal_strlit("i128");
        reveal_strlit("u128");
        reveal_strlit("isize");
        reveal_strlit("usize");
    }

    /// A type is found again by its own name.
    pub proof fn lemma_named_by_name(self)
        ensures
            Self::named(self.name()) == Some(self),
    {
        reveal_strlit("i8");
        reveal_strlit("u8");
        reveal_strlit("i16");
        reveal_strlit("u16");
        reveal_strlit("i32");
        reveal_strlit("u32");
        reveal_strlit("i64");
        reveal_strlit("u64");
        reveal_strlit("i128");
        reveal_strlit("u128");
        reveal_strlit("isize");
        reveal_strlit("usize");
        assert("i8"@.len() == 2 && "i8"@[0] == 'i');
        assert("u8"@.len() == 2 && "u8"@[0] == 'u');
        assert("i16"@.len() == 3 && "i16"@[0] == 'i' && "i16"@[1] == '1');
        assert("u16"@.len() == 3 && "u16"@[0] == 'u' && "u16"@[1] == '1');
        assert("i32"@.len() == 3 && "i32"@[0] == 'i' && "i32"@[1] == '3');
        assert("u32"@.len() == 3 && "u32"@[0] == 'u' && "u32"@[1] == '3');
        assert("i64"@.len() == 3 && "i64"@[0] == 'i' && "i64"@[1] == '6');
        assert("u64"@.len() == 3 && "u64"@[0] == 'u' && "u64"@[1] == '6');
        assert("i128"@.len() == 4 && "i128"@[0] == 'i');
        assert("u128"@.len() == 4 && "u128"@[0] == 'u');
        assert("isize"@.len() == 5 && "isize"@[0] == 'i');
        assert("usize"@.len() == 5 && "usize"@[0] == 'u');
    }

    /// Whether the type has negative values.
    #[verifier::when_used_as_spec(spec_is_signed)]
    pub fn is_signed(self) -> (r: bool)
        ensures
            r == self.spec_is_signed(),
            r == (self.lowest() < 0),
    {
        match self {
            ReprType::I8 | ReprType::I16 | ReprType::I32 | ReprType::I64 | ReprType::I128
            | ReprType::Isize => true,
            _ => false,
        }
    }

    /// The width of the type in bits.
    #[verifier::when_used_as_spec(spec_bits)]
    pub fn bits(self) -> (r: u32)
        ensures
            r == self.spec_bits(),
    {
        match self {
            ReprType::I8 | ReprType::U8 => 8,
            ReprType::I16 | ReprType::U16 => 16,
            ReprType::I32 | ReprType::U32 => 32,
            ReprType::I64 | ReprType::U64 => 64,
            ReprType::I128 | ReprType::U128 => 128,
            ReprType::Isize | ReprType::Usize => usize::BITS,
        }
    }

    /// The smallest value of the type.
    pub fn min_value(self) -> (n: Number)
        ensures
            n@ == self.lowest(),
    {
        match self {
            ReprType::I8 => Number::from_i128(i8::MIN as i128),
            ReprType::I16 => Number::from_i128(i16::MIN as i128),
            ReprType::I32 => Number::from_i128(i32::MIN as i128),
            ReprType::I64 => Number::from_i128(i64::MIN as i128),
            ReprType::I128 => Number::from_i128(i128::MIN),
            ReprType::Isize => Number::from_i128(isize::MIN as i128),
            _ => Number::zero(),
        }
    }

    /// The largest value of the type.
    pub fn max_value(self) -> (n: Number)
        ensures
            n@ == self.highest(),
    {
        match self {
            ReprType::I8 => Number::from_i128(i8::MAX as i128),
            ReprType::U8 => Number::from_u128(u8::MAX as u128),
            ReprType::I16 => Number::from_i128(i16::MAX as i128),
            ReprType::U16 => Number::from_u128(u16::MAX as u128),
            ReprType::I32 => Number::from_i128(i32::MAX as i128),
            ReprType::U32 => Number::from_u128(u32::MAX as u128),
            ReprType::I64 => Number::from_i128(i64::MAX as i128),
            ReprType::U64 => Number::from_u128(u64::MAX as u128),
            ReprType::I128 => Number::from_i128(i128::MAX),
            ReprType::U128 => Number::from_u128(u128::MAX),
            ReprType::Isize => Number::from_i128(isize::MAX as i128),
            ReprType::Usize => Number::from_u128(usize::MAX as u128),
        }
    }

    /// Whether `n` is a value of the type.
    pub fn contains(self, n: &Number) -> (r: bool)
        ensures
            r == self.holds(n@),
    {
        let low = self.min_value();
        let high = self.max_value();
        low.at_most(n) && n.at_most(&high)
    }

    /// The name of the type as it is written in source.
    pub fn as_str(self) -> (s: &'static str)
        ensures
            s@ == self.name(),
    {
        match self {
            ReprType::I8 => "i8",
            ReprType::U8 => "u8",
            ReprType::I16 => "i16",
            ReprType::U16 => "u16",
            ReprType::I32 => "i32",
            ReprType::U32 => "u32",
            ReprType::I64 => "i64",
            ReprType::U64 => "u64",
            ReprType::I128 => "i128",
            ReprType::U128 => "u128",
            ReprType::Isize => "isize",
            ReprType::Usize => "usize",
        }
    }

    /// The type that `text` names, if it names one.
    pub fn from_name(text: &String) -> (r: Option<ReprType>)
        ensures
            r == Self::named(text@),
    {
        if text_is(text, "i8") {
            Some(ReprType::I8)
        } else if text_is(text, "u8") {
            Some(ReprType::U8)
        } else if text_is(text, "i16") {
            Some(ReprType::I16)
        } else if text_is(text, "u16") {
            Some(ReprType::U16)
        } else if text_is(text, "i32") {
            Some(ReprType::I32)
        } else if text_is(text, "u32") {
            Some(ReprType::U32)
        } else if text_is(text, "i64") {
            Some(ReprType::I64)
        } else if text_is(text, "u64") {
            Some(ReprType::U64)
        } else if text_is(text, "i128") {
            Some(ReprType::I128)
        } else if text_is(text, "u128") {
            Some(ReprType::U128)
        } else if text_is(text, "isize") {
            Some(ReprType::Isize)
        } else if text_is(text, "usize") {
            Some(ReprType::Usize)
        } else {
            None
        }
    }
}

} // verus!

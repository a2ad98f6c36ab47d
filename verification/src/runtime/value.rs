use vstd::prelude::*;

verus! {

/// Which 32-bit word of an encoded value is meant.
#[derive(PartialEq, Eq, Structural, Clone, Copy, Debug)]
pub enum WhichValueWord {
    TagWord,
    PayloadWord,
}

/// The kinds of immediate values.
#[derive(PartialEq, Eq, Structural, Clone, Copy, Debug)]
pub enum VTag {
    Null,
    Undefined,
    True,
    False,
    Cell,
    EncodeAsDouble,
}

/// The number of a tag, in declaration order.
pub open spec fn vtag_number(t: VTag) -> i64 {
    match t {
        VTag::Null => 0,
        VTag::Undefined => 1,
        VTag::True => 2,
        VTag::False => 3,
        VTag::Cell => 4,
        VTag::EncodeAsDouble => 5,
    }
}

/// The high bits that mark an encoded 32-bit integer.
pub const NUMBER_TAG: i64 = -562949953421312;

pub const OTHER_TAG: i64 = 0x2;

pub const BOOL_TAG: i64 = 0x4;

pub const UNDEFINED_TAG: i64 = 0x8;

pub const VALUE_FALSE: i64 = 0x6;

pub const VALUE_TRUE: i64 = 0x7;

pub const VALUE_UNDEFINED: i64 = 0xa;

pub const VALUE_NULL: i64 = 0x2;

pub const MISC_TAG: i64 = 0xe;

/// Used to check for all kinds of immediate values (numbers and "other").
pub const NOT_CELL_MASK: i64 = -562949953421310;

pub const VALUE_EMPTY: i64 = 0x0;

pub const VALUE_DELETED: i64 = 0x4;

/// A value of the language, encoded in 64 bits: a 32-bit integer under
/// `NUMBER_TAG`, an immediate tag, or a pointer to a cell.
#[derive(PartialEq, Eq, Structural, Clone, Copy)]
pub struct Value {
    bits: i64,
}

impl Value {
    /// The encoded bits.
    pub closed spec fn view(&self) -> i64 {
        self.bits
    }

    pub open spec fn is_int32_spec(&self) -> bool {
        self@ & NUMBER_TAG == NUMBER_TAG
    }

    pub open spec fn is_number_spec(&self) -> bool {
        self@ & NUMBER_TAG != 0
    }

    pub open spec fn as_int32_spec(&self) -> i32 {
        self@ as i32
    }

    /// The value of an immediate tag.
    pub fn from_tag(tag: VTag) -> (r: Self)
        ensures
            r@ == vtag_number(tag),
    {
        let bits: i64 = match tag {
            VTag::Null => 0,
            VTag::Undefined => 1,
            VTag::True => 2,
            VTag::False => 3,
            VTag::Cell => 4,
            VTag::EncodeAsDouble => 5,
        };
        Value { bits }
    }

    /// The empty value.
    pub fn empty() -> (r: Self)
        ensures
            r@ == VALUE_EMPTY,
    {
        Value { bits: VALUE_EMPTY }
    }

    /// The value of a 32-bit integer.
    pub fn new_int(x: i32) -> (r: Self)
        ensures
            r@ == NUMBER_TAG | (x as u32 as i64),
            r.is_int32_spec(),
            r.is_number_spec(),
            r.as_int32_spec() == x,
    {
        let bits = NUMBER_TAG | (x as u32 as i64);
        proof {
            assert(bits & NUMBER_TAG == NUMBER_TAG && bits & NUMBER_TAG != 0 && bits as i32 == x) by (bit_vector)
                requires
                    bits == -562949953421312i64 | (x as u32 as i64),
                    NUMBER_TAG == -562949953421312i64,
            ;
        }
        Value { bits }
    }

    pub fn is_empty(&self) -> (r: bool)
        ensures
            r == (self@ == VALUE_EMPTY),
    {
        self.bits == VALUE_EMPTY
    }

    pub fn is_undefined(&self) -> (r: bool)
        ensures
            r == (self@ == vtag_number(VTag::Undefined)),
    {
        *self == Self::from_tag(VTag::Undefined)
    }

    pub fn is_null(&self) -> (r: bool)
        ensures
            r == (self@ == vtag_number(VTag::Null)),
    {
        *self == Self::from_tag(VTag::Null)
    }

    pub fn is_true(&self) -> (r: bool)
        ensures
            r == (self@ == vtag_number(VTag::True)),
    {
        *self == Self::from_tag(VTag::True)
    }

    pub fn is_false(&self) -> (r: bool)
        ensures
            r == (self@ == vtag_number(VTag::False)),
    {
        *self == Self::from_tag(VTag::False)
    }

    pub fn as_bool(&self) -> (r: bool)
        ensures
            r == (self@ == vtag_number(VTag::True)),
    {
        *self == Self::from_tag(VTag::True)
    }

    pub fn is_bool(&self) -> (r: bool)
        ensures
            r == (self@ & !1i64 == VALUE_FALSE),
    {
        (self.bits & !1) == VALUE_FALSE
    }

    pub fn is_null_or_undefined(&self) -> (r: bool)
        ensures
            r == (self@ & !UNDEFINED_TAG == VALUE_NULL),
    {
        (self.bits & !UNDEFINED_TAG) == VALUE_NULL
    }

    pub fn is_cell(&self) -> (r: bool)
        ensures
            r == (!(self@ & NOT_CELL_MASK) != 0),
    {
        !(self.bits & NOT_CELL_MASK) != 0
    }

    pub fn is_number(&self) -> (r: bool)
        ensures
            r == self.is_number_spec(),
    {
        (self.bits & NUMBER_TAG) != 0
    }

    pub fn is_double(&self) -> (r: bool)
        ensures
            r == (!self.is_int32_spec() && self.is_number_spec()),
    {
        !self.is_int32() && self.is_number()
    }

    pub fn is_int32(&self) -> (r: bool)
        ensures
            r == self.is_int32_spec(),
    {
        (self.bits & NUMBER_TAG) == NUMBER_TAG
    }

    pub fn as_int32(&self) -> (r: i32)
        ensures
            r == self.as_int32_spec(),
    {
        self.bits as i32
    }

    pub fn is_tagged_number(&self) -> (r: bool)
        ensures
            r == self.is_number_spec(),
    {
        self.is_number()
    }
}

} // verus!

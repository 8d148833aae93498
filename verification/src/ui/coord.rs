//! Coordinate types: the integer types a rectangle can be measured in.
use vstd::prelude::*;

verus! {

/// `v` clamped into `lo..=hi`.
pub open spec fn clamp(v: int, lo: int, hi: int) -> int {
    if v < lo {
        lo
    } else if v > hi {
        hi
    } else {
        v
    }
}

/// An integer type usable as a coordinate, with its value as an `int`.
pub trait CoordType: Copy + Sized {
    /// The value as a mathematical integer.
    spec fn val(self) -> int;

    /// The smallest value of the type.
    spec fn lo() -> int;

    /// The largest value of the type.
    spec fn hi() -> int;

    /// Every value lies in `lo()..=hi()`, a range holding 0, 1 and 2.
    proof fn lemma_range(self)
        ensures
            Self::lo() <= self.val() <= Self::hi(),
            Self::lo() <= 0,
            2 <= Self::hi(),
    ;

    /// Two coordinates are equal exactly when their values are.
    proof fn lemma_eq(self, other: Self)
        ensures
            self.val() == other.val() <==> self == other,
    ;

    /// Zero.
    fn zero() -> (r: Self)
        ensures
            r.val() == 0,
    ;

    /// One.
    fn one() -> (r: Self)
        ensures
            r.val() == 1,
    ;

    /// The largest value.
    fn max_value() -> (r: Self)
        ensures
            r.val() == Self::hi(),
    ;

    /// Sum clamped into the type's range.
    fn sat_add(self, other: Self) -> (r: Self)
        ensures
            r.val() == clamp(self.val() + other.val(), Self::lo(), Self::hi()),
    ;

    /// Difference clamped into the type's range.
    fn sat_sub(self, other: Self) -> (r: Self)
        ensures
            r.val() == clamp(self.val() - other.val(), Self::lo(), Self::hi()),
    ;

    /// Sum, when it fits.
    fn plus(self, other: Self) -> (r: Self)
        requires
            Self::lo() <= self.val() + other.val() <= Self::hi(),
        ensures
            r.val() == self.val() + other.val(),
    ;

    /// Difference, when it fits.
    fn minus(self, other: Self) -> (r: Self)
        requires
            Self::lo() <= self.val() - other.val() <= Self::hi(),
        ensures
            r.val() == self.val() - other.val(),
    ;

    /// Whether `self <= other`.
    fn at_most(self, other: Self) -> (b: bool)
        ensures
            b == (self.val() <= other.val()),
    ;

    /// Whether `self < other`.
    fn below(self, other: Self) -> (b: bool)
        ensures
            b == (self.val() < other.val()),
    ;

    /// Whether `self == other`.
    fn same(self, other: Self) -> (b: bool)
        ensures
            b == (self.val() == other.val()),
    ;

    /// `n` as a coordinate, when it fits.
    fn from_len(n: usize) -> (r: Option<Self>)
        ensures
            r matches Some(c) ==> c.val() == n,
            r is None <==> n > Self::hi(),
    ;
}

impl CoordType for u8 {
    open spec fn val(self) -> int {
        self as int
    }

    open spec fn lo() -> int {
        0
    }

    open spec fn hi() -> int {
        u8::MAX as int
    }

    proof fn lemma_range(self) {
    }

    proof fn lemma_eq(self, other: Self) {
    }

    fn zero() -> (r: Self) {
        0
    }

    fn one() -> (r: Self) {
        1
    }

    fn max_value() -> (r: Self) {
        u8::MAX
    }

    fn sat_add(self, other: Self) -> (r: Self) {
        match self.checked_add(other) {
            Some(v) => v,
            None => u8::MAX,
        }
    }

    fn sat_sub(self, other: Self) -> (r: Self) {
        match self.checked_sub(other) {
            Some(v) => v,
            None => 0,
        }
    }

    fn plus(self, other: Self) -> (r: Self) {
        self + other
    }

    fn minus(self, other: Self) -> (r: Self) {
        self - other
    }

    fn at_most(self, other: Self) -> (b: bool) {
        self <= other
    }

    fn below(self, other: Self) -> (b: bool) {
        self < other
    }

    fn same(self, other: Self) -> (b: bool) {
        self == other
    }

    fn from_len(n: usize) -> (r: Option<Self>) {
        if n <= u8::MAX as usize {
            Some(n as u8)
        } else {
            None
        }
    }
}

impl CoordType for u16 {
    open spec fn val(self) -> int {
        self as int
    }

    open spec fn lo() -> int {
        0
    }

    open spec fn hi() -> int {
        u16::MAX as int
    }

    proof fn lemma_range(self) {
    }

    proof fn lemma_eq(self, other: Self) {
    }

    fn zero() -> (r: Self) {
        0
    }

    fn one() -> (r: Self) {
        1
    }

    fn max_value() -> (r: Self) {
        u16::MAX
    }

    fn sat_add(self, other: Self) -> (r: Self) {
        match self.checked_add(other) {
            Some(v) => v,
            None => u16::MAX,
        }
    }

    fn sat_sub(self, other: Self) -> (r: Self) {
        match self.checked_sub(other) {
            Some(v) => v,
            None => 0,
        }
    }

    fn plus(self, other: Self) -> (r: Self) {
        self + other
    }

    fn minus(self, other: Self) -> (r: Self) {
        self - other
    }

    fn at_most(self, other: Self) -> (b: bool) {
        self <= other
    }

    fn below(self, other: Self) -> (b: bool) {
        self < other
    }

    fn same(self, other: Self) -> (b: bool) {
        self == other
    }

    fn from_len(n: usize) -> (r: Option<Self>) {
        if n <= u16::MAX as usize {
            Some(n as u16)
        } else {
            None
        }
    }
}

impl CoordType for u32 {
    open spec fn val(self) -> int {
        self as int
    }

    open spec fn lo() -> int {
        0
    }

    open spec fn hi() -> int {
        u32::MAX as int
    }

    proof fn lemma_range(self) {
    }

    proof fn lemma_eq(self, other: Self) {
    }

    fn zero() -> (r: Self) {
        0
    }

    fn one() -> (r: Self) {
        1
    }

    fn max_value() -> (r: Self) {
        u32::MAX
    }

    fn sat_add(self, other: Self) -> (r: Self) {
        match self.checked_add(other) {
            Some(v) => v,
            None => u32::MAX,
        }
    }

    fn sat_sub(self, other: Self) -> (r: Self) {
        match self.checked_sub(other) {
            Some(v) => v,
            None => 0,
        }
    }

    fn plus(self, other: Self) -> (r: Self) {
        self + other
    }

    fn minus(self, other: Self) -> (r: Self) {
        self - other
    }

    fn at_most(self, other: Self) -> (b: bool) {
        self <= other
    }

    fn below(self, other: Self) -> (b: bool) {
        self < other
    }

    fn same(self, other: Self) -> (b: bool) {
        self == other
    }

    fn from_len(n: usize) -> (r: Option<Self>) {
        if n <= u32::MAX as usize {
            Some(n as u32)
        } else {
            None
        }
    }
}

impl CoordType for u64 {
    open spec fn val(self) -> int {
        self as int
    }

    open spec fn lo() -> int {
        0
    }

    open spec fn hi() -> int {
        u64::MAX as int
    }

    proof fn lemma_range(self) {
    }

    proof fn lemma_eq(self, other: Self) {
    }

    fn zero() -> (r: Self) {
        0
    }

    fn one() -> (r: Self) {
        1
    }

    fn max_value() -> (r: Self) {
        u64::MAX
    }

    fn sat_add(self, other: Self) -> (r: Self) {
        match self.checked_add(other) {
            Some(v) => v,
            None => u64::MAX,
        }
    }

    fn sat_sub(self, other: Self) -> (r: Self) {
        match self.checked_sub(other) {
            Some(v) => v,
            None => 0,
        }
    }

    fn plus(self, other: Self) -> (r: Self) {
        self + other
    }

    fn minus(self, other: Self) -> (r: Self) {
        self - other
    }

    fn at_most(self, other: Self) -> (b: bool) {
        self <= other
    }

    fn below(self, other: Self) -> (b: bool) {
        self < other
    }

    fn same(self, other: Self) -> (b: bool) {
        self == other
    }

    fn from_len(n: usize) -> (r: Option<Self>) {
        if n as u128 <= u64::MAX as u128 {
            Some(n as u64)
        } else {
            None
        }
    }
}

impl CoordType for usize {
    open spec fn val(self) -> int {
        self as int
    }

    open spec fn lo() -> int {
        0
    }

    open spec fn hi() -> int {
        usize::MAX as int
    }

    proof fn lemma_range(self) {
    }

    proof fn lemma_eq(self, other: Self) {
    }

    fn zero() -> (r: Self) {
        0
    }

    fn one() -> (r: Self) {
        1
    }

    fn max_value() -> (r: Self) {
        usize::MAX
    }

    fn sat_add(self, other: Self) -> (r: Self) {
        match self.checked_add(other) {
            Some(v) => v,
            None => usize::MAX,
        }
    }

    fn sat_sub(self, other: Self) -> (r: Self) {
        match self.checked_sub(other) {
            Some(v) => v,
            None => 0,
        }
    }

    fn plus(self, other: Self) -> (r: Self) {
        self + other
    }

    fn minus(self, other: Self) -> (r: Self) {
        self - other
    }

    fn at_most(self, other: Self) -> (b: bool) {
        self <= other
    }

    fn below(self, other: Self) -> (b: bool) {
        self < other
    }

    fn same(self, other: Self) -> (b: bool) {
        self == other
    }

    fn from_len(n: usize) -> (r: Option<Self>) {
        Some(n)
    }
}

impl CoordType for i8 {
    open spec fn val(self) -> int {
        self as int
    }

    open spec fn lo() -> int {
        i8::MIN as int
    }

    open spec fn hi() -> int {
        i8::MAX as int
    }

    proof fn lemma_range(self) {
    }

    proof fn lemma_eq(self, other: Self) {
    }

    fn zero() -> (r: Self) {
        0
    }

    fn one() -> (r: Self) {
        1
    }

    fn max_value() -> (r: Self) {
        i8::MAX
    }

    fn sat_add(self, other: Self) -> (r: Self) {
        match self.checked_add(other) {
            Some(v) => v,
            None => if other > 0 { i8::MAX } else { i8::MIN },
        }
    }

    fn sat_sub(self, other: Self) -> (r: Self) {
        match self.checked_sub(other) {
            Some(v) => v,
            None => if other > 0 { i8::MIN } else { i8::MAX },
        }
    }

    fn plus(self, other: Self) -> (r: Self) {
        self + other
    }

    fn minus(self, other: Self) -> (r: Self) {
        self - other
    }

    fn at_most(self, other: Self) -> (b: bool) {
        self <= other
    }

    fn below(self, other: Self) -> (b: bool) {
        self < other
    }

    fn same(self, other: Self) -> (b: bool) {
        self == other
    }

    fn from_len(n: usize) -> (r: Option<Self>) {
        if n <= i8::MAX as usize {
            Some(n as i8)
        } else {
            None
        }
    }
}

impl CoordType for i16 {
    open spec fn val(self) -> int {
        self as int
    }

    open spec fn lo() -> int {
        i16::MIN as int
    }

    open spec fn hi() -> int {
        i16::MAX as int
    }

    proof fn lemma_range(self) {
    }

    proof fn lemma_eq(self, other: Self) {
    }

    fn zero() -> (r: Self) {
        0
    }

    fn one() -> (r: Self) {
        1
    }

    fn max_value() -> (r: Self) {
        i16::MAX
    }

    fn sat_add(self, other: Self) -> (r: Self) {
        match self.checked_add(other) {
            Some(v) => v,
            None => if other > 0 { i16::MAX } else { i16::MIN },
        }
    }

    fn sat_sub(self, other: Self) -> (r: Self) {
        match self.checked_sub(other) {
            Some(v) => v,
            None => if other > 0 { i16::MIN } else { i16::MAX },
        }
    }

    fn plus(self, other: Self) -> (r: Self) {
        self + other
    }

    fn minus(self, other: Self) -> (r: Self) {
        self - other
    }

    fn at_most(self, other: Self) -> (b: bool) {
        self <= other
    }

    fn below(self, other: Self) -> (b: bool) {
        self < other
    }

    fn same(self, other: Self) -> (b: bool) {
        self == other
    }

    fn from_len(n: usize) -> (r: Option<Self>) {
        if n <= i16::MAX as usize {
            Some(n as i16)
        } else {
            None
        }
    }
}

impl CoordType for i32 {
    open spec fn val(self) -> int {
        self as int
    }

    open spec fn lo() -> int {
        i32::MIN as int
    }

    open spec fn hi() -> int {
        i32::MAX as int
    }

    proof fn lemma_range(self) {
    }

    proof fn lemma_eq(self, other: Self) {
    }

    fn zero() -> (r: Self) {
        0
    }

    fn one() -> (r: Self) {
        1
    }

    fn max_value() -> (r: Self) {
        i32::MAX
    }

    fn sat_add(self, other: Self) -> (r: Self) {
        match self.checked_add(other) {
            Some(v) => v,
            None => if other > 0 { i32::MAX } else { i32::MIN },
        }
    }

    fn sat_sub(self, other: Self) -> (r: Self) {
        match self.checked_sub(other) {
            Some(v) => v,
            None => if other > 0 { i32::MIN } else { i32::MAX },
        }
    }

    fn plus(self, other: Self) -> (r: Self) {
        self + other
    }

    fn minus(self, other: Self) -> (r: Self) {
        self - other
    }

    fn at_most(self, other: Self) -> (b: bool) {
        self <= other
    }

    fn below(self, other: Self) -> (b: bool) {
        self < other
    }

    fn same(self, other: Self) -> (b: bool) {
        self == other
    }

    fn from_len(n: usize) -> (r: Option<Self>) {
        if n <= i32::MAX as usize {
            Some(n as i32)
        } else {
            None
        }
    }
}

impl CoordType for i64 {
    open spec fn val(self) -> int {
        self as int
    }

    open spec fn lo() -> int {
        i64::MIN as int
    }

    open spec fn hi() -> int {
        i64::MAX as int
    }

    proof fn lemma_range(self) {
    }

    proof fn lemma_eq(self, other: Self) {
    }

    fn zero() -> (r: Self) {
        0
    }

    fn one() -> (r: Self) {
        1
    }

    fn max_value() -> (r: Self) {
        i64::MAX
    }

    fn sat_add(self, other: Self) -> (r: Self) {
        match self.checked_add(other) {
            Some(v) => v,
            None => if other > 0 { i64::MAX } else { i64::MIN },
        }
    }

    fn sat_sub(self, other: Self) -> (r: Self) {
        match self.checked_sub(other) {
            Some(v) => v,
            None => if other > 0 { i64::MIN } else { i64::MAX },
        }
    }

    fn plus(self, other: Self) -> (r: Self) {
        self + other
    }

    fn minus(self, other: Self) -> (r: Self) {
        self - other
    }

    fn at_most(self, other: Self) -> (b: bool) {
        self <= other
    }

    fn below(self, other: Self) -> (b: bool) {
        self < other
    }

    fn same(self, other: Self) -> (b: bool) {
        self == other
    }

    fn from_len(n: usize) -> (r: Option<Self>) {
        if n as u128 <= i64::MAX as u128 {
            Some(n as i64)
        } else {
            None
        }
    }
}

impl CoordType for isize {
    open spec fn val(self) -> int {
        self as int
    }

    open spec fn lo() -> int {
        isize::MIN as int
    }

    open spec fn hi() -> int {
        isize::MAX as int
    }

    proof fn lemma_range(self) {
    }

    proof fn lemma_eq(self, other: Self) {
    }

    fn zero() -> (r: Self) {
        0
    }

    fn one() -> (r: Self) {
        1
    }

    fn max_value() -> (r: Self) {
        isize::MAX
    }

    fn sat_add(self, other: Self) -> (r: Self) {
        match self.checked_add(other) {
            Some(v) => v,
            None => if other > 0 { isize::MAX } else { isize::MIN },
        }
    }

    fn sat_sub(self, other: Self) -> (r: Self) {
        match self.checked_sub(other) {
            Some(v) => v,
            None => if other > 0 { isize::MIN } else { isize::MAX },
        }
    }

    fn plus(self, other: Self) -> (r: Self) {
        self + other
    }

    fn minus(self, other: Self) -> (r: Self) {
        self - other
    }

    fn at_most(self, other: Self) -> (b: bool) {
        self <= other
    }

    fn below(self, other: Self) -> (b: bool) {
        self < other
    }

    fn same(self, other: Self) -> (b: bool) {
        self == other
    }

    fn from_len(n: usize) -> (r: Option<Self>) {
        if n <= isize::MAX as usize {
            Some(n as isize)
        } else {
            None
        }
    }
}

} // verus!

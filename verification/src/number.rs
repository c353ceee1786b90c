//! Decimal text of integers: the canonical form, its parser, and the proof
//! that parsing undoes formatting.

use vstd::prelude::*;

verus! {

/// The integer types that a leaf can name.
#[derive(Clone, Copy, Debug, PartialEq, Eq, Structural)]
pub enum IntKind {
    I8,
    I16,
    I32,
    I64,
    I128,
    Isize,
    U8,
    U16,
    U32,
    U64,
    U128,
    Usize,
}

impl IntKind {
    /// Whether the type has negative values.
    pub open spec fn signed(self) -> bool {
        match self {
            IntKind::I8 | IntKind::I16 | IntKind::I32 | IntKind::I64 | IntKind::I128
            | IntKind::Isize => true,
            _ => false,
        }
    }

    /// The least value of the type.
    pub open spec fn min_value(self) -> int {
        match self {
            IntKind::I8 => i8::MIN as int,
            IntKind::I16 => i16::MIN as int,
            IntKind::I32 => i32::MIN as int,
            IntKind::I64 => i64::MIN as int,
            IntKind::I128 => i128::MIN as int,
            IntKind::Isize => isize::MIN as int,
            _ => 0,
        }
    }

    /// The greatest value of the type.
    pub open spec fn max_value(self) -> int {
        match self {
            IntKind::I8 => i8::MAX as int,
            IntKind::I16 => i16::MAX as int,
            IntKind::I32 => i32::MAX as int,
            IntKind::I64 => i64::MAX as int,
            IntKind::I128 => i128::MAX as int,
            IntKind::Isize => isize::MAX as int,
            IntKind::U8 => u8::MAX as int,
            IntKind::U16 => u16::MAX as int,
            IntKind::U32 => u32::MAX as int,
            IntKind::U64 => u64::MAX as int,
            IntKind::U128 => u128::MAX as int,
            IntKind::Usize => usize::MAX as int,
        }
    }

    /// Whether `v` is a value of the type.
    pub open spec fn holds(self, v: int) -> bool {
        self.min_value() <= v <= self.max_value()
    }

    /// Whether the type has negative values.
    pub fn is_signed(&self) -> (r: bool)
        ensures
            r == self.signed(),
    {
        match self {
            IntKind::I8 | IntKind::I16 | IntKind::I32 | IntKind::I64 | IntKind::I128
            | IntKind::Isize => true,
            _ => false,
        }
    }

    /// The greatest magnitude that a value of the type has on the chosen
    /// side of zero.
    fn magnitude_limit(&self, negative: bool) -> (r: u128)
        ensures
            r == if negative {
                -self.min_value()
            } else {
                self.max_value()
            },
            negative && !self.signed() ==> r == 0,
            !negative ==> r >= 127,
    {
        if negative {
            match self {
                IntKind::I8 => 0x80,
                IntKind::I16 => 0x8000,
                IntKind::I32 => 0x8000_0000,
                IntKind::I64 => 0x8000_0000_0000_0000,
                IntKind::I128 => 0x8000_0000_0000_0000_0000_0000_0000_0000,
                IntKind::Isize => (isize::MAX as u128) + 1,
                _ => 0,
            }
        } else {
            match self {
                IntKind::I8 => 0x7f,
                IntKind::I16 => 0x7fff,
                IntKind::I32 => 0x7fff_ffff,
                IntKind::I64 => 0x7fff_ffff_ffff_ffff,
                IntKind::I128 => 0x7fff_ffff_ffff_ffff_ffff_ffff_ffff_ffff,
                IntKind::Isize => isize::MAX as u128,
                IntKind::U8 => 0xff,
                IntKind::U16 => 0xffff,
                IntKind::U32 => 0xffff_ffff,
                IntKind::U64 => 0xffff_ffff_ffff_ffff,
                IntKind::U128 => u128::MAX,
                IntKind::Usize => usize::MAX as u128,
            }
        }
    }
}

/// Whether `c` is a decimal digit.
pub open spec fn is_digit(c: char) -> bool {
    '0' <= c <= '9'
}

/// The value of a decimal digit.
pub open spec fn digit_value(c: char) -> int {
    c as int - '0' as int
}

/// The decimal digit of a value below ten.
pub open spec fn digit_char(d: int) -> char {
    if d == 0 {
        '0'
    } else if d == 1 {
        '1'
    } else if d == 2 {
        '2'
    } else if d == 3 {
        '3'
    } else if d == 4 {
        '4'
    } else if d == 5 {
        '5'
    } else if d == 6 {
        '6'
    } else if d == 7 {
        '7'
    } else if d == 8 {
        '8'
    } else {
        '9'
    }
}

/// Whether every character of `s` is a decimal digit.
pub open spec fn all_digits(s: Seq<char>) -> bool {
    forall|i: int| 0 <= i < s.len() ==> is_digit(#[trigger] s[i])
}

/// The number that a string of decimal digits writes.
pub open spec fn digits_value(s: Seq<char>) -> int
    decreases s.len(),
{
    if s.len() == 0 {
        0
    } else {
        digits_value(s.drop_last()) * 10 + digit_value(s.last())
    }
}

/// The decimal digits of a number, without leading zeros.
pub open spec fn digits_of(n: nat) -> Seq<char>
    decreases n,
{
    if n < 10 {
        seq![digit_char(n as int)]
    } else {
        digits_of(n / 10).push(digit_char((n % 10) as int))
    }
}

/// The canonical text of an integer: its decimal digits, after a minus sign
/// when it is negative.
pub open spec fn format_int_spec(v: int) -> Seq<char> {
    if v < 0 {
        seq!['-'] + digits_of((-v) as nat)
    } else {
        digits_of(v as nat)
    }
}

/// What the text of an integer of the given type parses to.
///
/// The text is an optional sign and at least one decimal digit, and nothing
/// else. A plus sign is accepted for every type, a minus sign only for a
/// signed one. The number written must be a value of the type.
pub open spec fn parse_int_spec(s: Seq<char>, kind: IntKind) -> Option<int> {
    let negative = kind.signed() && s.len() > 0 && s[0] == '-';
    let has_sign = negative || (s.len() > 0 && s[0] == '+');
    let digits = if has_sign {
        s.subrange(1, s.len() as int)
    } else {
        s
    };
    if digits.len() == 0 || !all_digits(digits) {
        None
    } else {
        let v = if negative {
            -digits_value(digits)
        } else {
            digits_value(digits)
        };
        if kind.holds(v) {
            Some(v)
        } else {
            None
        }
    }
}

/// The digits of a number are digits, at least one of them, and write that
/// number.
pub proof fn lemma_digits_of(n: nat)
    ensures
        digits_of(n).len() >= 1,
        all_digits(digits_of(n)),
        digits_value(digits_of(n)) == n,
    decreases n,
{
    if n < 10 {
        let s = digits_of(n);
        assert(s.drop_last() =~= Seq::<char>::empty());
        assert(digits_value(s.drop_last()) == 0);
    } else {
        lemma_digits_of(n / 10);
        let head = digits_of(n / 10);
        let s = digits_of(n);
        assert(s.drop_last() =~= head);
        assert(s.last() == digit_char((n % 10) as int));
    }
}

/// A string of digits writes a number that is not negative, and no less than
/// what any of its prefixes writes.
pub proof fn lemma_digits_value_grows(s: Seq<char>, k: int)
    requires
        all_digits(s),
        0 <= k <= s.len(),
    ensures
        0 <= digits_value(s.take(k)) <= digits_value(s),
    decreases s.len(),
{
    if s.len() == 0 {
        assert(s.take(k) =~= s);
    } else if k == s.len() {
        assert(s.take(k) =~= s);
        lemma_digits_value_grows(s.drop_last(), k - 1);
    } else {
        lemma_digits_value_grows(s.drop_last(), k);
        assert(s.drop_last().take(k) =~= s.take(k));
    }
}

/// Parsing the canonical text of a value of an integer type gives the value
/// back.
pub proof fn lemma_int_round_trip(v: int, kind: IntKind)
    requires
        kind.holds(v),
    ensures
        parse_int_spec(format_int_spec(v), kind) == Some(v),
{
    let s = format_int_spec(v);
    if v < 0 {
        let d = digits_of((-v) as nat);
        lemma_digits_of((-v) as nat);
        assert(s[0] == '-');
        assert(s.subrange(1, s.len() as int) =~= d);
    } else {
        lemma_digits_of(v as nat);
        assert(is_digit(s[0]));
    }
}


/// A value of one of the integer types.
#[derive(Clone, Copy, Debug, PartialEq, Eq, Structural)]
pub enum IntValue {
    I8(i8),
    I16(i16),
    I32(i32),
    I64(i64),
    I128(i128),
    Isize(isize),
    U8(u8),
    U16(u16),
    U32(u32),
    U64(u64),
    U128(u128),
    Usize(usize),
}

impl IntValue {
    /// The type of the value.
    pub open spec fn kind(self) -> IntKind {
        match self {
            IntValue::I8(_) => IntKind::I8,
            IntValue::I16(_) => IntKind::I16,
            IntValue::I32(_) => IntKind::I32,
            IntValue::I64(_) => IntKind::I64,
            IntValue::I128(_) => IntKind::I128,
            IntValue::Isize(_) => IntKind::Isize,
            IntValue::U8(_) => IntKind::U8,
            IntValue::U16(_) => IntKind::U16,
            IntValue::U32(_) => IntKind::U32,
            IntValue::U64(_) => IntKind::U64,
            IntValue::U128(_) => IntKind::U128,
            IntValue::Usize(_) => IntKind::Usize,
        }
    }

    /// The number that the value is.
    pub open spec fn value(self) -> int {
        match self {
            IntValue::I8(v) => v as int,
            IntValue::I16(v) => v as int,
            IntValue::I32(v) => v as int,
            IntValue::I64(v) => v as int,
            IntValue::I128(v) => v as int,
            IntValue::Isize(v) => v as int,
            IntValue::U8(v) => v as int,
            IntValue::U16(v) => v as int,
            IntValue::U32(v) => v as int,
            IntValue::U64(v) => v as int,
            IntValue::U128(v) => v as int,
            IntValue::Usize(v) => v as int,
        }
    }

    /// The type of the value.
    pub fn int_kind(&self) -> (r: IntKind)
        ensures
            r == self.kind(),
            self.kind().holds(self.value()),
    {
        match self {
            IntValue::I8(_) => IntKind::I8,
            IntValue::I16(_) => IntKind::I16,
            IntValue::I32(_) => IntKind::I32,
            IntValue::I64(_) => IntKind::I64,
            IntValue::I128(_) => IntKind::I128,
            IntValue::Isize(_) => IntKind::Isize,
            IntValue::U8(_) => IntKind::U8,
            IntValue::U16(_) => IntKind::U16,
            IntValue::U32(_) => IntKind::U32,
            IntValue::U64(_) => IntKind::U64,
            IntValue::U128(_) => IntKind::U128,
            IntValue::Usize(_) => IntKind::Usize,
        }
    }

    /// The value of type `kind` with the given sign and magnitude.
    fn from_magnitude(kind: IntKind, negative: bool, magnitude: u128) -> (r: IntValue)
        requires
            kind.holds(
                if negative {
                    -magnitude
                } else {
                    magnitude as int
                },
            ),
        ensures
            r.kind() == kind,
            r.value() == if negative {
                -magnitude
            } else {
                magnitude as int
            },
    {
        if kind.is_signed() {
            let v: i128 = if !negative {
                magnitude as i128
            } else if magnitude > i128::MAX as u128 {
                i128::MIN
            } else {
                -(magnitude as i128)
            };
            match kind {
                IntKind::I8 => IntValue::I8(v as i8),
                IntKind::I16 => IntValue::I16(v as i16),
                IntKind::I32 => IntValue::I32(v as i32),
                IntKind::I64 => IntValue::I64(v as i64),
                IntKind::Isize => IntValue::Isize(v as isize),
                _ => IntValue::I128(v),
            }
        } else {
            match kind {
                IntKind::U8 => IntValue::U8(magnitude as u8),
                IntKind::U16 => IntValue::U16(magnitude as u16),
                IntKind::U32 => IntValue::U32(magnitude as u32),
                IntKind::U64 => IntValue::U64(magnitude as u64),
                IntKind::Usize => IntValue::Usize(magnitude as usize),
                _ => IntValue::U128(magnitude),
            }
        }
    }

    /// The sign and the magnitude of the value.
    fn to_magnitude(&self) -> (r: (bool, u128))
        ensures
            r.0 == (self.value() < 0),
            r.1 == if self.value() < 0 {
                -self.value()
            } else {
                self.value()
            },
    {
        let wide: i128 = match *self {
            IntValue::I8(v) => v as i128,
            IntValue::I16(v) => v as i128,
            IntValue::I32(v) => v as i128,
            IntValue::I64(v) => v as i128,
            IntValue::I128(v) => v,
            IntValue::Isize(v) => v as i128,
            IntValue::U8(v) => { return (false, v as u128); },
            IntValue::U16(v) => { return (false, v as u128); },
            IntValue::U32(v) => { return (false, v as u128); },
            IntValue::U64(v) => { return (false, v as u128); },
            IntValue::U128(v) => { return (false, v); },
            IntValue::Usize(v) => { return (false, v as u128); },
        };
        if wide >= 0 {
            (false, wide as u128)
        } else if wide == i128::MIN {
            (true, 0x8000_0000_0000_0000_0000_0000_0000_0000)
        } else {
            (true, (-wide) as u128)
        }
    }
}

/// The value of `c` as a decimal digit, if it is one.
fn digit_of_char(c: char) -> (r: Option<u8>)
    ensures
        r == if is_digit(c) {
            Some(digit_value(c) as u8)
        } else {
            None
        },
{
    let code: u32 = c as u32;
    if 48 <= code && code <= 57 {
        Some((code - 48) as u8)
    } else {
        None
    }
}

/// The text of a decimal digit.
fn digit_text(d: u8) -> (r: &'static str)
    requires
        d < 10,
    ensures
        r@ == seq![digit_char(d as int)],
{
    proof {
        reveal_strlit("0");
        reveal_strlit("1");
        reveal_strlit("2");
        reveal_strlit("3");
        reveal_strlit("4");
        reveal_strlit("5");
        reveal_strlit("6");
        reveal_strlit("7");
        reveal_strlit("8");
        reveal_strlit("9");
    }
    let r = match d {
        0 => "0",
        1 => "1",
        2 => "2",
        3 => "3",
        4 => "4",
        5 => "5",
        6 => "6",
        7 => "7",
        8 => "8",
        _ => "9",
    };
    assert(r@ =~= seq![digit_char(d as int)]);
    r
}

/// Reads the characters of `text` from `start` on as a number of at most `limit`.
fn parse_digits(text: &str, start: usize, limit: u128) -> (r: Option<u128>)
    requires
        start <= text@.len(),
        limit >= 9,
    ensures
        ({
            let digits = text@.subrange(start as int, text@.len() as int);
            r == if digits.len() > 0 && all_digits(digits) && digits_value(digits) <= limit {
                Some(digits_value(digits) as u128)
            } else {
                None
            }
        }),
{
    let n = text.unicode_len();
    let ghost digits = text@.subrange(start as int, text@.len() as int);
    if start >= n {
        return None;
    }
    let mut acc: u128 = 0;
    let mut i: usize = start;
    proof {
        assert(digits.take(0) =~= Seq::<char>::empty());
    }
    while i < n
        invariant
            start <= i <= n,
            n == text@.len(),
            limit >= 9,
            digits == text@.subrange(start as int, text@.len() as int),
            all_digits(digits.take(i - start)),
            acc == digits_value(digits.take(i - start)),
            acc <= limit,
        decreases n - i,
    {
        let c = text.get_char(i);
        let ghost next = digits.take(i - start + 1);
        proof {
            assert(digits[i - start] == c);
            assert(next.drop_last() =~= digits.take(i - start));
            assert(next.last() == c);
        }
        match digit_of_char(c) {
            None => {
                return None;
            },
            Some(d) => {
                if acc > (limit - d as u128) / 10 {
                    proof {
                        assert(digits_value(next) > limit);
                        if all_digits(digits) {
                            lemma_digits_value_grows(digits, i - start + 1);
                        }
                    }
                    return None;
                }
                acc = acc * 10 + d as u128;
                proof {
                    assert forall|k: int| 0 <= k < next.len() implies is_digit(
                        #[trigger] next[k],
                    ) by {
                        if k < i - start {
                            assert(next[k] == digits.take(i - start)[k]);
                        }
                    }
                }
            },
        }
        i += 1;
    }
    proof {
        assert(digits.take(n - start) =~= digits);
    }
    Some(acc)
}

/// Parses the text of an integer of type `kind`; `None` where the text does
/// not write a value of that type.
pub fn parse_int(text: &str, kind: IntKind) -> (r: Option<IntValue>)
    ensures
        match parse_int_spec(text@, kind) {
            Some(v) => r matches Some(x) && x.kind() == kind && x.value() == v,
            None => r is None,
        },
{
    let n = text.unicode_len();
    if n == 0 {
        return None;
    }
    let first = text.get_char(0);
    let negative = first == '-' && kind.is_signed();
    let start: usize = if negative || first == '+' {
        1
    } else {
        0
    };
    proof {
        if start == 0 {
            assert(text@.subrange(0, text@.len() as int) =~= text@);
        }
    }
    proof {
        let digits = text@.subrange(start as int, text@.len() as int);
        if all_digits(digits) {
            lemma_digits_value_grows(digits, 0);
        }
    }
    match parse_digits(text, start, kind.magnitude_limit(negative)) {
        Some(magnitude) => Some(IntValue::from_magnitude(kind, negative, magnitude)),
        None => None,
    }
}

/// Writes a number in decimal digits.
fn format_magnitude(n: u128) -> (r: String)
    ensures
        r@ == digits_of(n as nat),
    decreases n,
{
    if n < 10 {
        String::from_str(digit_text(n as u8))
    } else {
        let head = format_magnitude(n / 10);
        let r = head.concat(digit_text((n % 10) as u8));
        proof {
            assert(r@ =~= digits_of((n / 10) as nat).push(digit_char((n % 10) as int)));
        }
        r
    }
}

/// Writes an integer in its canonical text.
pub fn format_int(v: IntValue) -> (r: String)
    ensures
        r@ == format_int_spec(v.value()),
{
    let (negative, magnitude) = v.to_magnitude();
    let digits = format_magnitude(magnitude);
    if negative {
        proof {
            reveal_strlit("-");
            assert("-"@ =~= seq!['-']);
        }
        String::from_str("-").concat(digits.as_str())
    } else {
        digits
    }
}

} // verus!

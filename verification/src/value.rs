use vstd::prelude::*;
use vstd::arithmetic::power2::{
    pow2, lemma_pow2_adds, lemma_pow2_strictly_increases, lemma2_to64, lemma2_to64_rest,
};

verus! {

/// Declared type of a shard key.
#[derive(Clone, Copy, Debug, PartialEq, Eq, Structural)]
pub enum DataType {
    /// 64-bit signed integer, written in decimal text.
    Bigint,
    /// 128-bit UUID, written in the hyphenated hexadecimal form.
    Uuid,
    /// Arbitrary text; kept as the raw bytes.
    Text,
    /// Numeric vector; supplied pre-built, never parsed from raw text.
    Vector,
}

/// Outcome of parsing raw bytes under a declared [`DataType`].
#[derive(Debug)]
pub enum Parsed {
    Int(i64),
    Uuid(u128),
    Text,
    Vector(Vec<i32>),
    Invalid,
}

// ---------------------------------------------------------------------------
// Decimal integer text
// ---------------------------------------------------------------------------

/// ASCII decimal digit.
pub open spec fn is_digit(b: u8) -> bool {
    48 <= b && b <= 57
}

pub open spec fn all_digits(s: Seq<u8>) -> bool {
    forall|i: int| 0 <= i < s.len() ==> is_digit(#[trigger] s[i])
}

/// Numeric value of a digit string, most significant digit first.
pub open spec fn digits_val(s: Seq<u8>) -> int
    decreases s.len(),
{
    if s.len() == 0 {
        0
    } else {
        digits_val(s.drop_last()) * 10 + (s.last() - 48)
    }
}

/// Does the text begin with a minus sign?
pub open spec fn int_negative(s: Seq<u8>) -> bool {
    s.len() > 0 && s[0] == 45
}

/// The digit part: everything after the optional minus sign.
pub open spec fn int_digits(s: Seq<u8>) -> Seq<u8> {
    if int_negative(s) {
        s.skip(1)
    } else {
        s
    }
}

/// Well-formed 64-bit signed decimal text: an optional minus sign, then one
/// or more digits, with the magnitude inside the `i64` range.
pub open spec fn int_text_wf(s: Seq<u8>) -> bool {
    &&& int_digits(s).len() > 0
    &&& all_digits(int_digits(s))
    &&& (if int_negative(s) {
        digits_val(int_digits(s)) <= 0x8000000000000000
    } else {
        digits_val(int_digits(s)) <= 0x7fffffffffffffff
    })
}

/// Value denoted by well-formed integer text.
pub open spec fn int_value(s: Seq<u8>) -> int {
    if int_negative(s) {
        -digits_val(int_digits(s))
    } else {
        digits_val(int_digits(s))
    }
}

proof fn lemma_digits_val_nonneg(s: Seq<u8>)
    requires
        all_digits(s),
    ensures
        digits_val(s) >= 0,
    decreases s.len(),
{
    if s.len() > 0 {
        assert(all_digits(s.drop_last()));
        lemma_digits_val_nonneg(s.drop_last());
    }
}

/// Appending digits never shrinks the value: a prefix of an all-digit string
/// denotes at most the whole string's value.
proof fn lemma_digits_val_prefix_le(s: Seq<u8>, i: int)
    requires
        0 <= i <= s.len(),
        all_digits(s),
    ensures
        digits_val(s.take(i)) <= digits_val(s),
    decreases s.len() - i,
{
    if i == s.len() {
        assert(s.take(i) =~= s);
    } else {
        assert(s.take(i + 1).drop_last() =~= s.take(i));
        assert(all_digits(s.take(i)));
        lemma_digits_val_nonneg(s.take(i));
        assert(digits_val(s.take(i + 1)) == digits_val(s.take(i)) * 10 + (s[i] - 48));
        lemma_digits_val_prefix_le(s, i + 1);
    }
}

/// Parse signed decimal text. Returns the denoted value exactly when the
/// text is well formed for `i64`, and `None` otherwise.
pub fn parse_i64(raw: &Vec<u8>) -> (r: Option<i64>)
    ensures
        r is Some <==> int_text_wf(raw@),
        r matches Some(v) ==> v as int == int_value(raw@),
{
    let n = raw.len();
    if n == 0 {
        return None;
    }
    let neg = raw[0] == 45;
    let start: usize = if neg { 1 } else { 0 };
    proof {
        assert(int_negative(raw@) == neg);
        if neg {
            assert(int_digits(raw@) =~= raw@.skip(1));
        } else {
            assert(int_digits(raw@) =~= raw@);
        }
    }
    if start >= n {
        // "-" with no digits
        assert(int_digits(raw@).len() == 0);
        return None;
    }
    let limit: u64 = if neg { 0x8000000000000000 } else { 0x7fffffffffffffff };
    let ghost mag: Seq<u8> = int_digits(raw@);
    let mut acc: u64 = 0;
    let mut i: usize = start;
    while i < n
        invariant
            raw@.len() == n,
            start <= i <= n,
            start == (if neg { 1int } else { 0int }),
            neg == int_negative(raw@),
            mag == int_digits(raw@),
            mag =~= raw@.skip(start as int),
            limit == (if neg { 0x8000000000000000u64 } else { 0x7fffffffffffffffu64 }),
            acc as int == digits_val(mag.take(i - start)),
            acc <= limit,
            all_digits(mag.take(i - start)),
        decreases n - i,
    {
        let b = raw[i];
        proof {
            assert(mag[i - start] == raw@[i as int]);
        }
        if b < 48 || b > 57 {
            proof {
                assert(!is_digit(mag[i - start]));
                assert(!all_digits(mag));
            }
            return None;
        }
        let d = b - 48;
        let cand: u128 = (acc as u128) * 10 + (d as u128);
        proof {
            let j = i - start;
            assert(mag.take(j + 1).drop_last() =~= mag.take(j as int));
            assert(mag.take(j + 1).last() == mag[j as int]);
            assert(digits_val(mag.take(j + 1)) == acc as int * 10 + (b - 48));
        }
        if cand > limit as u128 {
            proof {
                let j = i - start;
                assert(digits_val(mag.take(j + 1)) > limit);
                if all_digits(mag) {
                    lemma_digits_val_prefix_le(mag, j + 1);
                    assert(digits_val(mag) > limit);
                }
                assert(!int_text_wf(raw@));
            }
            return None;
        }
        proof {
            assert(all_digits(mag.take(i - start + 1)));
        }
        acc = cand as u64;
        i = i + 1;
    }
    proof {
        assert(mag.take(n - start) =~= mag);
        assert(int_text_wf(raw@));
        lemma_digits_val_nonneg(mag);
    }
    if neg {
        if acc == 0x8000000000000000 {
            Some(i64::MIN)
        } else {
            Some(-(acc as i64))
        }
    } else {
        Some(acc as i64)
    }
}

// ---------------------------------------------------------------------------
// Hyphenated UUID text
// ---------------------------------------------------------------------------

pub open spec fn is_hex_digit(b: u8) -> bool {
    is_digit(b) || (97 <= b && b <= 102) || (65 <= b && b <= 70)
}

/// Numeric value of one hexadecimal digit.
pub open spec fn hex_val(b: u8) -> int {
    if is_digit(b) {
        b - 48
    } else if 97 <= b && b <= 102 {
        b - 87
    } else {
        b - 55
    }
}

/// Positions of the four hyphens in the canonical 8-4-4-4-12 form.
pub open spec fn uuid_hyphen_pos(i: int) -> bool {
    i == 8 || i == 13 || i == 18 || i == 23
}

/// Well-formed hyphenated UUID text: 36 bytes, hyphens exactly at the four
/// canonical positions, hexadecimal digits everywhere else.
pub open spec fn uuid_text_wf(s: Seq<u8>) -> bool {
    &&& s.len() == 36
    &&& forall|i: int|
        0 <= i < 36 ==> (if uuid_hyphen_pos(i) {
            s[i] == 45
        } else {
            is_hex_digit(#[trigger] s[i])
        })
}

/// Value of the first `i` bytes, hyphen positions contributing nothing.
pub open spec fn uuid_val_prefix(s: Seq<u8>, i: int) -> int
    decreases i,
{
    if i <= 0 {
        0
    } else if uuid_hyphen_pos(i - 1) {
        uuid_val_prefix(s, i - 1)
    } else {
        uuid_val_prefix(s, i - 1) * 16 + hex_val(s[i - 1])
    }
}

/// Value denoted by well-formed UUID text: its 32 hexadecimal digits read as
/// one 128-bit number, most significant first.
pub open spec fn uuid_value(s: Seq<u8>) -> int {
    uuid_val_prefix(s, 36)
}

/// How many of the first `i` positions carry a hexadecimal digit.
pub open spec fn uuid_hex_count(i: int) -> int {
    i - (if i > 8 { 1int } else { 0int }) - (if i > 13 { 1int } else { 0int }) - (if i > 18 {
        1int
    } else {
        0int
    }) - (if i > 23 { 1int } else { 0int })
}

/// A prefix with `k` hexadecimal digits denotes a value below `16^k`.
proof fn lemma_uuid_prefix_bound(s: Seq<u8>, i: int)
    requires
        0 <= i <= 36,
        forall|j: int| 0 <= j < i && !uuid_hyphen_pos(j) ==> is_hex_digit(#[trigger] s[j]),
    ensures
        0 <= uuid_val_prefix(s, i),
        uuid_val_prefix(s, i) < pow2((4 * uuid_hex_count(i)) as nat),
    decreases i,
{
    lemma2_to64();
    if i == 0 {
        assert(pow2(0) == 1);
    } else {
        lemma_uuid_prefix_bound(s, i - 1);
        if uuid_hyphen_pos(i - 1) {
            assert(uuid_hex_count(i) == uuid_hex_count(i - 1));
        } else {
            let k = uuid_hex_count(i - 1);
            assert(uuid_hex_count(i) == k + 1);
            assert(0 <= hex_val(s[i - 1]) < 16);
            lemma_pow2_adds((4 * k) as nat, 4);
            assert(pow2((4 * k + 4) as nat) == pow2((4 * k) as nat) * 16);
        }
    }
}

/// Parse hyphenated UUID text. Returns the denoted 128-bit value exactly
/// when the text is well formed, and `None` otherwise.
pub fn parse_uuid(raw: &Vec<u8>) -> (r: Option<u128>)
    ensures
        r is Some <==> uuid_text_wf(raw@),
        r matches Some(u) ==> u as int == uuid_value(raw@),
{
    if raw.len() != 36 {
        return None;
    }
    let mut acc: u128 = 0;
    let mut i: usize = 0;
    while i < 36
        invariant
            raw@.len() == 36,
            0 <= i <= 36,
            acc as int == uuid_val_prefix(raw@, i as int),
            forall|j: int|
                0 <= j < i ==> (if uuid_hyphen_pos(j) {
                    raw@[j] == 45
                } else {
                    is_hex_digit(#[trigger] raw@[j])
                }),
        decreases 36 - i,
    {
        let b = raw[i];
        if i == 8 || i == 13 || i == 18 || i == 23 {
            if b != 45 {
                proof {
                    assert(!uuid_text_wf(raw@));
                }
                return None;
            }
        } else {
            let d: u8 = if b >= 48 && b <= 57 {
                b - 48
            } else if b >= 97 && b <= 102 {
                b - 87
            } else if b >= 65 && b <= 70 {
                b - 55
            } else {
                proof {
                    assert(!is_hex_digit(raw@[i as int]));
                    assert(!uuid_text_wf(raw@));
                }
                return None;
            };
            proof {
                lemma_uuid_prefix_bound(raw@, i as int);
                assert(uuid_hex_count(i as int) <= 31);
                if uuid_hex_count(i as int) < 31 {
                    lemma_pow2_strictly_increases((4 * uuid_hex_count(i as int)) as nat, 124);
                }
                lemma_pow2_adds(64, 60);
                lemma2_to64();
                lemma2_to64_rest();
                assert(pow2(64) == 0x10000000000000000);
                assert(pow2(60) == 0x1000000000000000);
                assert(pow2(124) == pow2(64) * pow2(60));
                assert(0x10000000000000000 * 0x1000000000000000
                    == 0x10000000000000000000000000000000int) by (nonlinear_arith);
                assert(pow2(124) == 0x10000000000000000000000000000000);
                assert(acc < 0x10000000000000000000000000000000);
                assert(d as int == hex_val(raw@[i as int]));
            }
            acc = acc * 16 + (d as u128);
        }
        i = i + 1;
    }
    proof {
        assert(uuid_text_wf(raw@));
    }
    Some(acc)
}

// ---------------------------------------------------------------------------
// Value
// ---------------------------------------------------------------------------

/// What parsing `raw` under `dt` must yield.
pub open spec fn spec_parsed(raw: Seq<u8>, dt: DataType) -> Parsed {
    match dt {
        DataType::Bigint => if int_text_wf(raw) {
            Parsed::Int(int_value(raw) as i64)
        } else {
            Parsed::Invalid
        },
        DataType::Uuid => if uuid_text_wf(raw) {
            Parsed::Uuid(uuid_value(raw) as u128)
        } else {
            Parsed::Invalid
        },
        DataType::Text => Parsed::Text,
        DataType::Vector => Parsed::Invalid,
    }
}

/// A typed, validated shard-key candidate.
///
/// Holds the raw bytes it was built from, the declared type, and the parse
/// outcome. An invalid parse is represented, never raised: callers probe
/// [`Value::valid`] before committing to a type.
#[derive(Debug)]
pub struct Value {
    pub raw: Vec<u8>,
    pub data_type: DataType,
    pub parsed: Parsed,
}

impl Value {
    /// The parse outcome agrees with the raw bytes and declared type;
    /// vector values are the one kind built directly rather than parsed.
    pub open spec fn wf(self) -> bool {
        match self.parsed {
            Parsed::Vector(_) => self.data_type == DataType::Vector,
            _ => self.parsed == spec_parsed(self.raw@, self.data_type),
        }
    }

    pub open spec fn spec_valid(self) -> bool {
        !(self.parsed is Invalid)
    }

    /// The vector this value carries, or the empty vector when it carries
    /// none; nearest-centroid routing reads keys through this view.
    pub open spec fn spec_vector(self) -> Seq<i32> {
        match self.parsed {
            Parsed::Vector(v) => v@,
            _ => Seq::empty(),
        }
    }

    /// Parse `raw` under the declared `data_type`.
    pub fn new(raw: Vec<u8>, data_type: DataType) -> (v: Value)
        ensures
            v.raw@ == raw@,
            v.data_type == data_type,
            v.parsed == spec_parsed(raw@, data_type),
            v.wf(),
    {
        let parsed = match data_type {
            DataType::Bigint => match parse_i64(&raw) {
                Some(n) => Parsed::Int(n),
                None => Parsed::Invalid,
            },
            DataType::Uuid => match parse_uuid(&raw) {
                Some(u) => Parsed::Uuid(u),
                None => Parsed::Invalid,
            },
            DataType::Text => Parsed::Text,
            DataType::Vector => Parsed::Invalid,
        };
        Value { raw, data_type, parsed }
    }

    /// Wrap an already-parsed numeric vector, for callers that did their own
    /// decoding of a vector-typed key.
    pub fn from_vector(vector: Vec<i32>) -> (v: Value)
        ensures
            v.data_type == DataType::Vector,
            v.parsed == Parsed::Vector(vector),
            v.spec_vector() == vector@,
            v.raw@ == Seq::<u8>::empty(),
            v.wf(),
            v.spec_valid(),
    {
        let raw: Vec<u8> = Vec::new();
        Value { raw, data_type: DataType::Vector, parsed: Parsed::Vector(vector) }
    }

    /// Did the raw input actually parse as the declared type?
    pub fn valid(&self) -> (r: bool)
        ensures
            r == self.spec_valid(),
    {
        match self.parsed {
            Parsed::Invalid => false,
            _ => true,
        }
    }
}

} // verus!

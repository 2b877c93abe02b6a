use vstd::prelude::*;
use vstd::string::StringSliceAdditionalSpecFns;

verus! {

/// The API version that ARCropolis reports or that a plugin requires.
#[derive(Debug, Clone, Copy, PartialEq, Eq, Structural)]
pub struct ApiVersion {
    pub major: u32,
    pub minor: u32,
}

/// The byte `.` that separates the fields of a version string.
pub open spec fn is_dot(b: u8) -> bool {
    b == 0x2e
}

/// An ASCII decimal digit.
pub open spec fn is_digit(b: u8) -> bool {
    0x30 <= b <= 0x39
}

pub open spec fn all_digits(s: Seq<u8>) -> bool {
    forall|i: int| 0 <= i < s.len() ==> #[trigger] is_digit(s[i])
}

/// The number that a sequence of decimal digits denotes (most significant first).
pub open spec fn decimal_value(s: Seq<u8>) -> nat
    decreases s.len(),
{
    if s.len() == 0 {
        0
    } else {
        decimal_value(s.drop_last()) * 10 + (s.last() - 0x30) as nat
    }
}

/// What `u32::from_str` accepts: one optional leading `+` followed by at
/// least one decimal digit, denoting a value that fits in a `u32`.
pub open spec fn spec_parse_u32(s: Seq<u8>) -> Option<u32> {
    let digits = if s.len() > 1 && s[0] == 0x2b {
        s.drop_first()
    } else {
        s
    };
    if digits.len() > 0 && all_digits(digits) && decimal_value(digits) <= u32::MAX {
        Some(decimal_value(digits) as u32)
    } else {
        None
    }
}

/// The end of the `.`-separated field that starts at `start`: the index of
/// the next `.` at or after `start`, or the length when there is none.
pub open spec fn field_end(s: Seq<u8>, start: int) -> int
    decreases s.len() - start,
{
    if start >= s.len() {
        s.len() as int
    } else if is_dot(s[start]) {
        start
    } else {
        field_end(s, start + 1)
    }
}

/// A version string `major.minor[.rest]`: the first `.`-separated field is the
/// major version, the second the minor one, and any further fields are
/// ignored. There is no version when the string has no `.` or when either of
/// the two fields is not a `u32`.
pub open spec fn spec_parse_api_version(s: Seq<u8>) -> Option<(u32, u32)> {
    let major_end = field_end(s, 0);
    if major_end >= s.len() {
        None
    } else {
        let minor_end = field_end(s, major_end + 1);
        match (
            spec_parse_u32(s.subrange(0, major_end)),
            spec_parse_u32(s.subrange(major_end + 1, minor_end)),
        ) {
            (Some(major), Some(minor)) => Some((major, minor)),
            _ => None,
        }
    }
}

/// The decimal rendering of a number, without sign or leading zeros.
pub open spec fn decimal_digits(n: nat) -> Seq<u8>
    decreases n,
{
    if n < 10 {
        seq![(0x30 + n) as u8]
    } else {
        decimal_digits(n / 10).push((0x30 + n % 10) as u8)
    }
}

proof fn lemma_field_end_bounds(s: Seq<u8>, start: int)
    requires
        0 <= start <= s.len(),
    ensures
        start <= field_end(s, start) <= s.len(),
        field_end(s, start) < s.len() ==> is_dot(s[field_end(s, start)]),
        forall|k: int| start <= k < field_end(s, start) ==> !is_dot(#[trigger] s[k]),
    decreases s.len() - start,
{
    if start < s.len() && !is_dot(s[start]) {
        lemma_field_end_bounds(s, start + 1);
    }
}

proof fn lemma_field_end_at(s: Seq<u8>, start: int, end: int)
    requires
        0 <= start <= end <= s.len(),
        forall|k: int| start <= k < end ==> !is_dot(#[trigger] s[k]),
        end < s.len() ==> is_dot(s[end]),
    ensures
        field_end(s, start) == end,
    decreases end - start,
{
    if start < end {
        lemma_field_end_at(s, start + 1, end);
    }
}

/// The value of a prefix of a digit sequence is at most the value of the whole.
proof fn lemma_decimal_value_prefix(s: Seq<u8>, k: int)
    requires
        all_digits(s),
        0 <= k <= s.len(),
    ensures
        decimal_value(s.take(k)) <= decimal_value(s),
    decreases s.len(),
{
    if k < s.len() {
        assert(s.drop_last().take(k) =~= s.take(k));
        lemma_decimal_value_prefix(s.drop_last(), k);
    } else {
        assert(s.take(k) =~= s);
    }
}

proof fn lemma_decimal_digits(n: nat)
    ensures
        decimal_digits(n).len() > 0,
        all_digits(decimal_digits(n)),
        decimal_value(decimal_digits(n)) == n,
    decreases n,
{
    let d = decimal_digits(n);
    if n < 10 {
        assert(d.drop_last() =~= Seq::<u8>::empty());
        assert(decimal_value(d.drop_last()) == 0);
    } else {
        lemma_decimal_digits(n / 10);
        assert(d.drop_last() =~= decimal_digits(n / 10));
        assert(d.last() == (0x30 + n % 10) as u8);
        assert(decimal_value(d) == decimal_value(decimal_digits(n / 10)) * 10 + n % 10);
        assert forall|i: int| 0 <= i < d.len() implies #[trigger] is_digit(d[i]) by {
            if i < d.len() - 1 {
                assert(d[i] == decimal_digits(n / 10)[i]);
            }
        }
    }
}

/// Parsing the decimal rendering `major.minor` gives the version back.
pub proof fn lemma_parse_rendered_version(major: u32, minor: u32)
    ensures
        spec_parse_api_version(
            decimal_digits(major as nat) + seq![0x2eu8] + decimal_digits(minor as nat),
        ) == Some((major, minor)),
{
    let a = decimal_digits(major as nat);
    let b = decimal_digits(minor as nat);
    let s = a + seq![0x2eu8] + b;
    lemma_decimal_digits(major as nat);
    lemma_decimal_digits(minor as nat);
    assert forall|k: int| 0 <= k < a.len() implies !is_dot(#[trigger] s[k]) by {
        assert(s[k] == a[k]);
        assert(is_digit(a[k]));
    }
    lemma_field_end_at(s, 0, a.len() as int);
    assert forall|k: int| a.len() + 1 <= k < s.len() implies !is_dot(#[trigger] s[k]) by {
        assert(s[k] == b[k - a.len() - 1]);
        assert(is_digit(b[k - a.len() - 1]));
    }
    lemma_field_end_at(s, a.len() as int + 1, s.len() as int);
    assert(s.subrange(0, a.len() as int) =~= a);
    assert(s.subrange(a.len() as int + 1, s.len() as int) =~= b);
    assert(is_digit(a[0]));
    assert(is_digit(b[0]));
}

/// The index where the `.`-separated field that starts at `start` ends.
fn find_field_end(bytes: &[u8], start: usize) -> (end: usize)
    requires
        start <= bytes@.len(),
    ensures
        end == field_end(bytes@, start as int),
{
    let mut i = start;
    while i < bytes.len()
        invariant
            start <= i <= bytes@.len(),
            field_end(bytes@, i as int) == field_end(bytes@, start as int),
        decreases bytes@.len() - i,
    {
        if bytes[i] == 0x2e {
            return i;
        }
        i = i + 1;
    }
    i
}

/// Parses `bytes[start..end]` as `u32::from_str` would.
fn parse_u32_field(bytes: &[u8], start: usize, end: usize) -> (r: Option<u32>)
    requires
        start <= end <= bytes@.len(),
    ensures
        r == spec_parse_u32(bytes@.subrange(start as int, end as int)),
{
    let ghost field = bytes@.subrange(start as int, end as int);
    let mut first = start;
    if end - start > 1 && bytes[start] == 0x2b {
        first = start + 1;
    }
    let ghost digits = bytes@.subrange(first as int, end as int);
    assert(digits =~= (if field.len() > 1 && field[0] == 0x2b {
        field.drop_first()
    } else {
        field
    }));
    assert(spec_parse_u32(field) == (if digits.len() > 0 && all_digits(digits) && decimal_value(
        digits,
    ) <= u32::MAX {
        Some(decimal_value(digits) as u32)
    } else {
        None
    }));
    if first == end {
        return None;
    }
    let mut value: u64 = 0;
    let mut i = first;
    while i < end
        invariant
            first <= i <= end <= bytes@.len(),
            digits == bytes@.subrange(first as int, end as int),
            field == bytes@.subrange(start as int, end as int),
            digits.len() > 0,
            spec_parse_u32(field) == (if all_digits(digits) && decimal_value(digits) <= u32::MAX {
                Some(decimal_value(digits) as u32)
            } else {
                None
            }),
            all_digits(digits.take(i - first)),
            value == decimal_value(digits.take(i - first)),
            value <= u32::MAX,
        decreases end - i,
    {
        let b = bytes[i];
        assert(digits[i - first] == b);
        if b < 0x30 || b > 0x39 {
            assert(!is_digit(digits[i - first]));
            return None;
        }
        let next = value * 10 + (b - 0x30) as u64;
        let ghost taken = digits.take(i - first + 1);
        assert(taken.drop_last() =~= digits.take(i - first));
        assert(taken.last() == b);
        assert(decimal_value(taken) == next);
        assert(all_digits(taken)) by {
            assert forall|k: int| 0 <= k < taken.len() implies #[trigger] is_digit(taken[k]) by {
                if k < taken.len() - 1 {
                    assert(taken[k] == digits.take(i - first)[k]);
                }
            }
        }
        if next > 0xffff_ffff {
            proof {
                if all_digits(digits) {
                    lemma_decimal_value_prefix(digits, i - first + 1);
                }
            }
            return None;
        }
        value = next;
        i = i + 1;
    }
    assert(digits.take(end - first) =~= digits);
    Some(value as u32)
}

/// Reads the version in the bytes of a version string, or gives `None` where
/// `spec_parse_api_version` has none.
fn read_api_version(bytes: &[u8]) -> (r: Option<ApiVersion>)
    ensures
        match spec_parse_api_version(bytes@) {
            Some((major, minor)) => r == Some(ApiVersion { major, minor }),
            None => r is None,
        },
{
    let major_end = find_field_end(bytes, 0);
    if major_end >= bytes.len() {
        return None;
    }
    let minor_end = find_field_end(bytes, major_end + 1);
    proof {
        lemma_field_end_bounds(bytes@, major_end + 1);
    }
    let major = parse_u32_field(bytes, 0, major_end);
    let minor = parse_u32_field(bytes, major_end + 1, minor_end);
    match (major, minor) {
        (Some(major), Some(minor)) => Some(ApiVersion { major, minor }),
        _ => None,
    }
}

/// Whether `version` is a version string that `parse_api_version` accepts.
pub fn is_api_version(version: &str) -> (r: bool)
    ensures
        r == spec_parse_api_version(version.spec_bytes()) is Some,
{
    read_api_version(version.as_bytes()).is_some()
}

/// Reads the version of a version string `major.minor` such as `"1.8"`, as the
/// `arcrop_api` attribute does: the text before the first `.` is the major
/// version, the text up to the next `.` (or the end) the minor one, each read
/// as `u32::from_str` reads it. The attribute panics on any other string, so
/// those are left out here: `is_api_version` tells them apart.
pub fn parse_api_version(version: &str) -> (r: ApiVersion)
    requires
        spec_parse_api_version(version.spec_bytes()) is Some,
    ensures
        spec_parse_api_version(version.spec_bytes()) == Some((r.major, r.minor)),
{
    match read_api_version(version.as_bytes()) {
        Some(v) => v,
        None => {
            proof {
                assert(false);
            }
            ApiVersion { major: 0, minor: 0 }
        },
    }
}

} // verus!

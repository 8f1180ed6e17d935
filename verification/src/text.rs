//! Text conversions the assembly engine needs: string equality, the
//! environment-key convention (ASCII upper case), and the conversions from
//! environment strings to typed values.

use vstd::prelude::*;

use crate::value::{TypeTag, Value, ValueModel};

verus! {

/// String equality, decided character by character.
pub fn str_eq(a: &str, b: &str) -> (r: bool)
    ensures
        r == (a@ == b@),
{
    let an = a.unicode_len();
    let bn = b.unicode_len();
    if an != bn {
        return false;
    }
    for i in 0..an
        invariant
            an == a@.len(),
            an == b@.len(),
            forall|j: int| 0 <= j < i ==> a@[j] == b@[j],
    {
        if a.get_char(i) != b.get_char(i) {
            return false;
        }
    }
    proof {
        assert(a@ =~= b@);
    }
    true
}

/// The ASCII upper-case image of one character; anything but `a..z` is kept.
pub open spec fn upper_char(c: char) -> char {
    if 97 <= c as u32 && c as u32 <= 122 {
        (c as u32 - 32) as char
    } else {
        c
    }
}

/// The environment variable consulted for a field is named by the ASCII
/// upper-case form of the field's name.
pub open spec fn env_key(name: Seq<char>) -> Seq<char> {
    name.map_values(|c: char| upper_char(c))
}

/// Decides whether `key` is the environment key of the field named `name`.
pub fn key_matches(key: &str, name: &str) -> (r: bool)
    ensures
        r == (key@ == env_key(name@)),
{
    let kn = key.unicode_len();
    let nn = name.unicode_len();
    if kn != nn {
        assert(key@.len() != env_key(name@).len());
        return false;
    }
    for i in 0..kn
        invariant
            kn == key@.len(),
            nn == name@.len(),
            kn == nn,
            forall|j: int| 0 <= j < i ==> key@[j] == env_key(name@)[j],
    {
        let kc = key.get_char(i);
        let nc = name.get_char(i);
        let nu = nc as u32;
        let target: u32 = if 97 <= nu && nu <= 122 {
            nu - 32
        } else {
            nu
        };
        if kc as u32 != target {
            proof {
                vstd::utf8::char_u32_cast(kc, kc as u32);
                assert(key@[i as int] != env_key(name@)[i as int]);
            }
            return false;
        }
        proof {
            vstd::utf8::char_u32_cast(kc, kc as u32);
            assert(key@[i as int] == env_key(name@)[i as int]);
        }
    }
    proof {
        assert(key@ =~= env_key(name@));
    }
    true
}

/// A decimal digit.
pub open spec fn is_digit(c: char) -> bool {
    48 <= c as u32 <= 57
}

/// The numeric value of one decimal digit.
pub open spec fn digit_val(c: char) -> int {
    c as u32 - 48
}

pub open spec fn all_digits(s: Seq<char>) -> bool {
    forall|i: int| 0 <= i < s.len() ==> is_digit(s[i])
}

/// The value of a string of decimal digits, most significant first.
pub open spec fn digits_val(s: Seq<char>) -> int
    decreases s.len(),
{
    if s.len() == 0 {
        0
    } else {
        digits_val(s.drop_last()) * 10 + digit_val(s.last())
    }
}

/// The integer an environment string stands for: an optional leading minus
/// sign, then one or more decimal digits, within the range of `i64`.
pub open spec fn spec_parse_i64(s: Seq<char>) -> Option<int> {
    if s.len() > 0 && s[0] == '-' {
        let d = s.skip(1);
        if d.len() > 0 && all_digits(d) && -digits_val(d) >= i64::MIN {
            Some(-digits_val(d))
        } else {
            None
        }
    } else if s.len() > 0 && all_digits(s) && digits_val(s) <= i64::MAX {
        Some(digits_val(s))
    } else {
        None
    }
}

proof fn lemma_digits_val_nonneg(s: Seq<char>)
    requires
        all_digits(s),
    ensures
        digits_val(s) >= 0,
    decreases s.len(),
{
    if s.len() > 0 {
        lemma_digits_val_nonneg(s.drop_last());
    }
}

/// A digit string is worth at least any of its prefixes.
proof fn lemma_digits_val_prefix(s: Seq<char>, n: int)
    requires
        all_digits(s),
        0 <= n <= s.len(),
    ensures
        digits_val(s) >= digits_val(s.take(n)),
    decreases s.len() - n,
{
    if n < s.len() {
        lemma_digits_val_prefix(s, n + 1);
        assert(s.take(n + 1).drop_last() =~= s.take(n));
        assert(all_digits(s.take(n))) by {
            assert(forall|i: int| 0 <= i < n ==> s.take(n)[i] == s[i]);
        }
        lemma_digits_val_nonneg(s.take(n));
        assert(digits_val(s.take(n + 1)) == digits_val(s.take(n)) * 10 + digit_val(s[n]));
    } else {
        assert(s.take(n) =~= s);
    }
}

/// Parses a decimal integer, or reports that the string is not one in range.
pub fn parse_i64(s: &str) -> (r: Option<i64>)
    ensures
        match r {
            Some(v) => spec_parse_i64(s@) == Some(v as int),
            None => spec_parse_i64(s@) is None,
        },
{
    let n = s.unicode_len();
    if n == 0 {
        return None;
    }
    let neg = s.get_char(0) == '-';
    if neg && n == 1 {
        return None;
    }
    let start: usize = if neg {
        1
    } else {
        0
    };
    let ghost digits: Seq<char> = if neg {
        s@.skip(1)
    } else {
        s@
    };
    proof {
        assert(digits =~= s@.subrange(start as int, n as int));
    }
    let mut acc: i64 = 0;
    let mut i: usize = start;
    while i < n
        invariant
            start <= i <= n,
            n == s@.len(),
            n >= 1,
            neg == (s@[0] == '-'),
            start == if neg { 1int } else { 0int },
            digits == s@.subrange(start as int, n as int),
            all_digits(s@.subrange(start as int, i as int)),
            neg ==> acc == -digits_val(s@.subrange(start as int, i as int)),
            !neg ==> acc == digits_val(s@.subrange(start as int, i as int)),
            neg ==> acc <= 0,
            !neg ==> acc >= 0,
        decreases n - i,
    {
        let ghost pre = s@.subrange(start as int, i as int);
        let c = s.get_char(i);
        let u = c as u32;
        if u < 48 || u > 57 {
            proof {
                assert(!is_digit(s@[i as int]));
                if neg {
                    assert(!is_digit(digits[i - 1]));
                }
            }
            return None;
        }
        let d: i64 = (u - 48) as i64;
        proof {
            assert(s@.subrange(start as int, i + 1).drop_last() =~= pre);
            assert(s@.subrange(start as int, i + 1).last() == s@[i as int]);
            assert(digits_val(s@.subrange(start as int, i + 1)) == digits_val(pre) * 10 + digit_val(
                s@[i as int],
            ));
        }
        if neg {
            let step = match acc.checked_mul(10) {
                Some(x) => x.checked_sub(d),
                None => None,
            };
            acc = match step {
                Some(y) => y,
                None => {
                    proof {
                        lemma_too_large(s@, digits, start as int, i as int, neg);
                    }
                    return None;
                },
            };
        } else {
            let step = match acc.checked_mul(10) {
                Some(x) => x.checked_add(d),
                None => None,
            };
            acc = match step {
                Some(y) => y,
                None => {
                    proof {
                        lemma_too_large(s@, digits, start as int, i as int, neg);
                    }
                    return None;
                },
            };
        }
        i = i + 1;
        proof {
            assert(all_digits(s@.subrange(start as int, i as int))) by {
                assert(forall|j: int|
                    0 <= j < i - start ==> s@.subrange(start as int, i as int)[j] == s@[start + j]);
            }
        }
    }
    proof {
        assert(s@.subrange(start as int, n as int) == digits);
        if neg {
            assert(spec_parse_i64(s@) == Some(-digits_val(digits)));
        } else {
            assert(s@[0] != '-');
            assert(spec_parse_i64(s@) == Some(digits_val(digits)));
        }
    }
    Some(acc)
}

/// When one more digit already exceeds the range of `i64`, the whole digit
/// string does too, whatever follows, so the parse must reject the string.
proof fn lemma_too_large(s: Seq<char>, digits: Seq<char>, start: int, i: int, neg: bool)
    requires
        0 <= start <= i < s.len(),
        start == if neg { 1int } else { 0int },
        neg == (s[0] == '-'),
        digits == s.subrange(start, s.len() as int),
        all_digits(s.subrange(start, i)),
        is_digit(s[i]),
        digits_val(s.subrange(start, i)) * 10 + digit_val(s[i]) > (if neg {
            -(i64::MIN as int)
        } else {
            i64::MAX as int
        }),
    ensures
        spec_parse_i64(s) is None,
{
    let limit: int = if neg {
        -(i64::MIN as int)
    } else {
        i64::MAX as int
    };
    if neg {
        assert(s.skip(1) =~= digits);
    } else {
        assert(digits =~= s);
    }
    if all_digits(digits) {
        assert(s.subrange(start, i + 1).drop_last() =~= s.subrange(start, i));
        assert(digits_val(s.subrange(start, i + 1)) == digits_val(s.subrange(start, i)) * 10
            + digit_val(s[i]));
        assert(s.subrange(start, i + 1) =~= digits.take(i + 1 - start));
        lemma_digits_val_prefix(digits, i + 1 - start);
        assert(digits_val(digits) > limit);
    } else {
        let j = choose|j: int| 0 <= j < digits.len() && !is_digit(digits[j]);
        if neg {
            assert(!all_digits(s.skip(1)));
        } else {
            assert(!is_digit(s[start + j]));
            assert(!all_digits(s));
        }
    }
}

/// The boolean an environment string stands for: exactly `true` or `false`.
pub open spec fn spec_parse_bool(s: Seq<char>) -> Option<bool> {
    if s == "true"@ {
        Some(true)
    } else if s == "false"@ {
        Some(false)
    } else {
        None
    }
}

/// Parses a boolean, or reports that the string is not one.
pub fn parse_bool(s: &str) -> (r: Option<bool>)
    ensures
        r == spec_parse_bool(s@),
{
    if str_eq(s, "true") {
        Some(true)
    } else if str_eq(s, "false") {
        Some(false)
    } else {
        None
    }
}

/// What an environment override stands for at a field of kind `k`: strings
/// are taken as they are; integers and booleans are parsed. `None` when the
/// string cannot be converted to the field's kind.
pub open spec fn convert_env(s: Seq<char>, k: TypeTag) -> Option<ValueModel> {
    match k {
        TypeTag::StringKind => Some(ValueModel::Str(s)),
        TypeTag::IntegerKind => match spec_parse_i64(s) {
            Some(v) => Some(ValueModel::Int(v)),
            None => None,
        },
        TypeTag::BooleanKind => match spec_parse_bool(s) {
            Some(b) => Some(ValueModel::Bool(b)),
            None => None,
        },
    }
}

/// Executable counterpart of [`convert_env`].
pub fn convert_env_value(s: &String, k: TypeTag) -> (o: Option<Value>)
    ensures
        o.deep_view() == convert_env(s@, k),
{
    match k {
        TypeTag::StringKind => Some(Value::VStr(s.clone())),
        TypeTag::IntegerKind => match parse_i64(s.as_str()) {
            Some(v) => Some(Value::VInt(v)),
            None => None,
        },
        TypeTag::BooleanKind => match parse_bool(s.as_str()) {
            Some(b) => Some(Value::VBool(b)),
            None => None,
        },
    }
}

} // verus!

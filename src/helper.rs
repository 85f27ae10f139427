//! Recognition of compiler-generated module-interop helper names, which are
//! never marked pure.

use vstd::prelude::*;
use vstd::utf8::encode_utf8;
use crate::bytes::bytes_eq;

verus! {

pub open spec fn dollar() -> u8 {
    36u8
}

pub open spec fn is_digit(b: u8) -> bool {
    48 <= b <= 57
}

/// The four interop helper names, as bytes.
pub open spec fn helper_bases() -> Seq<Seq<u8>> {
    seq![
        // __createBinding
        seq![
            '_' as u8, '_' as u8, 'c' as u8, 'r' as u8, 'e' as u8, 'a' as u8, 't' as u8,
            'e' as u8, 'B' as u8, 'i' as u8, 'n' as u8, 'd' as u8, 'i' as u8, 'n' as u8,
            'g' as u8,
        ],
        // __setModuleDefault
        seq![
            '_' as u8, '_' as u8, 's' as u8, 'e' as u8, 't' as u8, 'M' as u8, 'o' as u8,
            'd' as u8, 'u' as u8, 'l' as u8, 'e' as u8, 'D' as u8, 'e' as u8, 'f' as u8,
            'a' as u8, 'u' as u8, 'l' as u8, 't' as u8,
        ],
        // __importStar
        seq![
            '_' as u8, '_' as u8, 'i' as u8, 'm' as u8, 'p' as u8, 'o' as u8, 'r' as u8,
            't' as u8, 'S' as u8, 't' as u8, 'a' as u8, 'r' as u8,
        ],
        // __importDefault
        seq![
            '_' as u8, '_' as u8, 'i' as u8, 'm' as u8, 'p' as u8, 'o' as u8, 'r' as u8,
            't' as u8, 'D' as u8, 'e' as u8, 'f' as u8, 'a' as u8, 'u' as u8, 'l' as u8,
            't' as u8,
        ],
    ]
}

pub open spec fn is_helper_base(s: Seq<u8>) -> bool {
    exists|i: int| 0 <= i < helper_bases().len() && helper_bases()[i] == s
}

pub open spec fn all_digits(d: Seq<u8>) -> bool {
    forall|i: int| 0 <= i < d.len() ==> is_digit(#[trigger] d[i])
}

/// `s` is the text of an integer: an optional sign, then one or more
/// decimal digits.
pub open spec fn is_integer_text(s: Seq<u8>) -> bool {
    let signed = s.len() > 0 && (s[0] == ('-' as u8) || s[0] == ('+' as u8));
    let d = if signed { s.subrange(1, s.len() as int) } else { s };
    d.len() > 0 && all_digits(d)
}

pub open spec fn has_no_dollar(s: Seq<u8>) -> bool {
    forall|i: int| 0 <= i < s.len() ==> s[i] != dollar()
}

/// `name` split on `$` gives one part that is a helper name, or two parts of
/// which the first is a helper name and the second an integer.
pub open spec fn is_helper_name(name: Seq<u8>) -> bool {
    if has_no_dollar(name) {
        is_helper_base(name)
    } else {
        exists|k: int|
            0 <= k < name.len() && name[k] == dollar() && #[trigger] has_no_dollar(
                name.subrange(0, k),
            ) && has_no_dollar(name.subrange(k + 1, name.len() as int))
                && is_helper_base(name.subrange(0, k)) && is_integer_text(
                name.subrange(k + 1, name.len() as int),
            )
    }
}

/// Whether `b` is one of the helper base names.
fn helper_base_match(b: &[u8]) -> (r: bool)
    ensures
        r == is_helper_base(b@),
{
    let names: Vec<Vec<u8>> = vec![
        // __createBinding
        vec![
            '_' as u8, '_' as u8, 'c' as u8, 'r' as u8, 'e' as u8, 'a' as u8, 't' as u8,
            'e' as u8, 'B' as u8, 'i' as u8, 'n' as u8, 'd' as u8, 'i' as u8, 'n' as u8,
            'g' as u8,
        ],
        // __setModuleDefault
        vec![
            '_' as u8, '_' as u8, 's' as u8, 'e' as u8, 't' as u8, 'M' as u8, 'o' as u8,
            'd' as u8, 'u' as u8, 'l' as u8, 'e' as u8, 'D' as u8, 'e' as u8, 'f' as u8,
            'a' as u8, 'u' as u8, 'l' as u8, 't' as u8,
        ],
        // __importStar
        vec![
            '_' as u8, '_' as u8, 'i' as u8, 'm' as u8, 'p' as u8, 'o' as u8, 'r' as u8,
            't' as u8, 'S' as u8, 't' as u8, 'a' as u8, 'r' as u8,
        ],
        // __importDefault
        vec![
            '_' as u8, '_' as u8, 'i' as u8, 'm' as u8, 'p' as u8, 'o' as u8, 'r' as u8,
            't' as u8, 'D' as u8, 'e' as u8, 'f' as u8, 'a' as u8, 'u' as u8, 'l' as u8,
            't' as u8,
        ],
    ];
    assert(forall|i: int| 0 <= i < 4 ==> names@[i]@ == helper_bases()[i]);
    let mut i: usize = 0;
    while i < names.len()
        invariant
            names@.len() == 4,
            forall|j: int| 0 <= j < 4 ==> names@[j]@ == helper_bases()[j],
            forall|j: int| 0 <= j < i ==> helper_bases()[j] != b@,
        decreases names@.len() - i,
    {
        if bytes_eq(names[i].as_slice(), b) {
            assert(helper_bases()[i as int] == b@);
            return true;
        }
        i = i + 1;
    }
    assert(!is_helper_base(b@));
    false
}

/// Whether `s` is the text of an integer.
fn integer_text(s: &[u8]) -> (r: bool)
    ensures
        r == is_integer_text(s@),
{
    let n = s.len();
    let signed = n > 0 && (s[0] == ('-' as u8) || s[0] == ('+' as u8));
    let start: usize = if signed { 1 } else { 0 };
    if start >= n {
        return false;
    }
    let ghost d = s@.subrange(start as int, n as int);
    assert(!signed ==> d =~= s@);
    let mut i: usize = start;
    while i < n
        invariant
            start <= i <= n,
            n == s@.len(),
            d == s@.subrange(start as int, n as int),
            d.len() > 0,
            is_integer_text(s@) == all_digits(d),
            forall|j: int| start <= j < i ==> is_digit(#[trigger] s@[j]),
        decreases n - i,
    {
        let c = s[i];
        if !(('0' as u8) <= c && c <= ('9' as u8)) {
            assert(d[i - start] == c);
            assert(!is_digit(d[i - start]));
            return false;
        }
        i = i + 1;
    }
    assert forall|j: int| 0 <= j < d.len() implies is_digit(#[trigger] d[j]) by {
        assert(d[j] == s@[start + j]);
    }
    true
}

/// Whether `name` is an interop helper name: one of the four helper names,
/// optionally followed by `$` and an integer that bundlers append to tell copies
/// apart.
pub fn is_tslib_helper_name(name: &str) -> (r: bool)
    ensures
        r == is_helper_name(encode_utf8(name@)),
{
    let b = name.as_bytes();
    let n = b.len();
    let mut k: usize = 0;
    while k < n && b[k] != ('$' as u8)
        invariant
            0 <= k <= n,
            n == b@.len(),
            has_no_dollar(b@.subrange(0, k as int)),
        decreases n - k,
    {
        assert(b@.subrange(0, k + 1) == b@.subrange(0, k as int).push(b@[k as int]));
        k = k + 1;
    }
    if k == n {
        assert(b@.subrange(0, n as int) == b@);
        return helper_base_match(b);
    }
    let (head, tail) = b.split_at(k);
    let (_, rest) = tail.split_at(1);
    assert(head@ == b@.subrange(0, k as int));
    assert(rest@ == b@.subrange(k + 1, n as int));
    let mut j: usize = 0;
    while j < rest.len()
        invariant
            0 <= j <= rest@.len(),
            k < n,
            n == b@.len(),
            b@[k as int] == dollar(),
            has_no_dollar(b@.subrange(0, k as int)),
            rest@ == b@.subrange(k + 1, n as int),
            b@ == encode_utf8(name@),
            has_no_dollar(rest@.subrange(0, j as int)),
        decreases rest@.len() - j,
    {
        if rest[j] == ('$' as u8) {
            assert(rest@[j as int] == b@[k + 1 + j]);
            assert(!has_no_dollar(rest@));
            assert(!has_no_dollar(b@.subrange(k + 1, n as int)));
            assert(!has_no_dollar(b@));
            assert forall|m: int|
                0 <= m < b@.len() && b@[m] == dollar() && has_no_dollar(
                    #[trigger] b@.subrange(0, m),
                ) implies m == k by {
                if m > k {
                    assert(b@.subrange(0, m)[k as int] == dollar());
                } else if m < k {
                    assert(b@.subrange(0, k as int)[m] == dollar());
                }
            }
            assert(!is_helper_name(b@)) by {
                if is_helper_name(b@) {
                    let m = choose|m: int|
                        0 <= m < b@.len() && b@[m] == dollar() && #[trigger] has_no_dollar(
                            b@.subrange(0, m),
                        ) && has_no_dollar(b@.subrange(m + 1, b@.len() as int))
                            && is_helper_base(b@.subrange(0, m)) && is_integer_text(
                            b@.subrange(m + 1, b@.len() as int),
                        );
                    assert(m == k);
                }
            }
            return false;
        }
        assert(rest@.subrange(0, j + 1) == rest@.subrange(0, j as int).push(rest@[j as int]));
        j = j + 1;
    }
    assert(rest@.subrange(0, rest@.len() as int) == rest@);
    let r = helper_base_match(head) && integer_text(rest);
    assert forall|m: int|
        0 <= m < b@.len() && b@[m] == dollar() && has_no_dollar(
            #[trigger] b@.subrange(0, m),
        ) implies m == k by {
        if m > k {
            assert(b@.subrange(0, m)[k as int] == dollar());
        } else if m < k {
            assert(b@.subrange(0, k as int)[m] == dollar());
        }
    }
    r
}

} // verus!

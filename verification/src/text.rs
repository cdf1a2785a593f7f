//! Text helpers shared by the rest of the library: comparison, endings,
//! the size of a text in bytes and the decimal notation of
//! integers. The calls into the standard library that Verus knows nothing
//! of stand at the end.

use vstd::prelude::*;
use vstd::string::*;

verus! {

/// Bytes that `c` takes in UTF-8.
pub open spec fn char_width(c: char) -> nat {
    if (c as u32) < 0x80 {
        1
    } else if (c as u32) < 0x800 {
        2
    } else if (c as u32) < 0x10000 {
        3
    } else {
        4
    }
}

/// Bytes that `s` takes in UTF-8.
pub open spec fn byte_len(s: Seq<char>) -> nat
    decreases s.len(),
{
    if s.len() == 0 {
        0
    } else {
        byte_len(s.drop_last()) + char_width(s.last())
    }
}

proof fn lemma_byte_len_prefix(s: Seq<char>, k: int)
    requires
        0 <= k <= s.len(),
    ensures
        byte_len(s.take(k)) <= byte_len(s),
    decreases s.len() - k,
{
    if k < s.len() {
        lemma_byte_len_prefix(s, k + 1);
        assert(s.take(k + 1).drop_last() =~= s.take(k));
    } else {
        assert(s.take(k) =~= s);
    }
}

/// Whether `chars` take at most `limit` bytes in UTF-8.
pub fn fits_bytes(chars: &Vec<char>, limit: usize) -> (b: bool)
    ensures
        b == (byte_len(chars@) <= limit),
{
    let mut total: usize = 0;
    let mut i: usize = 0;
    assert(chars@.take(0) =~= Seq::<char>::empty());
    while i < chars.len()
        invariant
            i <= chars.len(),
            total == byte_len(chars@.take(i as int)),
            total <= limit,
        decreases chars.len() - i,
    {
        let c = chars[i] as u32;
        let width: usize = if c < 0x80 {
            1
        } else if c < 0x800 {
            2
        } else if c < 0x10000 {
            3
        } else {
            4
        };
        proof {
            assert(chars@.take(i + 1).drop_last() =~= chars@.take(i as int));
            assert(chars@.take(i + 1).last() == chars@[i as int]);
            lemma_byte_len_prefix(chars@, i + 1);
        }
        if width > limit - total {
            return false;
        }
        total = total + width;
        i += 1;
    }
    assert(chars@.take(chars.len() as int) =~= chars@);
    true
}

/// The characters of `s`, in order.
pub fn chars_of(s: &str) -> (v: Vec<char>)
    ensures
        v@ == s@,
{
    let mut v: Vec<char> = Vec::new();
    for c in it: s.chars()
        invariant
            it.seq() == s@,
            v@ == s@.subrange(0, it.index() as int),
    {
        v.push(c);
    }
    assert(v@ == s@);
    v
}

/// Whether two texts hold the same characters.
pub fn text_eq(a: &str, b: &str) -> (same: bool)
    ensures
        same == (a@ == b@),
{
    let left = a.to_owned();
    let right = b.to_owned();
    left == right
}

/// `a` followed by `b`.
pub fn join2(a: &str, b: &str) -> (r: String)
    ensures
        r@ == a@ + b@,
{
    let mut r = String::from_str(a);
    r.append(b);
    r
}

/// `a`, `b` and `c` in a row.
pub fn join3(a: &str, b: &str, c: &str) -> (r: String)
    ensures
        r@ == a@ + b@ + c@,
{
    let mut r = String::from_str(a);
    r.append(b);
    r.append(c);
    r
}

/// Whether `s` ends with the characters of `p`.
pub open spec fn ends_with(s: Seq<char>, p: Seq<char>) -> bool {
    p.len() <= s.len() && s.subrange(s.len() - p.len(), s.len() as int) == p
}

/// Whether the first `len` characters of `s` end with `p`.
pub fn prefix_ends_with(s: &Vec<char>, len: usize, p: &Vec<char>) -> (b: bool)
    requires
        len <= s.len(),
    ensures
        b == ends_with(s@.take(len as int), p@),
{
    let n = p.len();
    if n > len {
        return false;
    }
    let start = len - n;
    let mut i: usize = 0;
    while i < n
        invariant
            n == p.len(),
            n <= len <= s.len(),
            start == len - n,
            i <= n,
            forall|j: int| 0 <= j < i ==> s@[start + j] == p@[j],
        decreases n - i,
    {
        if s[start + i] != p[i] {
            proof {
                let tail = s@.take(len as int).subrange(len - n, len as int);
                assert(tail[i as int] == s@[start + i]);
            }
            return false;
        }
        i += 1;
    }
    proof {
        let tail = s@.take(len as int).subrange(len - n, len as int);
        assert(tail =~= p@);
    }
    true
}

/// Whether the first `len` characters of `s` are the characters of `p`.
pub fn prefix_is(s: &Vec<char>, len: usize, p: &str) -> (b: bool)
    requires
        len <= s.len(),
    ensures
        b == (s@.take(len as int) == p@),
{
    let want = chars_of(p);
    if want.len() != len {
        return false;
    }
    let mut i: usize = 0;
    while i < len
        invariant
            len <= s.len(),
            want.len() == len,
            want@ == p@,
            i <= len,
            forall|j: int| 0 <= j < i ==> s@[j] == want@[j],
        decreases len - i,
    {
        if s[i] != want[i] {
            assert(s@.take(len as int)[i as int] != p@[i as int]);
            return false;
        }
        i += 1;
    }
    assert(s@.take(len as int) =~= p@);
    true
}

/// The character that writes the digit `d`.
pub open spec fn digit_char(d: int) -> char {
    seq!['0', '1', '2', '3', '4', '5', '6', '7', '8', '9'][d]
}

/// Decimal notation of a natural number, without leading zeros.
pub open spec fn nat_text(n: nat) -> Seq<char>
    decreases n,
{
    if n < 10 {
        seq![digit_char(n as int)]
    } else {
        nat_text(n / 10).push(digit_char((n % 10) as int))
    }
}

fn digit_text(d: u128) -> (r: &'static str)
    requires
        d < 10,
    ensures
        r@ == seq![digit_char(d as int)],
{
    proof {
        reveal_strlit("0");
        reveal_strlit("1");
        reveal_strlit("2");
        reveal_strlit("3");
        reveal_strlit("4");
        reveal_strlit("5");
        reveal_strlit("6");
        reveal_strlit("7");
        reveal_strlit("8");
        reveal_strlit("9");
    }
    let r = if d == 0 {
        "0"
    } else if d == 1 {
        "1"
    } else if d == 2 {
        "2"
    } else if d == 3 {
        "3"
    } else if d == 4 {
        "4"
    } else if d == 5 {
        "5"
    } else if d == 6 {
        "6"
    } else if d == 7 {
        "7"
    } else if d == 8 {
        "8"
    } else {
        "9"
    };
    assert(r@ =~= seq![digit_char(d as int)]);
    r
}

/// Writes `n` in decimal notation.
pub fn unsigned_text(n: u128) -> (r: String)
    ensures
        r@ == nat_text(n as nat),
    decreases n,
{
    if n < 10 {
        String::from_str(digit_text(n))
    } else {
        let mut r = unsigned_text(n / 10);
        r.append(digit_text(n % 10));
        r
    }
}

/// `s` in upper case, as `str::to_uppercase` of the standard library gives
/// it: the Unicode upper-case mapping of each character.
pub uninterp spec fn uppercase_text(s: Seq<char>) -> Seq<char>;

/// `str::to_uppercase`. Nothing is claimed of the mapping itself.
#[verifier::external_body]
pub(crate) fn to_uppercase(s: &str) -> (r: String)
    ensures
        r@ == uppercase_text(s@),
{
    s.to_uppercase()
}

/// Whether `c` is a letter, as `char::is_alphabetic` of the standard
/// library tells: the Unicode property Alphabetic.
pub uninterp spec fn is_alphabetic(c: char) -> bool;

/// `char::is_alphabetic`.
#[verifier::external_body]
pub(crate) fn char_is_alphabetic(c: char) -> (b: bool)
    ensures
        b == is_alphabetic(c),
{
    c.is_alphabetic()
}

/// `s` without the white space at its ends, as `str::trim` of the standard
/// library gives it.
pub uninterp spec fn trimmed_text(s: Seq<char>) -> Seq<char>;

/// `str::trim`. Nothing is claimed of what counts as white space.
#[verifier::external_body]
pub(crate) fn trim_text(s: &str) -> (r: String)
    ensures
        r@ == trimmed_text(s@),
{
    s.trim().to_owned()
}

/// The text that `String::from_utf8_lossy` of the standard library reads
/// from bytes: their characters, with the replacement character for what
/// is not UTF-8.
pub uninterp spec fn lossy_text(bytes: Seq<u8>) -> Seq<char>;

/// `String::from_utf8_lossy`.
#[verifier::external_body]
pub(crate) fn utf8_lossy(bytes: &[u8]) -> (r: String)
    ensures
        r@ == lossy_text(bytes@),
{
    String::from_utf8_lossy(bytes).into_owned()
}

} // verus!

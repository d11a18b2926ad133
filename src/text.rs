use vstd::prelude::*;
use vstd::utf8::encode_utf8;

verus! {

/// A character with the Unicode `White_Space` property.
pub open spec fn is_white(c: char) -> bool {
    let u = c as u32;
    (0x09 <= u && u <= 0x0D) || u == 0x20 || u == 0x85 || u == 0xA0 || u == 0x1680 || (0x2000
        <= u && u <= 0x200A) || u == 0x2028 || u == 0x2029 || u == 0x202F || u == 0x205F || u
        == 0x3000
}

/// `s` without its leading white space.
pub open spec fn trim_start_of(s: Seq<char>) -> Seq<char>
    decreases s.len(),
{
    if s.len() > 0 && is_white(s[0]) {
        trim_start_of(s.drop_first())
    } else {
        s
    }
}

/// `s` without its trailing white space.
pub open spec fn trim_end_of(s: Seq<char>) -> Seq<char>
    decreases s.len(),
{
    if s.len() > 0 && is_white(s.last()) {
        trim_end_of(s.drop_last())
    } else {
        s
    }
}

/// `s` without white space at either end.
pub open spec fn trimmed(s: Seq<char>) -> Seq<char> {
    trim_end_of(trim_start_of(s))
}

/// Length of `s` in bytes of UTF-8.
pub open spec fn byte_len(s: Seq<char>) -> nat {
    encode_utf8(s).len()
}

/// Whether `s`, once trimmed, has between `lo` and `hi` bytes.
pub open spec fn trimmed_len_within(s: Seq<char>, lo: nat, hi: nat) -> bool {
    lo <= byte_len(trimmed(s)) && byte_len(trimmed(s)) <= hi
}

/// Relies on `str::trim`: it removes leading and trailing characters that
/// have the `White_Space` property, and nothing else.
#[verifier::external_body]
fn trim_str(s: &str) -> (r: &str)
    ensures
        r@ == trimmed(s@),
{
    s.trim()
}

/// Trims `s` and owns the result, when its length in bytes lies in
/// `[lo, hi]`; `None` otherwise.
pub fn trimmed_within(s: &str, lo: usize, hi: usize) -> (r: Option<String>)
    ensures
        r is Some <==> trimmed_len_within(s@, lo as nat, hi as nat),
        r matches Some(t) ==> t@ == trimmed(s@),
{
    let t = trim_str(s);
    let n = t.as_bytes().len();
    if n < lo || n > hi {
        None
    } else {
        Some(t.to_owned())
    }
}

/// Character-wise equality of two strings.
pub fn same_text(a: &str, b: &str) -> (r: bool)
    ensures
        r == (a@ == b@),
{
    let n = a.unicode_len();
    let m = b.unicode_len();
    if n != m {
        return false;
    }
    let mut i: usize = 0;
    while i < n
        invariant
            n == a@.len(),
            m == b@.len(),
            n == m,
            i <= n,
            forall|k: int| 0 <= k < i ==> a@[k] == b@[k],
        decreases n - i,
    {
        if a.get_char(i) != b.get_char(i) {
            return false;
        }
        i = i + 1;
    }
    assert(a@ =~= b@);
    true
}

} // verus!

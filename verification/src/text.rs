//! Character-level string helpers: reading a `str` as chars, building a `String`
//! from chars, and UTF-8 byte lengths.
use vstd::prelude::*;
use vstd::string::*;
use vstd::utf8::*;

verus! {

/// Whether a char has the Unicode `White_Space` property (PropList.txt):
/// U+0009..U+000D, U+0020, U+0085, U+00A0, U+1680, U+2000..U+200A, U+2028,
/// U+2029, U+202F, U+205F and U+3000.
pub open spec fn char_white_space(c: char) -> bool {
    let u = c as u32;
    ||| 0x09 <= u <= 0x0d
    ||| u == 0x20
    ||| u == 0x85
    ||| u == 0xa0
    ||| u == 0x1680
    ||| 0x2000 <= u <= 0x200a
    ||| u == 0x2028
    ||| u == 0x2029
    ||| u == 0x202f
    ||| u == 0x205f
    ||| u == 0x3000
}

/// Whether `c` has the Unicode `White_Space` property (what
/// `char::is_whitespace` reports).
pub(crate) fn char_is_whitespace(c: char) -> (r: bool)
    ensures
        r == char_white_space(c),
{
    let u = c as u32;
    (0x09 <= u && u <= 0x0d) || u == 0x20 || u == 0x85 || u == 0xa0 || u == 0x1680 || (0x2000 <= u && u
        <= 0x200a) || u == 0x2028 || u == 0x2029 || u == 0x202f || u == 0x205f || u == 0x3000
}

/// Calls `String::from_utf8`. Claims that it succeeds exactly on valid UTF-8
/// (vstd's `valid_utf8`) and then holds the decoded chars (vstd's
/// `decode_utf8`), as its documentation says.
#[verifier::external_body]
pub(crate) fn utf8_to_string(bytes: Vec<u8>) -> (r: Option<String>)
    ensures
        r is Some <==> valid_utf8(bytes@),
        r matches Some(s) ==> s@ == decode_utf8(bytes@),
{
    match String::from_utf8(bytes) {
        Ok(s) => Some(s),
        Err(_) => None,
    }
}

/// Calls `String::push`. Claims that the char is appended (as its documentation says).
#[verifier::external_body]
pub(crate) fn push_char(s: &mut String, c: char)
    ensures
        final(s)@ == old(s)@.push(c),
{
    s.push(c);
}

/// The chars of a `str`, in order.
pub fn str_chars(s: &str) -> (r: Vec<char>)
    ensures
        r@ == s@,
{
    broadcast use axiom_spec_iter;
    let mut out: Vec<char> = Vec::new();
    for c in iter: s.chars()
        invariant
            out@ == iter.seq().take(iter.index()),
    {
        out.push(c);
    }
    assert(out@ =~= s@);
    out
}

/// A `String` holding the given chars.
pub fn string_from_chars(v: &[char]) -> (r: String)
    ensures
        r@ == v@,
{
    let mut out = String::new();
    let n = v.len();
    let mut i: usize = 0;
    while i < n
        invariant
            n == v@.len(),
            i <= n,
            out@ == v@.subrange(0, i as int),
        decreases n - i,
    {
        push_char(&mut out, v[i]);
        i = i + 1;
        assert(out@ =~= v@.subrange(0, i as int));
    }
    assert(v@.subrange(0, n as int) =~= v@);
    out
}

/// The number of bytes of the UTF-8 encoding of a char.
pub open spec fn char_utf8_width(c: char) -> nat {
    let u = c as u32;
    if u <= 0x7F { 1 } else if u <= 0x7FF { 2 } else if u <= 0xFFFF { 3 } else { 4 }
}

/// The number of bytes of the UTF-8 encoding of a char sequence.
pub open spec fn utf8_len(s: Seq<char>) -> nat
    decreases s.len(),
{
    if s.len() == 0 { 0 } else { char_utf8_width(s[0]) + utf8_len(s.drop_first()) }
}

/// `utf8_len` is the length of vstd's UTF-8 encoding (what `str::len` returns).
pub proof fn lemma_utf8_len_encode(s: Seq<char>)
    ensures
        utf8_len(s) == encode_utf8(s).len(),
    decreases s.len(),
{
    if s.len() > 0 {
        lemma_utf8_len_encode(s.drop_first());
        let c = s[0];
        char_is_scalar(c);
        assert(encode_scalar(c as u32).len() == char_utf8_width(c));
    }
}

/// Byte length of a single char.
pub proof fn lemma_utf8_len_single(c: char)
    ensures
        utf8_len(seq![c]) == char_utf8_width(c),
{
    assert(seq![c].drop_first() =~= Seq::<char>::empty());
    assert(utf8_len(Seq::<char>::empty()) == 0);
}

/// Byte length over a concatenation.
pub proof fn lemma_utf8_len_add(a: Seq<char>, b: Seq<char>)
    ensures
        utf8_len(a + b) == utf8_len(a) + utf8_len(b),
    decreases a.len(),
{
    if a.len() > 0 {
        lemma_utf8_len_add(a.drop_first(), b);
        assert((a + b).drop_first() =~= a.drop_first() + b);
    } else {
        assert(a + b =~= b);
    }
}

/// Byte length of a one-char extension.
pub proof fn lemma_utf8_len_push(a: Seq<char>, c: char)
    ensures
        utf8_len(a.push(c)) == utf8_len(a) + char_utf8_width(c),
{
    assert(a.push(c) =~= a + seq![c]);
    lemma_utf8_len_add(a, seq![c]);
    lemma_utf8_len_single(c);
}

/// The UTF-8 width of a char.
pub fn char_width(c: char) -> (r: usize)
    ensures
        r == char_utf8_width(c),
{
    let u = c as u32;
    if u <= 0x7F { 1 } else if u <= 0x7FF { 2 } else if u <= 0xFFFF { 3 } else { 4 }
}

/// The longest prefix of `s` whose UTF-8 encoding fits in `max` bytes.
pub open spec fn truncate_to_bytes_spec(s: Seq<char>, max: int) -> Seq<char>
    decreases s.len(),
{
    if s.len() == 0 || char_utf8_width(s[0]) > max {
        Seq::empty()
    } else {
        seq![s[0]] + truncate_to_bytes_spec(s.drop_first(), max - char_utf8_width(s[0]))
    }
}

/// Unfolding `truncate_to_bytes_spec` along a prefix of chars that fit.
proof fn lemma_truncate_step(s: Seq<char>, i: int, max: int, acc: int)
    requires
        0 <= i < s.len(),
        acc == utf8_len(s.take(i)),
        acc + char_utf8_width(s[i]) <= max,
        truncate_to_bytes_spec(s, max) == s.take(i) + truncate_to_bytes_spec(s.skip(i), max - acc),
    ensures
        truncate_to_bytes_spec(s, max) == s.take(i + 1) + truncate_to_bytes_spec(s.skip(i + 1), max - acc - char_utf8_width(s[i])),
{
    let t = s.skip(i);
    assert(t[0] == s[i]);
    assert(t.drop_first() =~= s.skip(i + 1));
    assert(s.take(i + 1) =~= s.take(i) + seq![s[i]]);
    assert(s.take(i) + (seq![s[i]] + truncate_to_bytes_spec(s.skip(i + 1), max - acc - char_utf8_width(s[i])))
        =~= s.take(i + 1) + truncate_to_bytes_spec(s.skip(i + 1), max - acc - char_utf8_width(s[i])));
}

/// When the whole sequence fits, truncation keeps it.
pub proof fn lemma_truncate_fits(s: Seq<char>, max: int)
    requires
        utf8_len(s) <= max,
    ensures
        truncate_to_bytes_spec(s, max) == s,
    decreases s.len(),
{
    if s.len() > 0 {
        lemma_truncate_fits(s.drop_first(), max - char_utf8_width(s[0]));
        assert(seq![s[0]] + s.drop_first() =~= s);
    }
}

/// Truncation yields a prefix that fits in `max` bytes.
pub proof fn lemma_truncate_bound(s: Seq<char>, max: int)
    requires
        max >= 0,
    ensures
        utf8_len(truncate_to_bytes_spec(s, max)) <= max,
        truncate_to_bytes_spec(s, max).len() <= s.len(),
        truncate_to_bytes_spec(s, max) == s.take(truncate_to_bytes_spec(s, max).len() as int),
    decreases s.len(),
{
    if s.len() > 0 && char_utf8_width(s[0]) <= max {
        let rest = truncate_to_bytes_spec(s.drop_first(), max - char_utf8_width(s[0]));
        lemma_truncate_bound(s.drop_first(), max - char_utf8_width(s[0]));
        lemma_utf8_len_add(seq![s[0]], rest);
        lemma_utf8_len_single(s[0]);
        assert(seq![s[0]] + rest =~= s.take(rest.len() + 1int));
    } else {
        assert(s.take(0) =~= Seq::<char>::empty());
    }
}

/// The longest prefix of `v` whose UTF-8 encoding fits in `max_bytes` bytes.
pub fn truncate_chars_to_bytes(v: &[char], max_bytes: usize) -> (r: Vec<char>)
    ensures
        r@ == truncate_to_bytes_spec(v@, max_bytes as int),
{
    let n = v.len();
    let mut out: Vec<char> = Vec::new();
    let mut acc: usize = 0;
    let mut i: usize = 0;
    assert(v@.take(0) =~= Seq::<char>::empty());
    assert(v@.skip(0) =~= v@);
    assert(truncate_to_bytes_spec(v@, max_bytes as int) =~= v@.take(0) + truncate_to_bytes_spec(v@.skip(0), max_bytes as int));
    while i < n
        invariant
            n == v@.len(),
            i <= n,
            out@ == v@.take(i as int),
            acc == utf8_len(v@.take(i as int)),
            acc <= max_bytes,
            truncate_to_bytes_spec(v@, max_bytes as int)
                == v@.take(i as int) + truncate_to_bytes_spec(v@.skip(i as int), max_bytes - acc),
        decreases n - i,
    {
        let w = char_width(v[i]);
        if w > max_bytes - acc {
            proof {
                let t = v@.skip(i as int);
                assert(t[0] == v@[i as int]);
                assert(truncate_to_bytes_spec(t, max_bytes - acc) =~= Seq::<char>::empty());
                assert(v@.take(i as int) + Seq::<char>::empty() =~= v@.take(i as int));
            }
            return out;
        }
        proof {
            lemma_truncate_step(v@, i as int, max_bytes as int, acc as int);
            lemma_utf8_len_push(v@.take(i as int), v@[i as int]);
            assert(v@.take(i + 1) =~= v@.take(i as int).push(v@[i as int]));
        }
        out.push(v[i]);
        acc = acc + w;
        i = i + 1;
    }
    assert(v@.skip(n as int) =~= Seq::<char>::empty());
    assert(v@.take(n as int) =~= v@);
    assert(v@ + Seq::<char>::empty() =~= v@);
    out
}


/// The lower-case hex digit of `n` (`n < 16`); also the decimal digit for `n < 10`.
pub open spec fn hex_digit(n: int) -> char {
    seq!['0', '1', '2', '3', '4', '5', '6', '7', '8', '9', 'a', 'b', 'c', 'd', 'e', 'f'][n]
}

/// The lower-case hex digit of `n`.
pub(crate) fn hex_char(n: u8) -> (r: char)
    requires
        n < 16,
    ensures
        r == hex_digit(n as int),
{
    let digits: [char; 16] = ['0', '1', '2', '3', '4', '5', '6', '7', '8', '9', 'a', 'b', 'c', 'd', 'e', 'f'];
    assert(digits@ =~= seq!['0', '1', '2', '3', '4', '5', '6', '7', '8', '9', 'a', 'b', 'c', 'd', 'e', 'f']);
    digits[n as usize]
}

/// The decimal digits of `n`, most significant first, without leading zeros
/// (`0` for zero): what `{}` prints for an unsigned integer.
pub open spec fn decimal_spec(n: nat) -> Seq<char>
    decreases n,
{
    if n < 10 {
        seq![hex_digit(n as int)]
    } else {
        decimal_spec(n / 10).push(hex_digit((n % 10) as int))
    }
}

/// The lower-case hex digits of `n`, most significant first, without leading
/// zeros (`0` for zero): what `{:x}` prints for an unsigned integer.
pub open spec fn hex_spec(n: nat) -> Seq<char>
    decreases n,
{
    if n < 16 {
        seq![hex_digit(n as int)]
    } else {
        hex_spec(n / 16).push(hex_digit((n % 16) as int))
    }
}

/// Appends the decimal digits of `n`.
pub fn push_decimal(out: &mut String, n: u64)
    ensures
        final(out)@ == old(out)@ + decimal_spec(n as nat),
    decreases n,
{
    if n >= 10 {
        push_decimal(out, n / 10);
    }
    let d = hex_char((n % 10) as u8);
    let ghost before = out@;
    push_char(out, d);
    proof {
        if n >= 10 {
            assert(before =~= old(out)@ + decimal_spec((n / 10) as nat));
            assert(out@ =~= old(out)@ + decimal_spec((n / 10) as nat).push(d));
        } else {
            assert(out@ =~= old(out)@ + seq![d]);
        }
    }
}

/// Appends the lower-case hex digits of `n`.
pub fn push_hex(out: &mut String, n: u64)
    ensures
        final(out)@ == old(out)@ + hex_spec(n as nat),
    decreases n,
{
    if n >= 16 {
        push_hex(out, n / 16);
    }
    let d = hex_char((n % 16) as u8);
    let ghost before = out@;
    push_char(out, d);
    proof {
        if n >= 16 {
            assert(before =~= old(out)@ + hex_spec((n / 16) as nat));
            assert(out@ =~= old(out)@ + hex_spec((n / 16) as nat).push(d));
        } else {
            assert(out@ =~= old(out)@ + seq![d]);
        }
    }
}

/// Appends the chars of a `str`.
pub fn push_str_chars(out: &mut String, s: &str)
    ensures
        final(out)@ == old(out)@ + s@,
{
    let v = str_chars(s);
    let n = v.len();
    let mut i: usize = 0;
    while i < n
        invariant
            n == v@.len(),
            v@ == s@,
            i <= n,
            out@ == old(out)@ + v@.take(i as int),
        decreases n - i,
    {
        push_char(out, v[i]);
        i = i + 1;
        assert(out@ =~= old(out)@ + v@.take(i as int));
    }
    assert(v@.take(n as int) =~= v@);
}

} // verus!

//! Text helpers shared by the display routines of the library: decimal
//! rendering of integers and string assembly with exact contracts.

use vstd::prelude::*;
use vstd::string::StringExecFns;
use vstd::string::StringSliceAdditionalSpecFns;
use vstd::utf8::{decode_utf8, valid_utf8};

verus! {

/// The ASCII digit character for `d` (`d` below ten).
pub open spec fn digit_char(d: nat) -> char {
    if d == 0 {
        '0'
    } else if d == 1 {
        '1'
    } else if d == 2 {
        '2'
    } else if d == 3 {
        '3'
    } else if d == 4 {
        '4'
    } else if d == 5 {
        '5'
    } else if d == 6 {
        '6'
    } else if d == 7 {
        '7'
    } else if d == 8 {
        '8'
    } else {
        '9'
    }
}

/// The decimal rendering of `n`, most significant digit first, without
/// leading zeros (zero renders as "0").
pub open spec fn decimal(n: nat) -> Seq<char>
    decreases n,
{
    if n < 10 {
        seq![digit_char(n)]
    } else {
        decimal(n / 10).push(digit_char(n % 10))
    }
}

/// The lowercase hexadecimal digit for `d` (`d` below sixteen).
pub open spec fn hex_char(d: nat) -> char {
    if d < 10 {
        digit_char(d)
    } else if d == 10 {
        'a'
    } else if d == 11 {
        'b'
    } else if d == 12 {
        'c'
    } else if d == 13 {
        'd'
    } else if d == 14 {
        'e'
    } else {
        'f'
    }
}

/// The lowercase hexadecimal rendering of `n`, most significant digit
/// first, without leading zeros (zero renders as "0").
pub open spec fn hex_digits(n: nat) -> Seq<char>
    decreases n,
{
    if n < 16 {
        seq![hex_char(n)]
    } else {
        hex_digits(n / 16).push(hex_char(n % 16))
    }
}

/// The lowercase hexadecimal digit for `d`.
fn hex_digit(d: u64) -> (r: char)
    requires
        d < 16,
    ensures
        r == hex_char(d as nat),
{
    if d < 10 {
        match d {
            0 => '0',
            1 => '1',
            2 => '2',
            3 => '3',
            4 => '4',
            5 => '5',
            6 => '6',
            7 => '7',
            8 => '8',
            _ => '9',
        }
    } else {
        match d {
            10 => 'a',
            11 => 'b',
            12 => 'c',
            13 => 'd',
            14 => 'e',
            _ => 'f',
        }
    }
}

/// Appends the lowercase hexadecimal rendering of `n` to `s`.
pub fn push_hex(s: &mut String, n: u64)
    ensures
        final(s)@ == old(s)@ + hex_digits(n as nat),
    decreases n,
{
    if n >= 16 {
        push_hex(s, n / 16);
    }
    push_char(s, hex_digit(n % 16));
    proof {
        if n >= 16 {
            assert(hex_digits(n as nat) == hex_digits((n / 16) as nat).push(hex_char((n % 16) as nat)));
        }
    }
}

/// Returns the one-character string holding the digit `d`.
fn digit_str(d: u64) -> (r: &'static str)
    requires
        d < 10,
    ensures
        r@ == seq![digit_char(d as nat)],
{
    if d == 0 {
        proof { reveal_strlit("0"); }
        "0"
    } else if d == 1 {
        proof { reveal_strlit("1"); }
        "1"
    } else if d == 2 {
        proof { reveal_strlit("2"); }
        "2"
    } else if d == 3 {
        proof { reveal_strlit("3"); }
        "3"
    } else if d == 4 {
        proof { reveal_strlit("4"); }
        "4"
    } else if d == 5 {
        proof { reveal_strlit("5"); }
        "5"
    } else if d == 6 {
        proof { reveal_strlit("6"); }
        "6"
    } else if d == 7 {
        proof { reveal_strlit("7"); }
        "7"
    } else if d == 8 {
        proof { reveal_strlit("8"); }
        "8"
    } else {
        proof { reveal_strlit("9"); }
        "9"
    }
}

/// Appends the decimal rendering of `n` to `s`.
pub fn push_decimal(s: &mut String, n: u64)
    ensures
        final(s)@ == old(s)@ + decimal(n as nat),
    decreases n,
{
    if n >= 10 {
        push_decimal(s, n / 10);
    }
    let d = n % 10;
    s.append(digit_str(d));
    proof {
        if n >= 10 {
            assert(decimal(n as nat) == decimal((n / 10) as nat).push(digit_char((n % 10) as nat)));
        }
    }
}

/// Appends `t` to `s`.
pub fn push_str(s: &mut String, t: &str)
    ensures
        final(s)@ == old(s)@ + t@,
{
    s.append(t);
}

/// Returns an owned copy of `t`.
pub fn owned(t: &str) -> (r: String)
    ensures
        r@ == t@,
{
    t.to_owned()
}

/// Returns the decimal rendering of `n` as a string.
pub fn u64_to_string(n: u64) -> (r: String)
    ensures
        r@ == decimal(n as nat),
{
    let mut s = String::new();
    push_decimal(&mut s, n);
    assert(s@ == Seq::<char>::empty() + decimal(n as nat));
    assert(Seq::<char>::empty() + decimal(n as nat) == decimal(n as nat));
    s
}

/// The pieces of `parts` joined by `sep`.
pub open spec fn join(parts: Seq<Seq<char>>, sep: Seq<char>) -> Seq<char>
    decreases parts.len(),
{
    if parts.len() == 0 {
        Seq::empty()
    } else if parts.len() == 1 {
        parts[0]
    } else {
        join(parts.drop_last(), sep) + sep + parts.last()
    }
}

/// Joining one more piece appends the separator (when there were pieces
/// before) and the piece.
pub proof fn lemma_join_push(parts: Seq<Seq<char>>, sep: Seq<char>, piece: Seq<char>)
    ensures
        join(parts.push(piece), sep) == (if parts.len() == 0 {
            piece
        } else {
            join(parts, sep) + sep + piece
        }),
{
    assert(parts.push(piece).drop_last() == parts);
    if parts.len() == 0 {
        assert(parts.push(piece)[0] == piece);
    }
}

/// Appends the piece `key` followed by the decimal rendering of `v` to a
/// string that holds `prefix` followed by `count` pieces joined by `sep`.
pub fn push_joined_decimal(
    s: &mut String,
    Ghost(prefix): Ghost<Seq<char>>,
    Ghost(parts): Ghost<Seq<Seq<char>>>,
    count: usize,
    sep: &str,
    key: &str,
    v: u64,
)
    requires
        old(s)@ == prefix + join(parts, sep@),
        count == parts.len(),
    ensures
        final(s)@ == prefix + join(parts.push(key@ + decimal(v as nat)), sep@),
{
    proof {
        lemma_join_push(parts, sep@, key@ + decimal(v as nat));
    }
    if count > 0 {
        push_str(s, sep);
    }
    push_str(s, key);
    push_decimal(s, v);
    proof {
        if count > 0 {
            assert(s@ == prefix + join(parts, sep@) + sep@ + key@ + decimal(v as nat));
            assert(prefix + join(parts, sep@) + sep@ + key@ + decimal(v as nat) == prefix + (
            join(parts, sep@) + sep@ + (key@ + decimal(v as nat))));
        } else {
            assert(join(parts, sep@) == Seq::<char>::empty());
            assert(s@ == prefix + Seq::<char>::empty() + key@ + decimal(v as nat));
            assert(prefix + Seq::<char>::empty() + key@ + decimal(v as nat) == prefix + (key@
                + decimal(v as nat)));
        }
    }
}

/// Appends the piece `piece` to a string that holds `prefix` followed by
/// `count` pieces joined by `sep`.
pub fn push_joined(
    s: &mut String,
    Ghost(prefix): Ghost<Seq<char>>,
    Ghost(parts): Ghost<Seq<Seq<char>>>,
    count: usize,
    sep: &str,
    piece: &str,
)
    requires
        old(s)@ == prefix + join(parts, sep@),
        count == parts.len(),
    ensures
        final(s)@ == prefix + join(parts.push(piece@), sep@),
{
    proof {
        lemma_join_push(parts, sep@, piece@);
    }
    if count > 0 {
        push_str(s, sep);
    }
    push_str(s, piece);
    proof {
        if count > 0 {
            assert(s@ == prefix + join(parts, sep@) + sep@ + piece@);
            assert(prefix + join(parts, sep@) + sep@ + piece@ == prefix + (join(parts, sep@) + sep@
                + piece@));
        } else {
            assert(join(parts, sep@) == Seq::<char>::empty());
            assert(s@ == prefix + Seq::<char>::empty() + piece@);
            assert(prefix + Seq::<char>::empty() + piece@ == prefix + piece@);
        }
    }
}

/// An ASCII decimal digit byte.
pub open spec fn is_digit_byte(b: u8) -> bool {
    48 <= b <= 57
}

/// Every byte is an ASCII decimal digit.
pub open spec fn all_digits(b: Seq<u8>) -> bool {
    forall|i: int| 0 <= i < b.len() ==> is_digit_byte(#[trigger] b[i])
}

/// The value of a run of decimal digit bytes, most significant first.
pub open spec fn digits_value(b: Seq<u8>) -> nat
    decreases b.len(),
{
    if b.len() == 0 {
        0
    } else {
        digits_value(b.drop_last()) * 10 + (b.last() - 48) as nat
    }
}

/// The digits of an unsigned number: the text without one leading '+'.
pub open spec fn unsigned_digits(b: Seq<u8>) -> Seq<u8> {
    if b.len() > 0 && b[0] == 43 {
        b.subrange(1, b.len() as int)
    } else {
        b
    }
}

/// How the standard library parses an unsigned integer no larger than
/// `max` from text: an optional '+', then at least one decimal digit and
/// nothing else, with a value that fits.
pub open spec fn parse_unsigned_spec(b: Seq<u8>, max: nat) -> Option<nat> {
    let d = unsigned_digits(b);
    if d.len() > 0 && all_digits(d) && digits_value(d) <= max {
        Some(digits_value(d))
    } else {
        None
    }
}

/// The value of a digit run is at least the value of any of its prefixes.
pub proof fn lemma_digits_value_prefix(d: Seq<u8>, k: int)
    requires
        0 <= k <= d.len(),
        all_digits(d),
    ensures
        digits_value(d.take(k)) <= digits_value(d),
    decreases d.len() - k,
{
    if k < d.len() {
        lemma_digits_value_prefix(d, k + 1);
        assert(d.take(k + 1).drop_last() == d.take(k));
        assert(d.take(k + 1).last() == d[k]);
        assert(is_digit_byte(d[k]));
        assert(digits_value(d.take(k + 1)) == digits_value(d.take(k)) * 10 + (d[k] - 48) as nat);
    } else {
        assert(d.take(k) == d);
    }
}

/// Parses an unsigned decimal integer no larger than `max`, accepting what
/// the standard library's integer parsing accepts.
pub fn parse_unsigned(s: &str, max: u64) -> (r: Option<u64>)
    ensures
        match parse_unsigned_spec(s.spec_bytes(), max as nat) {
            Some(v) => r == Some(v as u64),
            None => r is None,
        },
{
    let bytes = s.as_bytes();
    let len = bytes.len();
    let ghost b = bytes@;
    let start: usize = if len > 0 && bytes[0] == 43u8 { 1 } else { 0 };
    let ghost d = unsigned_digits(b);
    assert(d == b.subrange(start as int, len as int));
    if start == len {
        return None;
    }
    let mut acc: u64 = 0;
    let mut i: usize = start;
    while i < len
        invariant
            b == bytes@,
            b == s.spec_bytes(),
            d == unsigned_digits(b),
            len == b.len(),
            start <= i <= len,
            d == b.subrange(start as int, len as int),
            all_digits(d.take(i - start)),
            acc == digits_value(d.take(i - start)),
            acc <= max,
        decreases len - i,
    {
        let c = bytes[i];
        assert(d[i - start] == c);
        if c < 48u8 || c > 57u8 {
            assert(!is_digit_byte(d[i - start]));
            return None;
        }
        let v = (c - 48u8) as u64;
        assert(d.take(i - start + 1).drop_last() == d.take(i - start));
        assert(d.take(i - start + 1).last() == c);
        assert(all_digits(d.take(i - start + 1)));
        assert(digits_value(d.take(i - start + 1)) == acc * 10 + v);
        if acc > max / 10 {
            proof {
                assert(acc * 10 + v > max) by (nonlinear_arith)
                    requires
                        acc > max / 10,
                        v >= 0,
                ;
                if all_digits(d) {
                    lemma_digits_value_prefix(d, i - start + 1);
                }
            }
            return None;
        }
        assert(acc * 10 <= max) by (nonlinear_arith)
            requires
                acc <= max / 10,
        ;
        let t = acc * 10;
        if v > max - t {
            proof {
                if all_digits(d) {
                    lemma_digits_value_prefix(d, i - start + 1);
                }
            }
            return None;
        }
        acc = t + v;
        i = i + 1;
    }
    assert(d.take(len - start) == d);
    Some(acc)
}

/// An ASCII decimal digit.
pub open spec fn is_digit_char(c: char) -> bool {
    48 <= (c as u32) <= 57
}

/// The value of a run of decimal digits, most significant first.
pub open spec fn char_digits_value(s: Seq<char>) -> nat
    decreases s.len(),
{
    if s.len() == 0 {
        0
    } else {
        char_digits_value(s.drop_last()) * 10 + ((s.last() as u32) - 48) as nat
    }
}

/// The digits of an unsigned number: the text without one leading '+'.
pub open spec fn unsigned_char_digits(s: Seq<char>) -> Seq<char> {
    if s.len() > 0 && s[0] == '+' {
        s.drop_first()
    } else {
        s
    }
}

/// How the standard library parses a `u64` from text: an optional '+', then
/// at least one decimal digit and nothing else, with a value that fits.
pub open spec fn parse_u64_spec(s: Seq<char>) -> Option<u64> {
    let d = unsigned_char_digits(s);
    if d.len() > 0 && (forall|i: int| 0 <= i < d.len() ==> is_digit_char(#[trigger] d[i]))
        && char_digits_value(d) <= u64::MAX {
        Some(char_digits_value(d) as u64)
    } else {
        None
    }
}

/// The value of a digit run is at least the value of any of its prefixes.
proof fn lemma_char_digits_prefix(d: Seq<char>, k: int)
    requires
        0 <= k <= d.len(),
        forall|i: int| 0 <= i < d.len() ==> is_digit_char(#[trigger] d[i]),
    ensures
        char_digits_value(d.take(k)) <= char_digits_value(d),
    decreases d.len() - k,
{
    if k < d.len() {
        lemma_char_digits_prefix(d, k + 1);
        assert(d.take(k + 1).drop_last() == d.take(k));
        assert(d.take(k + 1).last() == d[k]);
        assert(is_digit_char(d[k]));
    } else {
        assert(d.take(k) == d);
    }
}

/// Parses a `u64` from characters as the standard library does.
pub fn parse_u64_chars(s: &Vec<char>) -> (r: Option<u64>)
    ensures
        r == parse_u64_spec(s@),
{
    let len = s.len();
    let start: usize = if len > 0 && s[0] == '+' { 1 } else { 0 };
    let ghost d = unsigned_char_digits(s@);
    assert(d == s@.subrange(start as int, len as int));
    if start == len {
        return None;
    }
    let mut acc: u64 = 0;
    let mut i: usize = start;
    while i < len
        invariant
            d == unsigned_char_digits(s@),
            len == s@.len(),
            start <= i <= len,
            d == s@.subrange(start as int, len as int),
            forall|k: int| 0 <= k < i - start ==> is_digit_char(#[trigger] d[k]),
            acc == char_digits_value(d.take(i - start)),
        decreases len - i,
    {
        let c = s[i];
        assert(d[i - start] == c);
        let v = c as u32;
        if v < 48 || v > 57 {
            return None;
        }
        let digit = (v - 48) as u64;
        assert(d.take(i - start + 1).drop_last() == d.take(i - start));
        assert(d.take(i - start + 1).last() == c);
        assert(char_digits_value(d.take(i - start + 1)) == acc * 10 + digit);
        if acc > u64::MAX / 10 {
            proof {
                assert(acc * 10 + digit > u64::MAX) by (nonlinear_arith)
                    requires
                        acc > u64::MAX / 10,
                        digit >= 0,
                ;
                if forall|k: int| 0 <= k < d.len() ==> is_digit_char(#[trigger] d[k]) {
                    lemma_char_digits_prefix(d, i - start + 1);
                }
            }
            return None;
        }
        assert(acc * 10 <= u64::MAX) by (nonlinear_arith)
            requires
                acc <= u64::MAX / 10,
        ;
        let t = acc * 10;
        if digit > u64::MAX - t {
            proof {
                if forall|k: int| 0 <= k < d.len() ==> is_digit_char(#[trigger] d[k]) {
                    lemma_char_digits_prefix(d, i - start + 1);
                }
            }
            return None;
        }
        acc = t + digit;
        i = i + 1;
    }
    assert(d.take(len - start) == d);
    Some(acc)
}

/// `needle` occurs in `hay` at some position (the empty needle occurs
/// everywhere).
pub open spec fn contains_seq(hay: Seq<char>, needle: Seq<char>) -> bool {
    exists|i: int| 0 <= i && i + needle.len() <= hay.len() && #[trigger] hay.subrange(i, i + needle.len()) == needle
}

/// `hay` begins with `prefix`.
pub open spec fn starts_with_seq(hay: Seq<char>, prefix: Seq<char>) -> bool {
    prefix.len() <= hay.len() && hay.subrange(0, prefix.len() as int) == prefix
}

/// The characters of a string slice, in order.
pub fn chars_of(s: &str) -> (r: Vec<char>)
    ensures
        r@ == s@,
{
    let mut v: Vec<char> = Vec::new();
    proof {
        vstd::string::axiom_spec_iter(s);
    }
    for c in it: s.chars()
        invariant
            it.seq() == s@,
            v@ == s@.take(it.index()),
    {
        v.push(c);
        assert(s@.take(it.index() + 1) == s@.take(it.index()).push(c));
    }
    assert(s@.take(s@.len() as int) == s@);
    v
}

/// Whether `needle` matches `hay` at position `at`.
fn matches_at(hay: &Vec<char>, needle: &Vec<char>, at: usize) -> (r: bool)
    requires
        at + needle@.len() <= hay@.len(),
    ensures
        r == (hay@.subrange(at as int, at + needle@.len()) == needle@),
{
    let hl = hay.len();
    let mut j: usize = 0;
    while j < needle.len()
        invariant
            j <= needle@.len(),
            hl == hay@.len(),
            at + needle@.len() <= hay@.len(),
            forall|k: int| 0 <= k < j ==> hay@[at + k] == needle@[k],
        decreases needle.len() - j,
    {
        if hay[at + j] != needle[j] {
            assert(hay@.subrange(at as int, at + needle@.len())[j as int] != needle@[j as int]);
            return false;
        }
        j = j + 1;
    }
    assert(hay@.subrange(at as int, at + needle@.len()) =~= needle@);
    true
}

/// Whether `needle` occurs in `hay`.
pub fn contains_chars(hay: &Vec<char>, needle: &Vec<char>) -> (r: bool)
    ensures
        r == contains_seq(hay@, needle@),
{
    if needle.len() > hay.len() {
        return false;
    }
    let last = hay.len() - needle.len();
    let mut i: usize = 0;
    loop
        invariant
            last + needle@.len() == hay@.len(),
            i <= last,
            forall|k: int| 0 <= k < i ==> #[trigger] hay@.subrange(k, k + needle@.len()) != needle@,
        ensures
            i == last,
            forall|k: int| 0 <= k <= i ==> #[trigger] hay@.subrange(k, k + needle@.len()) != needle@,
        decreases last - i,
    {
        if matches_at(hay, needle, i) {
            return true;
        }
        if i == last {
            break;
        }
        i = i + 1;
    }
    assert forall|k: int| 0 <= k && k + needle@.len() <= hay@.len() implies #[trigger] hay@.subrange(
        k,
        k + needle@.len(),
    ) != needle@ by {
        assert(k <= i);
    }
    false
}

/// Whether `hay` begins with `prefix`.
pub fn starts_with_chars(hay: &Vec<char>, prefix: &Vec<char>) -> (r: bool)
    ensures
        r == starts_with_seq(hay@, prefix@),
{
    if prefix.len() > hay.len() {
        return false;
    }
    matches_at(hay, prefix, 0)
}

/// A character of the Unicode `White_Space` property, the whitespace that
/// `str::trim` removes.
pub open spec fn is_whitespace(c: char) -> bool {
    let v = c as u32;
    (9 <= v <= 13) || v == 32 || v == 0x85 || v == 0xA0 || v == 0x1680 || (0x2000 <= v
        <= 0x200A) || v == 0x2028 || v == 0x2029 || v == 0x202F || v == 0x205F || v == 0x3000
}

/// Whether `c` is whitespace.
pub fn is_whitespace_char(c: char) -> (r: bool)
    ensures
        r == is_whitespace(c),
{
    let v = c as u32;
    (9 <= v && v <= 13) || v == 32 || v == 0x85 || v == 0xA0 || v == 0x1680 || (0x2000 <= v && v
        <= 0x200A) || v == 0x2028 || v == 0x2029 || v == 0x202F || v == 0x205F || v == 0x3000
}

/// `s` without its leading whitespace.
pub open spec fn trim_start(s: Seq<char>) -> Seq<char>
    decreases s.len(),
{
    if s.len() > 0 && is_whitespace(s[0]) {
        trim_start(s.drop_first())
    } else {
        s
    }
}

/// `s` without its trailing whitespace.
pub open spec fn trim_end(s: Seq<char>) -> Seq<char>
    decreases s.len(),
{
    if s.len() > 0 && is_whitespace(s.last()) {
        trim_end(s.drop_last())
    } else {
        s
    }
}

/// `s` without leading and trailing whitespace.
pub open spec fn trim(s: Seq<char>) -> Seq<char> {
    trim_end(trim_start(s))
}

/// What is left after trimming the start begins with a non-whitespace
/// character.
proof fn lemma_trim_start_shape(s: Seq<char>)
    ensures
        trim_start(s).len() > 0 ==> !is_whitespace(trim_start(s)[0]),
    decreases s.len(),
{
    if s.len() > 0 && is_whitespace(s[0]) {
        lemma_trim_start_shape(s.drop_first());
    }
}

/// Trimming the end keeps a prefix, which ends in a non-whitespace character.
proof fn lemma_trim_end_shape(s: Seq<char>)
    ensures
        trim_end(s).len() <= s.len(),
        trim_end(s) == s.take(trim_end(s).len() as int),
        trim_end(s).len() > 0 ==> !is_whitespace(trim_end(s).last()),
    decreases s.len(),
{
    if s.len() > 0 && is_whitespace(s.last()) {
        lemma_trim_end_shape(s.drop_last());
        assert(s.drop_last().take(trim_end(s).len() as int) == s.take(trim_end(s).len() as int));
    } else {
        assert(s.take(s.len() as int) == s);
    }
}

/// Trimming twice is trimming once.
pub proof fn lemma_trim_idempotent(s: Seq<char>)
    ensures
        trim(trim(s)) == trim(s),
{
    let t = trim_start(s);
    let u = trim(s);
    lemma_trim_start_shape(s);
    lemma_trim_end_shape(t);
    if u.len() > 0 {
        assert(u[0] == t[0]);
    }
    assert(trim_start(u) == u);
    assert(trim_end(u) == u);
}

/// A copy of the characters of `v` in `lo..hi`.
pub fn sub_chars(v: &Vec<char>, lo: usize, hi: usize) -> (r: Vec<char>)
    requires
        lo <= hi <= v@.len(),
    ensures
        r@ == v@.subrange(lo as int, hi as int),
{
    let mut r: Vec<char> = Vec::new();
    let mut i = lo;
    while i < hi
        invariant
            lo <= i <= hi,
            hi <= v@.len(),
            r@ == v@.subrange(lo as int, i as int),
        decreases hi - i,
    {
        r.push(v[i]);
        assert(v@.subrange(lo as int, i + 1) == v@.subrange(lo as int, i as int).push(v@[i as int]));
        i = i + 1;
    }
    r
}

/// The characters of `v` in `lo..hi`, trimmed.
pub fn trimmed(v: &Vec<char>, lo: usize, hi: usize) -> (r: Vec<char>)
    requires
        lo <= hi <= v@.len(),
    ensures
        r@ == trim(v@.subrange(lo as int, hi as int)),
{
    let mut a = lo;
    while a < hi && is_whitespace_char(v[a])
        invariant
            lo <= a <= hi,
            hi <= v@.len(),
            trim_start(v@.subrange(lo as int, hi as int)) == trim_start(
                v@.subrange(a as int, hi as int),
            ),
        decreases hi - a,
    {
        assert(v@.subrange(a as int, hi as int).drop_first() == v@.subrange(a + 1, hi as int));
        a = a + 1;
    }
    if a < hi {
        assert(v@.subrange(a as int, hi as int)[0] == v@[a as int]);
    }
    assert(trim_start(v@.subrange(lo as int, hi as int)) == v@.subrange(a as int, hi as int));
    let mut b = hi;
    while b > a && is_whitespace_char(v[b - 1])
        invariant
            a <= b <= hi,
            hi <= v@.len(),
            trim_end(v@.subrange(a as int, hi as int)) == trim_end(v@.subrange(a as int, b as int)),
        decreases b - a,
    {
        assert(v@.subrange(a as int, b as int).drop_last() == v@.subrange(a as int, b - 1));
        b = b - 1;
    }
    if b > a {
        assert(v@.subrange(a as int, b as int).last() == v@[b - 1]);
    }
    sub_chars(v, a, b)
}

/// The trimmed characters of `v`.
pub fn trimmed_all(v: &Vec<char>) -> (r: Vec<char>)
    ensures
        r@ == trim(v@),
{
    assert(v@.subrange(0, v@.len() as int) == v@);
    trimmed(v, 0, v.len())
}

/// The pieces of `s` between occurrences of `sep`, as `str::split` gives
/// them: one more piece than there are separators.
pub open spec fn split_on(s: Seq<char>, sep: char) -> Seq<Seq<char>>
    decreases s.len(),
{
    if s.len() == 0 {
        seq![Seq::empty()]
    } else {
        let init = split_on(s.drop_last(), sep);
        if s.last() == sep {
            init.push(Seq::empty())
        } else {
            init.update(init.len() - 1, init.last().push(s.last()))
        }
    }
}

/// Splitting a prefix one character longer: a separator starts a new
/// piece, any other character extends the last one.
pub proof fn lemma_split_step(s: Seq<char>, sep: char, done: Seq<Seq<char>>, start: int, i: int)
    requires
        0 <= start <= i < s.len(),
        split_on(s.take(i), sep) == done.push(s.subrange(start, i)),
    ensures
        s[i] == sep ==> split_on(s.take(i + 1), sep) == done.push(s.subrange(start, i)).push(
            s.subrange(i + 1, i + 1),
        ),
        s[i] != sep ==> split_on(s.take(i + 1), sep) == done.push(s.subrange(start, i + 1)),
{
    assert(s.take(i + 1).drop_last() == s.take(i));
    assert(s.take(i + 1).last() == s[i]);
    assert(s.subrange(i + 1, i + 1) == Seq::<char>::empty());
    assert(s.subrange(start, i + 1) == s.subrange(start, i).push(s[i]));
}

/// A string holding the characters of `v`.
pub fn string_of(v: &Vec<char>) -> (r: String)
    ensures
        r@ == v@,
{
    let mut s = String::new();
    let mut i: usize = 0;
    while i < v.len()
        invariant
            i <= v@.len(),
            s@ == v@.take(i as int),
        decreases v.len() - i,
    {
        push_char(&mut s, v[i]);
        assert(v@.take(i + 1) == v@.take(i as int).push(v@[i as int]));
        i = i + 1;
    }
    assert(v@.take(v@.len() as int) == v@);
    s
}

/// Whether the characters of `v` are those of `s`.
pub fn eq_str(v: &Vec<char>, s: &str) -> (r: bool)
    ensures
        r == (v@ == s@),
{
    let w = chars_of(s);
    if v.len() != w.len() {
        return false;
    }
    let mut i: usize = 0;
    while i < v.len()
        invariant
            i <= v@.len(),
            v@.len() == w@.len(),
            w@ == s@,
            forall|k: int| 0 <= k < i ==> v@[k] == w@[k],
        decreases v.len() - i,
    {
        if v[i] != w[i] {
            return false;
        }
        i = i + 1;
    }
    assert(v@ == w@);
    true
}

/// The Unicode lowercase mapping of the characters of `v`.
pub fn lowercase_chars(v: &Vec<char>) -> (r: Vec<char>)
    ensures
        r@ == unicode_lowercase(v@),
        all_ascii(v@) ==> r@ == v@.map_values(|c: char| ascii_lower(c)),
{
    let s = string_of(v);
    let l = to_lowercase(s.as_str());
    chars_of(l.as_str())
}

/// What `str::to_lowercase` returns for a string: its Unicode lowercase
/// mapping.
pub uninterp spec fn unicode_lowercase(s: Seq<char>) -> Seq<char>;

/// The ASCII lowercase of a character: `A` to `Z` become `a` to `z`, any
/// other character stays.
pub open spec fn ascii_lower(c: char) -> char {
    if 'A' <= c && c <= 'Z' {
        (((c as u32) + 32) as u8) as char
    } else {
        c
    }
}

/// Whether every character of a text is ASCII.
pub open spec fn all_ascii(s: Seq<char>) -> bool {
    forall|i: int| 0 <= i < s.len() ==> (s[i] as u32) < 128
}

/// Calls `str::to_lowercase`: the Unicode lowercase mapping, which on
/// ASCII text maps each letter to its ASCII lowercase, as `to_lowercase`
/// and `to_ascii_lowercase` document.
#[verifier::external_body]
pub(crate) fn to_lowercase(s: &str) -> (r: String)
    ensures
        r@ == unicode_lowercase(s@),
        all_ascii(s@) ==> r@ == s@.map_values(|c: char| ascii_lower(c)),
{
    s.to_lowercase()
}

/// Calls `core::str::from_utf8`: the text the bytes encode, when they are
/// valid UTF-8.
#[verifier::external_body]
pub(crate) fn utf8_text(bytes: &[u8]) -> (r: Option<&str>)
    ensures
        r is Some <==> valid_utf8(bytes@),
        r matches Some(t) ==> t@ == decode_utf8(bytes@),
{
    core::str::from_utf8(bytes).ok()
}

/// Calls `String::push`: appends one character.
#[verifier::external_body]
pub(crate) fn push_char(s: &mut String, c: char)
    ensures
        final(s)@ == old(s)@.push(c),
{
    s.push(c);
}

/// Calls `String::pop`: removes and returns the last character, if any.
#[verifier::external_body]
pub(crate) fn pop_char(s: &mut String) -> (r: Option<char>)
    ensures
        old(s)@.len() == 0 ==> r is None && final(s)@ == old(s)@,
        old(s)@.len() > 0 ==> r == Some(old(s)@.last()) && final(s)@ == old(s)@.drop_last(),
{
    s.pop()
}

} // verus!

//! Reading numbers from text and writing bytes as text.
use vstd::prelude::*;
use vstd::string::StrSliceExecFns;

verus! {

/// Calls `String::push`, which appends one character.
#[verifier::external_body]
pub(crate) fn push_char(s: &mut String, c: char)
    ensures
        final(s)@ == old(s)@.push(c),
{
    s.push(c)
}

/// The characters of `s`, in order.
pub(crate) fn chars_of(s: &str) -> (v: Vec<char>)
    ensures
        v@ == s@,
{
    let n = s.unicode_len();
    let mut v: Vec<char> = Vec::new();
    let mut i: usize = 0;
    while i < n
        invariant
            n == s@.len(),
            i <= n,
            v@ == s@.take(i as int),
        decreases n - i,
    {
        v.push(s.get_char(i));
        i = i + 1;
        assert(v@ =~= s@.take(i as int));
    }
    assert(v@ =~= s@);
    v
}

/// Whether `c` is one of the decimal digits `0` to `9`.
pub open spec fn is_digit(c: char) -> bool {
    '0' <= c && c <= '9'
}

/// The value of the decimal digit `c`.
pub open spec fn digit_value(c: char) -> nat {
    (c as int - '0' as int) as nat
}

/// Whether every character of `s` is a decimal digit.
pub open spec fn all_digits(s: Seq<char>) -> bool {
    forall|i: int| 0 <= i < s.len() ==> is_digit(#[trigger] s[i])
}

/// The number that the decimal digits `s` write, most significant first.
pub open spec fn decimal_value(s: Seq<char>) -> nat
    decreases s.len(),
{
    if s.len() == 0 {
        0
    } else {
        decimal_value(s.drop_last()) * 10 + digit_value(s.last())
    }
}

/// The digits of an unsigned number in text: the text after one optional
/// leading `+`.
pub open spec fn unsigned_digits(s: Seq<char>) -> Seq<char> {
    if s.len() > 0 && s[0] == '+' {
        s.skip(1)
    } else {
        s
    }
}

/// What `str::parse::<usize>` gives for `s`: the number, when `s` is an
/// optional `+` followed by at least one decimal digit and nothing else, and
/// the number fits in a `usize`; otherwise no number.
pub open spec fn parsed_usize(s: Seq<char>) -> Option<usize> {
    let d = unsigned_digits(s);
    if d.len() > 0 && all_digits(d) && decimal_value(d) <= usize::MAX {
        Some(decimal_value(d) as usize)
    } else {
        None
    }
}

/// Dropping trailing digits never makes a number larger.
proof fn lemma_prefix_value_le(s: Seq<char>, k: int)
    requires
        all_digits(s),
        0 <= k <= s.len(),
    ensures
        decimal_value(s.take(k)) <= decimal_value(s),
    decreases s.len(),
{
    if k < s.len() {
        let t = s.drop_last();
        assert(all_digits(t)) by {
            assert forall|i: int| 0 <= i < t.len() implies is_digit(#[trigger] t[i]) by {
                assert(t[i] == s[i]);
            }
        }
        lemma_prefix_value_le(t, k);
        assert(t.take(k) =~= s.take(k));
    } else {
        assert(s.take(k) =~= s);
    }
}

/// Reads an unsigned number as `str::parse::<usize>` does; `None` where that
/// returns an error.
pub fn parse_usize(s: &str) -> (r: Option<usize>)
    ensures
        r == parsed_usize(s@),
{
    let v = chars_of(s);
    let n = v.len();
    let start: usize = if n > 0 && v[0] == '+' {
        1
    } else {
        0
    };
    let ghost d = unsigned_digits(s@);
    assert(d =~= s@.subrange(start as int, n as int));
    if start == n {
        return None;
    }
    let mut acc: usize = 0;
    let mut i: usize = start;
    while i < n
        invariant
            v@ == s@,
            n == v@.len(),
            start < n,
            start <= i <= n,
            d == s@.subrange(start as int, n as int),
            d == unsigned_digits(s@),
            all_digits(d.take(i - start)),
            acc == decimal_value(d.take(i - start)),
        decreases n - i,
    {
        let c = v[i];
        let ghost k: int = i - start;
        assert(d[k] == c);
        if !('0' <= c && c <= '9') {
            assert(!is_digit(d[k]));
            assert(!all_digits(d));
            return None;
        }
        let digit = (c as u32 - '0' as u32) as usize;
        assert(d.take(k + 1).drop_last() =~= d.take(k));
        assert(decimal_value(d.take(k + 1)) == acc * 10 + digit);
        assert(all_digits(d.take(k + 1))) by {
            assert forall|j: int| 0 <= j < k + 1 implies is_digit(#[trigger] d.take(k + 1)[j]) by {
                if j < k {
                    assert(d.take(k + 1)[j] == d.take(k)[j]);
                }
            }
        }
        if acc > (usize::MAX - digit) / 10 {
            proof {
                assert(acc * 10 + digit > usize::MAX) by (nonlinear_arith)
                    requires
                        acc > (usize::MAX - digit) / 10,
                        digit <= 9,
                ;
                if all_digits(d) {
                    lemma_prefix_value_le(d, k + 1);
                    assert(decimal_value(d) > usize::MAX);
                }
                assert(parsed_usize(s@) is None);
            }
            return None;
        }
        assert(acc * 10 + digit <= usize::MAX) by (nonlinear_arith)
            requires
                acc <= (usize::MAX - digit) / 10,
                digit <= 9,
        ;
        acc = acc * 10 + digit;
        i = i + 1;
    }
    assert(d.take(n - start) =~= d);
    Some(acc)
}

/// The character of the decimal digit `d`.
pub open spec fn digit_char(d: nat) -> char {
    (d + 48) as char
}

/// The decimal digits of `n`, most significant first, with no leading zero.
pub open spec fn decimal_text(n: nat) -> Seq<char>
    decreases n,
{
    if n < 10 {
        seq![digit_char(n)]
    } else {
        decimal_text(n / 10).push(digit_char(n % 10))
    }
}

/// The numbers of `s` in decimal, separated by `", "`.
pub open spec fn list_items(s: Seq<u8>) -> Seq<char>
    decreases s.len(),
{
    if s.len() == 0 {
        Seq::empty()
    } else if s.len() == 1 {
        decimal_text(s[0] as nat)
    } else {
        list_items(s.drop_last()) + seq![',', ' '] + decimal_text(s.last() as nat)
    }
}

/// How `{:?}` writes a list of bytes: `[1, 2, 3]`.
pub open spec fn debug_list(s: Seq<u8>) -> Seq<char> {
    seq!['['] + list_items(s) + seq![']']
}

/// The character of the decimal digit `d`.
fn digit_to_char(d: u8) -> (c: char)
    requires
        d < 10,
    ensures
        c == digit_char(d as nat),
{
    (d + 48) as char
}

/// Appends the decimal digits of `b` to `out`.
fn push_decimal(out: &mut String, b: u8)
    ensures
        final(out)@ == old(out)@ + decimal_text(b as nat),
{
    proof {
        reveal_with_fuel(decimal_text, 3);
    }
    if b >= 100 {
        push_char(out, digit_to_char(b / 100));
        push_char(out, digit_to_char((b / 10) % 10));
        push_char(out, digit_to_char(b % 10));
        assert(decimal_text((b / 10) as nat) == decimal_text((b / 100) as nat).push(
            digit_char(((b / 10) % 10) as nat),
        )) by {
            assert((b / 10) / 10 == b / 100);
        }
    } else if b >= 10 {
        push_char(out, digit_to_char(b / 10));
        push_char(out, digit_to_char(b % 10));
    } else {
        push_char(out, digit_to_char(b));
    }
    assert(final(out)@ =~= old(out)@ + decimal_text(b as nat));
}

/// Writes `s` as `{:?}` writes a list of bytes: `[1, 2, 3]`.
pub fn debug_bytes(s: &[u8]) -> (text: String)
    ensures
        text@ == debug_list(s@),
{
    let mut out = String::new();
    push_char(&mut out, '[');
    let n = s.len();
    let mut i: usize = 0;
    while i < n
        invariant
            n == s@.len(),
            i <= n,
            out@ == seq!['['] + list_items(s@.take(i as int)),
        decreases n - i,
    {
        if i > 0 {
            push_char(&mut out, ',');
            push_char(&mut out, ' ');
        }
        push_decimal(&mut out, s[i]);
        assert(s@.take(i + 1).drop_last() =~= s@.take(i as int));
        if i == 0 {
            assert(s@.take(0) =~= Seq::<u8>::empty());
        }
        i = i + 1;
        assert(out@ =~= seq!['['] + list_items(s@.take(i as int)));
    }
    push_char(&mut out, ']');
    assert(s@.take(n as int) =~= s@);
    out
}

/// The text of a list has one entry per byte, in order: a single byte is its
/// decimal digits, and appending any byte to a non-empty list appends `", "`
/// and that byte's digits, whatever the byte is.
pub proof fn law_list_has_one_entry_per_byte(s: Seq<u8>, x: u8)
    ensures
        list_items(seq![x]) == decimal_text(x as nat),
        s.len() > 0 ==> list_items(s.push(x)) == list_items(s) + seq![',', ' '] + decimal_text(
            x as nat,
        ),
        debug_list(s.push(x)) == seq!['['] + list_items(s.push(x)) + seq![']'],
        list_items(s.push(x)).len() >= list_items(s).len() + decimal_text(x as nat).len(),
{
    assert(s.push(x).drop_last() =~= s);
    assert(s.push(x).last() == x);
    if s.len() == 0 {
        assert(s.push(x) =~= seq![x]);
    }
}

/// What the library writes as a number it reads back: the decimal text of `n`
/// is a non-empty run of digits that denotes `n`, and reading it as a `usize`
/// gives `n` whenever `n` fits.
pub proof fn law_decimal_text_reads_back(n: nat)
    ensures
        decimal_text(n).len() > 0,
        all_digits(decimal_text(n)),
        decimal_value(decimal_text(n)) == n,
        n <= usize::MAX ==> parsed_usize(decimal_text(n)) == Some(n as usize),
    decreases n,
{
    assert(digit_value(digit_char(n % 10)) == n % 10);
    if n < 10 {
        let t = decimal_text(n);
        assert(t.drop_last() =~= Seq::<char>::empty());
        assert(decimal_value(t.drop_last()) == 0);
        assert(decimal_value(t) == decimal_value(t.drop_last()) * 10 + digit_value(t.last()));
    } else {
        law_decimal_text_reads_back(n / 10);
        let t = decimal_text(n);
        let u = decimal_text(n / 10);
        assert(t.drop_last() =~= u);
        assert(all_digits(t)) by {
            assert forall|i: int| 0 <= i < t.len() implies is_digit(#[trigger] t[i]) by {
                if i < u.len() {
                    assert(t[i] == u[i]);
                }
            }
        }
        assert(t.last() == digit_char(n % 10));
        assert(decimal_value(t) == decimal_value(u) * 10 + digit_value(t.last()));
        assert(n == (n / 10) * 10 + n % 10);
    }
    let t = decimal_text(n);
    assert(t[0] != '+') by {
        assert(is_digit(t[0]));
    }
    assert(unsigned_digits(t) == t);
}

} // verus!

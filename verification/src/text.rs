//! Decimal text: rendering an unsigned machine integer as its decimal
//! string and reading one back. The reader follows the standard library's
//! grammar for unsigned integers (an optional leading `+`, then decimal
//! digits) and reports the same three failure messages, so identifiers
//! that carry a numeric prefix behave exactly as callers expect.
use vstd::prelude::*;

verus! {

/// A decimal digit character.
pub open spec fn is_dec_digit(c: char) -> bool {
    '0' <= c && c <= '9'
}

/// Numeric value of a decimal digit character.
pub open spec fn digit_val(c: char) -> nat
    recommends
        is_dec_digit(c),
{
    (c as int - '0' as int) as nat
}

/// The character of a single decimal digit.
pub open spec fn dec_digit(d: nat) -> char
    recommends
        d < 10,
{
    if d == 0 {
        '0'
    } else if d == 1 {
        '1'
    } else if d == 2 {
        '2'
    } else if d == 3 {
        '3'
    } else if d == 4 {
        '4'
    } else if d == 5 {
        '5'
    } else if d == 6 {
        '6'
    } else if d == 7 {
        '7'
    } else if d == 8 {
        '8'
    } else {
        '9'
    }
}

/// The decimal rendering of `n`, most significant digit first.
pub open spec fn dec_str(n: nat) -> Seq<char>
    decreases n,
{
    if n < 10 {
        seq![dec_digit(n)]
    } else {
        dec_str(n / 10).push(dec_digit(n % 10))
    }
}

/// The numeric value of a sequence of decimal digit characters.
pub open spec fn dec_val(s: Seq<char>) -> nat
    decreases s.len(),
{
    if s.len() == 0 {
        0
    } else {
        dec_val(s.drop_last()) * 10 + digit_val(s.last())
    }
}

/// Every character of `s` is a decimal digit.
pub open spec fn all_dec_digits(s: Seq<char>) -> bool {
    forall|i: int| 0 <= i < s.len() ==> is_dec_digit(s[i])
}

/// The digit portion of a numeral: the text after an optional leading `+`.
pub open spec fn digits_of(s: Seq<char>) -> Seq<char> {
    if s.len() > 0 && s[0] == '+' {
        s.drop_first()
    } else {
        s
    }
}

/// Some all-digit prefix of `s` already exceeds `usize::MAX`, which is
/// when a left-to-right reader gives up with an overflow error.
pub open spec fn overflows_usize(s: Seq<char>) -> bool {
    exists|k: int|
        0 < k <= s.len() && all_dec_digits(#[trigger] s.take(k)) && dec_val(s.take(k))
            > usize::MAX as nat
}

/// The rendering of a value is made of decimal digits and is never empty.
pub proof fn lemma_dec_str_digits(n: nat)
    ensures
        dec_str(n).len() >= 1,
        all_dec_digits(dec_str(n)),
    decreases n,
{
    if n >= 10 {
        lemma_dec_str_digits(n / 10);
        assert forall|i: int| 0 <= i < dec_str(n).len() implies is_dec_digit(dec_str(n)[i]) by {
            if i < dec_str(n / 10).len() {
                assert(dec_str(n)[i] == dec_str(n / 10)[i]);
            }
        }
    }
}

/// The digit character of a small value reads back as that value.
pub proof fn lemma_digit_roundtrip(d: nat)
    requires
        d < 10,
    ensures
        digit_val(dec_digit(d)) == d,
{
}

/// Reading back a rendered value gives the value: the decimal grammar is
/// a bijection on canonical numerals.
pub proof fn lemma_dec_str_val(n: nat)
    ensures
        dec_val(dec_str(n)) == n,
    decreases n,
{
    if n < 10 {
        lemma_digit_roundtrip(n);
        assert(dec_str(n).drop_last() =~= Seq::<char>::empty());
        assert(dec_str(n).last() == dec_digit(n));
        assert(dec_val(Seq::<char>::empty()) == 0);
    } else {
        lemma_dec_str_val(n / 10);
        lemma_digit_roundtrip(n % 10);
        assert(dec_str(n).drop_last() =~= dec_str(n / 10));
        assert(dec_str(n).last() == dec_digit(n % 10));
        vstd::arithmetic::div_mod::lemma_fundamental_div_mod(n as int, 10);
    }
}

/// Extending an all-digit text on the right never shrinks its value.
pub proof fn lemma_dec_val_prefix_le(s: Seq<char>, k: int)
    requires
        0 <= k <= s.len(),
    ensures
        dec_val(s.take(k)) <= dec_val(s),
    decreases s.len() - k,
{
    if k < s.len() {
        lemma_dec_val_prefix_le(s, k + 1);
        assert(s.take(k + 1).drop_last() =~= s.take(k));
        assert(dec_val(s.take(k)) * 10 >= dec_val(s.take(k)) * 1) by (nonlinear_arith);
    } else {
        assert(s.take(k) =~= s);
    }
}

/// Text whose digit run stops before an overflow can appear is not read
/// as an overflow: every all-digit prefix stays within `usize`.
proof fn lemma_no_overflow_up_to(d: Seq<char>, i: int)
    requires
        0 <= i < d.len(),
        all_dec_digits(d.take(i)),
        dec_val(d.take(i)) <= usize::MAX as nat,
        !is_dec_digit(d[i]),
    ensures
        !overflows_usize(d),
{
    assert forall|k: int|
        0 < k <= d.len() && all_dec_digits(#[trigger] d.take(k)) implies dec_val(d.take(k))
        <= usize::MAX as nat by {
        assert(k <= i) by {
            if k > i {
                assert(is_dec_digit(d.take(k)[i]));
            }
        }
        assert(d.take(k) =~= d.take(i).take(k));
        lemma_dec_val_prefix_le(d.take(i), k);
    }
}

/// An all-digit prefix that exceeds `usize` makes the whole text an
/// overflow, so the text cannot also read as a fitting number.
proof fn lemma_overflow_from_prefix(d: Seq<char>, k: int)
    requires
        0 < k <= d.len(),
        all_dec_digits(d.take(k)),
        dec_val(d.take(k)) > usize::MAX as nat,
    ensures
        overflows_usize(d),
        !(all_dec_digits(d) && dec_val(d) <= usize::MAX as nat),
{
    if all_dec_digits(d) && dec_val(d) <= usize::MAX as nat {
        lemma_dec_val_prefix_le(d, k);
    }
}

/// Why reading a numeral failed, with the standard library's wording.
#[derive(Clone, Copy, Debug, PartialEq, Eq, Structural)]
pub enum ParseNumError {
    Empty,
    InvalidDigit,
    PosOverflow,
}

/// The wording of each numeral failure.
pub open spec fn parse_err_text(e: ParseNumError) -> Seq<char> {
    match e {
        ParseNumError::Empty => "cannot parse integer from empty string"@,
        ParseNumError::InvalidDigit => "invalid digit found in string"@,
        ParseNumError::PosOverflow => "number too large to fit in target type"@,
    }
}

impl ParseNumError {
    /// The human-readable description of this failure.
    pub fn message(&self) -> (r: String)
        ensures
            r@ == parse_err_text(*self),
    {
        match self {
            ParseNumError::Empty => "cannot parse integer from empty string".to_owned(),
            ParseNumError::InvalidDigit => "invalid digit found in string".to_owned(),
            ParseNumError::PosOverflow => "number too large to fit in target type".to_owned(),
        }
    }
}

/// The error a left-to-right reader reports for a rejected numeral.
pub open spec fn spec_parse_err(s: Seq<char>) -> ParseNumError {
    if s.len() == 0 {
        ParseNumError::Empty
    } else if overflows_usize(digits_of(s)) {
        ParseNumError::PosOverflow
    } else {
        ParseNumError::InvalidDigit
    }
}

/// Reads a `usize` from decimal text: an optional leading `+`, then at
/// least one digit, nothing else, and a value that fits the type.
pub fn parse_usize(s: &str) -> (r: Result<usize, ParseNumError>)
    ensures
        r is Ok <==> digits_of(s@).len() > 0 && all_dec_digits(digits_of(s@)) && dec_val(
            digits_of(s@),
        ) <= usize::MAX as nat,
        r is Ok ==> r->Ok_0 as nat == dec_val(digits_of(s@)),
        r is Err ==> r->Err_0 == spec_parse_err(s@),
{
    let n = s.unicode_len();
    if n == 0 {
        return Err(ParseNumError::Empty);
    }
    let start: usize = if s.get_char(0) == '+' {
        1
    } else {
        0
    };
    let ghost d = digits_of(s@);
    proof {
        assert(d =~= s@.subrange(start as int, n as int));
    }
    if start == n {
        assert(!overflows_usize(d)) by {
            assert(forall|k: int| 0 < k <= d.len() ==> !all_dec_digits(#[trigger] d.take(k)));
        }
        return Err(ParseNumError::InvalidDigit);
    }
    let mut acc: usize = 0;
    let mut i: usize = start;
    while i < n
        invariant
            start <= i <= n,
            n == s@.len(),
            start == 0 || start == 1,
            d == digits_of(s@),
            d == s@.subrange(start as int, n as int),
            all_dec_digits(d.take(i - start)),
            acc as nat == dec_val(d.take(i - start)),
        decreases n - i,
    {
        let c = s.get_char(i);
        if c < '0' || c > '9' {
            proof {
                assert(d[i - start] == c);
                assert(!all_dec_digits(d));
                lemma_no_overflow_up_to(d, i - start);
            }
            return Err(ParseNumError::InvalidDigit);
        }
        let dig: usize = (c as u32 as usize) - ('0' as u32 as usize);
        proof {
            assert(d.take(i + 1 - start).drop_last() =~= d.take(i - start));
            assert(d.take(i + 1 - start).last() == c);
        }
        let wide = match acc.checked_mul(10) {
            Some(w) => w.checked_add(dig),
            None => None,
        };
        match wide {
            Some(w) => {
                acc = w;
            },
            None => {
                proof {
                    let k = i + 1 - start;
                    assert(all_dec_digits(d.take(k))) by {
                        assert(forall|j: int|
                            0 <= j < k - 1 ==> d.take(k)[j] == #[trigger] d.take(i - start)[j]);
                        assert(d.take(k)[k - 1] == c);
                    }
                    assert(dec_val(d.take(k)) > usize::MAX as nat);
                    lemma_overflow_from_prefix(d, k);
                }
                return Err(ParseNumError::PosOverflow);
            },
        }
        i = i + 1;
    }
    proof {
        assert(d.take(n - start) =~= d);
    }
    Ok(acc)
}

/// Whether two pieces of text read the same, character for character.
pub fn str_eq(a: &str, b: &str) -> (r: bool)
    ensures
        r == (a@ == b@),
{
    let na = a.unicode_len();
    let nb = b.unicode_len();
    if na != nb {
        return false;
    }
    let mut i: usize = 0;
    while i < na
        invariant
            i <= na,
            na == a@.len(),
            nb == b@.len(),
            na == nb,
            forall|j: int| 0 <= j < i ==> a@[j] == b@[j],
        decreases na - i,
    {
        if a.get_char(i) != b.get_char(i) {
            return false;
        }
        i = i + 1;
    }
    proof {
        assert(a@ =~= b@);
    }
    true
}

/// Appends the character of one decimal digit to a string.
fn push_digit(s: &mut String, d: usize)
    requires
        d < 10,
    ensures
        final(s)@ == old(s)@.push(dec_digit(d as nat)),
{
    let t: &str = if d == 0 {
        "0"
    } else if d == 1 {
        "1"
    } else if d == 2 {
        "2"
    } else if d == 3 {
        "3"
    } else if d == 4 {
        "4"
    } else if d == 5 {
        "5"
    } else if d == 6 {
        "6"
    } else if d == 7 {
        "7"
    } else if d == 8 {
        "8"
    } else {
        "9"
    };
    proof {
        reveal_strlit("0");
        reveal_strlit("1");
        reveal_strlit("2");
        reveal_strlit("3");
        reveal_strlit("4");
        reveal_strlit("5");
        reveal_strlit("6");
        reveal_strlit("7");
        reveal_strlit("8");
        reveal_strlit("9");
        assert(t@ =~= seq![dec_digit(d as nat)]);
    }
    s.append(t);
    proof {
        assert(old(s)@ + t@ =~= old(s)@.push(dec_digit(d as nat)));
    }
}

/// Renders `n` in decimal.
pub fn usize_to_string(n: usize) -> (r: String)
    ensures
        r@ == dec_str(n as nat),
    decreases n,
{
    if n < 10 {
        let mut s = String::new();
        push_digit(&mut s, n);
        proof {
            assert(s@ =~= dec_str(n as nat));
        }
        s
    } else {
        let mut s = usize_to_string(n / 10);
        push_digit(&mut s, n % 10);
        s
    }
}

/// Formats the sum of two numbers as a decimal string.
pub fn sum_as_string(a: usize, b: usize) -> (r: String)
    requires
        a + b <= usize::MAX,
    ensures
        r@ == dec_str((a + b) as nat),
{
    usize_to_string(a + b)
}

} // verus!

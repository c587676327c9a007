//! The best-score record: rendering a score as the decimal text stored in
//! the record file, reading such text back, and deciding whether a score
//! beats the stored record.
//!
//! The file itself is read and written by the surrounding application; this
//! module owns the meaning of its contents.

use vstd::prelude::*;

verus! {

/// The character for a single decimal digit value.
pub open spec fn digit_char(d: int) -> char {
    if d == 0 {
        '0'
    } else if d == 1 {
        '1'
    } else if d == 2 {
        '2'
    } else if d == 3 {
        '3'
    } else if d == 4 {
        '4'
    } else if d == 5 {
        '5'
    } else if d == 6 {
        '6'
    } else if d == 7 {
        '7'
    } else if d == 8 {
        '8'
    } else {
        '9'
    }
}

/// The numeric value of a decimal digit character; 10 marks a non-digit.
pub open spec fn digit_of(c: char) -> int {
    if c == '0' {
        0
    } else if c == '1' {
        1
    } else if c == '2' {
        2
    } else if c == '3' {
        3
    } else if c == '4' {
        4
    } else if c == '5' {
        5
    } else if c == '6' {
        6
    } else if c == '7' {
        7
    } else if c == '8' {
        8
    } else if c == '9' {
        9
    } else {
        10
    }
}

pub open spec fn is_digit(c: char) -> bool {
    digit_of(c) < 10
}

/// The canonical decimal text of a number: no sign, no leading zeros
/// (except for the number zero itself).
pub open spec fn spec_digits(n: nat) -> Seq<char>
    decreases n,
{
    if n < 10 {
        seq![digit_char(n as int)]
    } else {
        spec_digits(n / 10).push(digit_char((n % 10) as int))
    }
}

/// The value of a sequence of digit characters, most significant first.
pub open spec fn digits_val(s: Seq<char>) -> int
    decreases s.len(),
{
    if s.len() == 0 {
        0
    } else {
        digits_val(s.drop_last()) * 10 + digit_of(s.last())
    }
}

pub open spec fn all_digits(s: Seq<char>) -> bool {
    forall|i: int| 0 <= i < s.len() ==> is_digit(#[trigger] s[i])
}

/// What reading the record file yields for a given text: the decimal value
/// when the text is a plain base-ten number that fits, and 0 for anything
/// unreadable.
pub open spec fn parse_spec(s: Seq<char>) -> u32 {
    if s.len() > 0 && all_digits(s) && digits_val(s) <= u32::MAX {
        digits_val(s) as u32
    } else {
        0
    }
}

/// A score is a new record exactly when it is strictly greater than the
/// best score stored so far (0 when none is stored).
pub fn is_record(score: u32, record: u32) -> (r: bool)
    ensures
        r == (score > record),
{
    score > record
}

/// Appends one decimal digit character to a string.
fn push_digit(s: &mut String, d: u8)
    requires
        d < 10,
    ensures
        final(s)@ == old(s)@ + seq![digit_char(d as int)],
{
    proof {
        reveal_strlit("0");
        reveal_strlit("1");
        reveal_strlit("2");
        reveal_strlit("3");
        reveal_strlit("4");
        reveal_strlit("5");
        reveal_strlit("6");
        reveal_strlit("7");
        reveal_strlit("8");
        reveal_strlit("9");
    }
    match d {
        0 => s.append("0"),
        1 => s.append("1"),
        2 => s.append("2"),
        3 => s.append("3"),
        4 => s.append("4"),
        5 => s.append("5"),
        6 => s.append("6"),
        7 => s.append("7"),
        8 => s.append("8"),
        _ => s.append("9"),
    }
    proof {
        assert(s@ =~= old(s)@ + seq![digit_char(d as int)]);
    }
}

/// The decimal text under which a record score is stored.
pub fn format_record(value: u32) -> (r: String)
    ensures
        r@ == spec_digits(value as nat),
{
    let mut digits: Vec<u8> = Vec::new();
    let mut n: u32 = value;
    proof {
        assert(rev_digit_chars(Seq::<u8>::empty()) =~= Seq::<char>::empty());
        assert(spec_digits(value as nat) =~= spec_digits(n as nat) + rev_digit_chars(digits@));
    }
    while n >= 10
        invariant
            spec_digits(value as nat) == spec_digits(n as nat) + rev_digit_chars(digits@),
            forall|k: int| 0 <= k < digits@.len() ==> #[trigger] digits@[k] < 10,
        decreases n,
    {
        let ghost prev = digits@;
        let ghost m = n as nat;
        let d: u8 = (n % 10) as u8;
        digits.push(d);
        n = n / 10;
        proof {
            assert(digits@.drop_last() =~= prev);
            assert(rev_digit_chars(digits@) == seq![digit_char(d as int)] + rev_digit_chars(prev));
            assert(spec_digits(m) == spec_digits(m / 10).push(digit_char((m % 10) as int)));
            assert(spec_digits(m / 10).push(digit_char(d as int)) =~= spec_digits(m / 10)
                + seq![digit_char(d as int)]);
            assert(spec_digits(value as nat) =~= spec_digits(n as nat) + rev_digit_chars(digits@));
        }
    }
    let d: u8 = n as u8;
    let ghost prev = digits@;
    digits.push(d);
    proof {
        assert(digits@.drop_last() =~= prev);
        assert(rev_digit_chars(digits@) == seq![digit_char(d as int)] + rev_digit_chars(prev));
        assert(spec_digits(n as nat) =~= seq![digit_char(d as int)]);
        assert(spec_digits(value as nat) =~= rev_digit_chars(digits@));
    }
    let mut r = String::new();
    let mut i: usize = digits.len();
    proof {
        assert(digits@.skip(i as int) =~= Seq::<u8>::empty());
        assert(rev_digit_chars(Seq::<u8>::empty()) =~= Seq::<char>::empty());
    }
    while i > 0
        invariant
            i <= digits@.len(),
            spec_digits(value as nat) == rev_digit_chars(digits@),
            forall|k: int| 0 <= k < digits@.len() ==> #[trigger] digits@[k] < 10,
            r@ == rev_digit_chars(digits@.skip(i as int)),
        decreases i,
    {
        i = i - 1;
        push_digit(&mut r, digits[i]);
        proof {
            lemma_rev_digit_chars_first(digits@.skip(i as int));
            assert(digits@.skip(i as int).drop_first() =~= digits@.skip(i as int + 1));
            assert(digits@.skip(i as int).first() == digits@[i as int]);
            assert(r@ =~= rev_digit_chars(digits@.skip(i as int)));
        }
    }
    proof {
        assert(digits@.skip(0) =~= digits@);
    }
    r
}

/// The reversal of a digit sequence, element by element, can also be peeled
/// from the front: the first digit of the sequence comes out last.
proof fn lemma_rev_digit_chars_first(ds: Seq<u8>)
    requires
        ds.len() > 0,
    ensures
        rev_digit_chars(ds) == rev_digit_chars(ds.drop_first()) + seq![
            digit_char(ds.first() as int),
        ],
    decreases ds.len(),
{
    if ds.len() == 1 {
        assert(ds.drop_first() =~= Seq::<u8>::empty());
        assert(ds.drop_last() =~= Seq::<u8>::empty());
        assert(rev_digit_chars(Seq::<u8>::empty()) =~= Seq::<char>::empty());
        assert(rev_digit_chars(ds) =~= rev_digit_chars(ds.drop_first()) + seq![
            digit_char(ds.first() as int),
        ]);
    } else {
        lemma_rev_digit_chars_first(ds.drop_last());
        assert(ds.drop_last().drop_first() =~= ds.drop_first().drop_last());
        assert(ds.drop_last().first() == ds.first());
        assert(ds.drop_first().last() == ds.last());
        assert(rev_digit_chars(ds) =~= rev_digit_chars(ds.drop_first()) + seq![
            digit_char(ds.first() as int),
        ]);
    }
}

/// The digit characters of a sequence of digit values, in reverse order:
/// the last pushed (most significant) digit comes first.
pub open spec fn rev_digit_chars(ds: Seq<u8>) -> Seq<char>
    decreases ds.len(),
{
    if ds.len() == 0 {
        Seq::empty()
    } else {
        seq![digit_char(ds.last() as int)] + rev_digit_chars(ds.drop_last())
    }
}

/// Reads a score back from record-file text: the decimal value when the
/// text is a plain base-ten number that fits in a `u32`, and 0 otherwise.
pub fn parse_record(s: &str) -> (r: u32)
    ensures
        r == parse_spec(s@),
{
    let len = s.unicode_len();
    if len == 0 {
        return 0;
    }
    let mut value: u32 = 0;
    let mut i: usize = 0;
    while i < len
        invariant
            len == s@.len(),
            0 <= i <= len,
            all_digits(s@.take(i as int)),
            value == digits_val(s@.take(i as int)),
        decreases len - i,
    {
        let c = s.get_char(i);
        let d: u32 = match c {
            '0' => 0,
            '1' => 1,
            '2' => 2,
            '3' => 3,
            '4' => 4,
            '5' => 5,
            '6' => 6,
            '7' => 7,
            '8' => 8,
            '9' => 9,
            _ => {
                proof {
                    assert(!is_digit(s@[i as int]));
                    assert(!all_digits(s@));
                }
                return 0;
            },
        };
        if value > (u32::MAX - d) / 10 {
            proof {
                assert(digits_val(s@.take(i as int + 1)) > u32::MAX) by {
                    assert(s@.take(i as int + 1).drop_last() =~= s@.take(i as int));
                    assert(s@.take(i as int + 1).last() == s@[i as int]);
                    assert(digits_val(s@.take(i as int + 1)) == value * 10 + d);
                }
                if all_digits(s@) {
                    lemma_digits_val_grows(s@, i as int + 1);
                }
                assert(parse_spec(s@) == 0);
            }
            return 0;
        }
        proof {
            assert(s@.take(i as int + 1).drop_last() =~= s@.take(i as int));
            assert(forall|k: int|
                0 <= k < i + 1 ==> is_digit(#[trigger] s@.take(i as int + 1)[k]));
        }
        value = value * 10 + d;
        i = i + 1;
    }
    proof {
        assert(s@.take(len as int) =~= s@);
    }
    value
}

/// Once a digit prefix is already too large, any longer all-digit text is
/// at least as large: the value can only grow as digits are appended.
proof fn lemma_digits_val_grows(s: Seq<char>, i: int)
    requires
        0 <= i <= s.len(),
        all_digits(s),
    ensures
        digits_val(s) >= digits_val(s.take(i)),
    decreases s.len() - i,
{
    if i < s.len() {
        assert(s.take(i + 1).drop_last() =~= s.take(i));
        assert(is_digit(s[i]));
        assert(digits_val(s.take(i + 1)) == digits_val(s.take(i)) * 10 + digit_of(s[i]));
        assert(digits_val(s.take(i)) >= 0) by {
            lemma_digits_val_nonneg(s.take(i));
        }
        lemma_digits_val_grows(s, i + 1);
        assert(s.take(s.len() as int) =~= s);
    } else {
        assert(s.take(i) =~= s);
    }
}

/// The value of an all-digit text is never negative.
proof fn lemma_digits_val_nonneg(s: Seq<char>)
    requires
        all_digits(s),
    ensures
        digits_val(s) >= 0,
    decreases s.len(),
{
    if s.len() > 0 {
        assert(all_digits(s.drop_last())) by {
            assert(forall|k: int|
                0 <= k < s.len() - 1 ==> is_digit(#[trigger] s.drop_last()[k]));
        }
        lemma_digits_val_nonneg(s.drop_last());
        assert(is_digit(s.last()));
    }
}

/// Writing a score to the record file and reading it back yields the same
/// score: the decimal text of any `u32` parses to that very value.
pub proof fn lemma_record_round_trip(value: u32)
    ensures
        parse_spec(spec_digits(value as nat)) == value,
{
    lemma_spec_digits_val(value as nat);
    lemma_spec_digits_all_digits(value as nat);
    lemma_spec_digits_nonempty(value as nat);
}

proof fn lemma_spec_digits_val(n: nat)
    ensures
        digits_val(spec_digits(n)) == n,
    decreases n,
{
    if n < 10 {
        assert(spec_digits(n) == seq![digit_char(n as int)]);
        assert(spec_digits(n).drop_last() =~= Seq::<char>::empty());
        assert(digits_val(Seq::<char>::empty()) == 0);
        assert(digits_val(spec_digits(n)) == digit_of(digit_char(n as int)));
        assert(digit_of(digit_char(n as int)) == n);
    } else {
        lemma_spec_digits_val(n / 10);
        assert(spec_digits(n) == spec_digits(n / 10).push(digit_char((n % 10) as int)));
        assert(spec_digits(n).drop_last() =~= spec_digits(n / 10));
        assert(spec_digits(n).last() == digit_char((n % 10) as int));
        assert(digit_of(digit_char((n % 10) as int)) == n % 10);
        assert(digits_val(spec_digits(n)) == (n / 10) * 10 + n % 10);
    }
}

proof fn lemma_spec_digits_all_digits(n: nat)
    ensures
        all_digits(spec_digits(n)),
    decreases n,
{
    if n < 10 {
    } else {
        lemma_spec_digits_all_digits(n / 10);
        assert(forall|i: int|
            0 <= i < spec_digits(n).len() ==> is_digit(#[trigger] spec_digits(n)[i]));
    }
}

proof fn lemma_spec_digits_nonempty(n: nat)
    ensures
        spec_digits(n).len() > 0,
    decreases n,
{
    if n >= 10 {
        lemma_spec_digits_nonempty(n / 10);
    }
}

} // verus!

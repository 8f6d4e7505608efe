//! Size-string parsing: turns text of the form `<digits><unit>` (unit one of
//! B, KB, MB, GB, TB, PB, case-sensitive, nothing else in the string) into an
//! exact byte count, or a structured failure.

use vstd::prelude::*;
use vstd::string::StrSliceExecFns;
use vstd::string::StringExecFns;

verus! {

/// Byte counts above this (100 GiB) draw an advisory instability warning on
/// the diagnostic channel. Advisory only: the parse result is unchanged.
pub const WARNING_THRESHOLD_BYTES: u64 = 100 * 1024 * 1024 * 1024;

/// Why a size string was rejected.
#[derive(Clone, Copy, Debug, PartialEq, Eq, Structural)]
pub enum ParseError {
    /// The text does not match `<digits><unit>`.
    InvalidFormat,
    /// The digit run itself does not fit in the target word width.
    NumberTooLarge,
    /// Magnitude times unit multiplier overflows the target word width.
    SizeOverflow,
    /// The unit symbol is not recognized. Unreachable while the grammar check
    /// precedes unit lookup, but kept so the error taxonomy is total.
    InvalidUnit,
}

pub open spec fn is_digit_char(c: char) -> bool {
    '0' <= c && c <= '9'
}

pub open spec fn digit_val(c: char) -> nat {
    (c as int - '0' as int) as nat
}

pub open spec fn all_digits(s: Seq<char>) -> bool {
    forall|i: int| 0 <= i < s.len() ==> is_digit_char(#[trigger] s[i])
}

/// The value of a run of decimal digits, most significant first.
pub open spec fn digits_value(s: Seq<char>) -> nat
    decreases s.len(),
{
    if s.len() == 0 {
        0
    } else {
        digits_value(s.drop_last()) * 10 + digit_val(s.last())
    }
}

/// The letters that may stand before the final 'B' to form a two-letter unit.
pub open spec fn is_prefix_letter(c: char) -> bool {
    c == 'K' || c == 'M' || c == 'G' || c == 'T' || c == 'P'
}

/// Bytes per unit for a two-letter unit `<c>B`: a power of 1024.
pub open spec fn prefix_multiplier(c: char) -> nat {
    if c == 'K' {
        1024
    } else if c == 'M' {
        1048576
    } else if c == 'G' {
        1073741824
    } else if c == 'T' {
        1099511627776
    } else {
        1125899906842624
    }
}

/// How many trailing characters of `s` form the unit symbol. The digit run
/// cannot contain a prefix letter, so the split is unambiguous: a prefix
/// letter right before the final 'B' belongs to the unit, anything else
/// leaves a one-letter unit "B".
pub open spec fn unit_len(s: Seq<char>) -> int {
    if s.len() >= 2 && is_prefix_letter(s[s.len() - 2]) {
        2
    } else {
        1
    }
}

/// Whether `s` matches `<digits><unit>` exactly: one or more decimal digits
/// immediately followed by one of B, KB, MB, GB, TB, PB, and nothing else.
pub open spec fn matches_grammar(s: Seq<char>) -> bool {
    &&& s.len() >= 2
    &&& s.last() == 'B'
    &&& s.len() - unit_len(s) >= 1
    &&& all_digits(s.take(s.len() - unit_len(s)))
}

/// The numeric magnitude of a size string: the value of its digit run.
pub open spec fn spec_magnitude(s: Seq<char>) -> nat {
    digits_value(s.take(s.len() - unit_len(s)))
}

/// The multiplier of a size string's unit symbol.
pub open spec fn spec_multiplier(s: Seq<char>) -> nat {
    if unit_len(s) == 2 {
        prefix_multiplier(s[s.len() - 2])
    } else {
        1
    }
}

/// The full meaning of parsing: grammar check, then range check on the digit
/// run, then overflow-checked multiplication by the unit multiplier.
pub open spec fn spec_parse(s: Seq<char>) -> Result<usize, ParseError> {
    if !matches_grammar(s) {
        Err(ParseError::InvalidFormat)
    } else if spec_magnitude(s) > usize::MAX {
        Err(ParseError::NumberTooLarge)
    } else if spec_magnitude(s) * spec_multiplier(s) > usize::MAX {
        Err(ParseError::SizeOverflow)
    } else {
        Ok((spec_magnitude(s) * spec_multiplier(s)) as usize)
    }
}

/// Parse a size string into its exact byte count.
///
/// The result is a function of the input text alone: same text, same result.
pub fn parse_memory_string(memory_str: &str) -> (r: Result<usize, ParseError>)
    ensures
        r == spec_parse(memory_str@),
{
    let ghost s = memory_str@;
    let n = memory_str.unicode_len();
    if n < 2 {
        return Err(ParseError::InvalidFormat);
    }
    let last = memory_str.get_char(n - 1);
    if last != 'B' {
        return Err(ParseError::InvalidFormat);
    }
    let penult = memory_str.get_char(n - 2);
    let unit_chars: usize = if penult == 'K' || penult == 'M' || penult == 'G' || penult == 'T'
        || penult == 'P' {
        2
    } else {
        1
    };
    assert(unit_chars == unit_len(s));
    let digits_len = n - unit_chars;
    if digits_len == 0 {
        return Err(ParseError::InvalidFormat);
    }

    let mut value: usize = 0;
    let mut overflowed = false;
    let mut i: usize = 0;
    while i < digits_len
        invariant
            s == memory_str@,
            n == s.len(),
            2 <= n,
            1 <= digits_len <= n,
            digits_len == n - unit_len(s),
            i <= digits_len,
            all_digits(s.take(i as int)),
            !overflowed ==> value == digits_value(s.take(i as int)),
            overflowed ==> digits_value(s.take(i as int)) > usize::MAX,
        decreases digits_len - i,
    {
        let c = memory_str.get_char(i);
        if c < '0' || c > '9' {
            assert(!is_digit_char(s[i as int]));
            assert(s.take(digits_len as int)[i as int] == s[i as int]);
            assert(!all_digits(s.take(digits_len as int)));
            return Err(ParseError::InvalidFormat);
        }
        let d = (c as usize) - 48;
        proof {
            assert(s.take(i + 1).drop_last() =~= s.take(i as int));
            assert(s.take(i + 1).last() == s[i as int]);
            assert(digits_value(s.take(i + 1)) == digits_value(s.take(i as int)) * 10 + digit_val(
                s[i as int],
            ));
            assert(d == digit_val(s[i as int]));
        }
        if !overflowed {
            match value.checked_mul(10) {
                Some(v10) => {
                    match v10.checked_add(d) {
                        Some(v) => {
                            value = v;
                        },
                        None => {
                            overflowed = true;
                        },
                    }
                },
                None => {
                    assert(digits_value(s.take(i + 1)) > usize::MAX);
                    overflowed = true;
                },
            }
        } else {
            assert(digits_value(s.take(i as int)) * 10 >= digits_value(s.take(i as int)));
        }
        i = i + 1;
    }
    proof {
        assert(s.take(digits_len as int) == s.take(s.len() - unit_len(s)));
        assert(matches_grammar(s));
    }

    if overflowed {
        return Err(ParseError::NumberTooLarge);
    }

    let multiplier: u64 = if unit_chars == 2 {
        if penult == 'K' {
            1024
        } else if penult == 'M' {
            1048576
        } else if penult == 'G' {
            1073741824
        } else if penult == 'T' {
            1099511627776
        } else {
            1125899906842624
        }
    } else {
        1
    };
    assert(multiplier == spec_multiplier(s));
    assert(value == spec_magnitude(s));

    // The product is formed in u64 so the unit multipliers are representable
    // whatever width usize has; the result must still fit in usize.
    match (value as u64).checked_mul(multiplier) {
        Some(product) => {
            if product > usize::MAX as u64 {
                Err(ParseError::SizeOverflow)
            } else {
                Ok(product as usize)
            }
        },
        None => Err(ParseError::SizeOverflow),
    }
}

/// Whether a resolved byte count is large enough to draw the advisory
/// warning. Printing the warning is the embedding program's part.
pub fn exceeds_warning_threshold(bytes: usize) -> (r: bool)
    ensures
        r == (bytes > WARNING_THRESHOLD_BYTES),
{
    (bytes as u64) > WARNING_THRESHOLD_BYTES
}

/// The decimal digit standing for `d`; meaningful for `d < 10`.
pub open spec fn digit_char(d: nat) -> char {
    if d == 0 {
        '0'
    } else if d == 1 {
        '1'
    } else if d == 2 {
        '2'
    } else if d == 3 {
        '3'
    } else if d == 4 {
        '4'
    } else if d == 5 {
        '5'
    } else if d == 6 {
        '6'
    } else if d == 7 {
        '7'
    } else if d == 8 {
        '8'
    } else {
        '9'
    }
}

/// The canonical decimal form of `n`: most significant digit first, no sign,
/// no leading zero except for zero itself.
pub open spec fn spec_decimal(n: nat) -> Seq<char>
    decreases n,
{
    if n < 10 {
        seq![digit_char(n)]
    } else {
        spec_decimal(n / 10).push(digit_char(n % 10))
    }
}

fn digit_str(d: usize) -> (r: &'static str)
    requires
        d < 10,
    ensures
        r@ == seq![digit_char(d as nat)],
{
    let r: &'static str = if d == 0 {
        "0"
    } else if d == 1 {
        "1"
    } else if d == 2 {
        "2"
    } else if d == 3 {
        "3"
    } else if d == 4 {
        "4"
    } else if d == 5 {
        "5"
    } else if d == 6 {
        "6"
    } else if d == 7 {
        "7"
    } else if d == 8 {
        "8"
    } else {
        "9"
    };
    proof {
        reveal_strlit("0");
        reveal_strlit("1");
        reveal_strlit("2");
        reveal_strlit("3");
        reveal_strlit("4");
        reveal_strlit("5");
        reveal_strlit("6");
        reveal_strlit("7");
        reveal_strlit("8");
        reveal_strlit("9");
        assert(r@ =~= seq![digit_char(d as nat)]);
    }
    r
}

/// Render `n` in its canonical decimal form.
pub fn decimal_string(n: usize) -> (r: String)
    ensures
        r@ == spec_decimal(n as nat),
    decreases n,
{
    if n < 10 {
        String::from_str(digit_str(n))
    } else {
        let mut m = decimal_string(n / 10);
        m.append(digit_str(n % 10));
        proof {
            assert(m@ =~= spec_decimal(n as nat));
        }
        m
    }
}

/// The decimal form of a count is a run of digits, and the digit grammar of
/// the parser reads it back to the very same count.
pub proof fn lemma_decimal_round_trip(n: nat)
    ensures
        all_digits(spec_decimal(n)),
        digits_value(spec_decimal(n)) == n,
    decreases n,
{
    assert(is_digit_char(digit_char(n % 10)));
    if n < 10 {
        let single = spec_decimal(n);
        assert(single == seq![digit_char(n)]);
        assert(single.drop_last() =~= Seq::<char>::empty());
        assert(digits_value(single.drop_last()) == 0);
        assert(single.last() == digit_char(n));
        assert(digits_value(single) == digit_val(digit_char(n)));
        assert(digit_val(digit_char(n)) == n);
    } else {
        lemma_decimal_round_trip(n / 10);
        let prefix = spec_decimal(n / 10);
        let whole = spec_decimal(n);
        assert(whole == prefix.push(digit_char(n % 10)));
        assert(whole.drop_last() =~= prefix);
        assert(whole.last() == digit_char(n % 10));
        assert(digit_val(digit_char(n % 10)) == n % 10);
        assert(digits_value(whole) == digits_value(prefix) * 10 + n % 10);
        assert(digits_value(prefix) == n / 10);
        assert(digits_value(whole) == (n / 10) * 10 + n % 10);
        assert((n / 10) * 10 + n % 10 == n) by (nonlinear_arith);
        assert(forall|i: int|
            0 <= i < whole.len() ==> is_digit_char(#[trigger] whole[i]));
    }
}

/// The exact advisory line for a byte count above the warning threshold.
pub open spec fn warning_text(bytes: nat, s: Seq<char>) -> Seq<char> {
    "Warning: Attempting to allocate "@ + spec_decimal(bytes) + " bytes ("@ + s
        + "). This may cause system instability."@
}

/// Build the advisory warning line for an oversized allocation; the embedding
/// program writes it to the diagnostic channel.
pub fn warning_message(bytes: usize, memory_str: &str) -> (r: String)
    ensures
        r@ == warning_text(bytes as nat, memory_str@),
{
    let mut m = String::from_str("Warning: Attempting to allocate ");
    let digits = decimal_string(bytes);
    m.append(digits.as_str());
    m.append(" bytes (");
    m.append(memory_str);
    m.append("). This may cause system instability.");
    proof {
        assert(m@ =~= warning_text(bytes as nat, memory_str@));
    }
    m
}

/// The exact text reported to a caller for each way parsing can fail.
pub open spec fn error_text(s: Seq<char>, e: ParseError) -> Seq<char> {
    match e {
        ParseError::InvalidFormat => "Invalid memory string format: '"@ + s
            + "'. Expected format: <number><unit> (e.g., 1B, 100KB, 2GB)"@,
        ParseError::NumberTooLarge => "Failed to parse number: number too large to fit in target type"@,
        ParseError::SizeOverflow => "Memory size overflow"@,
        ParseError::InvalidUnit => "Invalid memory unit. Valid units: B, KB, MB, GB, TB, PB"@,
    }
}

/// Every text that matches the grammar and denotes a representable byte
/// count parses to exactly its magnitude times its unit's multiplier.
pub proof fn lemma_valid_parse(s: Seq<char>)
    requires
        matches_grammar(s),
        spec_magnitude(s) * spec_multiplier(s) <= usize::MAX,
    ensures
        spec_parse(s) == Ok::<usize, ParseError>(
            (spec_magnitude(s) * spec_multiplier(s)) as usize,
        ),
{
    assert(spec_multiplier(s) >= 1);
    assert(spec_magnitude(s) <= spec_magnitude(s) * spec_multiplier(s)) by (nonlinear_arith)
        requires
            spec_multiplier(s) >= 1,
    ;
}

/// Every text that does not match the grammar is rejected as
/// `InvalidFormat`, whatever else it holds.
pub proof fn lemma_invalid_format(s: Seq<char>)
    requires
        !matches_grammar(s),
    ensures
        spec_parse(s) == Err::<usize, ParseError>(ParseError::InvalidFormat),
{
}

/// A digit run too wide for the word width is rejected as `NumberTooLarge`.
pub proof fn lemma_number_too_large(s: Seq<char>)
    requires
        matches_grammar(s),
        spec_magnitude(s) > usize::MAX,
    ensures
        spec_parse(s) == Err::<usize, ParseError>(ParseError::NumberTooLarge),
{
}

/// A representable magnitude whose product with the unit multiplier is not
/// representable is rejected as `SizeOverflow`, never silently wrapped.
pub proof fn lemma_size_overflow(s: Seq<char>)
    requires
        matches_grammar(s),
        spec_magnitude(s) <= usize::MAX,
        spec_magnitude(s) * spec_multiplier(s) > usize::MAX,
    ensures
        spec_parse(s) == Err::<usize, ParseError>(ParseError::SizeOverflow),
{
}

/// Parsing is a pure function of the text: any two results that parsing the
/// same text can return are the same result.
pub proof fn lemma_parse_deterministic(
    s: Seq<char>,
    r1: Result<usize, ParseError>,
    r2: Result<usize, ParseError>,
)
    requires
        r1 == spec_parse(s),
        r2 == spec_parse(s),
    ensures
        r1 == r2,
{
}

/// Render a parse failure as the human-readable line callers receive.
pub fn parse_error_message(memory_str: &str, e: ParseError) -> (r: String)
    ensures
        r@ == error_text(memory_str@, e),
{
    match e {
        ParseError::InvalidFormat => {
            let mut m = String::from_str("Invalid memory string format: '");
            m.append(memory_str);
            m.append("'. Expected format: <number><unit> (e.g., 1B, 100KB, 2GB)");
            m
        },
        ParseError::NumberTooLarge => String::from_str(
            "Failed to parse number: number too large to fit in target type",
        ),
        ParseError::SizeOverflow => String::from_str("Memory size overflow"),
        ParseError::InvalidUnit => String::from_str(
            "Invalid memory unit. Valid units: B, KB, MB, GB, TB, PB",
        ),
    }
}

} // verus!

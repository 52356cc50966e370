//! Generation settings and the answer of a one-shot generation.
//!
//! The sampling settings are decimal numbers. They are kept as the text that
//! goes on the wire, checked once when the setting is made.

use crate::text::{
    all_digits, decimal, digit_value, digits_value, is_digit, is_digit_char, push_decimal,
    to_chars,
};
use vstd::prelude::*;

verus! {

/// Number of digits at the start of `s`.
pub open spec fn leading_digits(s: Seq<char>) -> nat
    decreases s.len(),
{
    if s.len() > 0 && is_digit(s[0]) {
        1 + leading_digits(s.drop_first())
    } else {
        0
    }
}

/// Whether `s` is a JSON number without sign and without exponent: an integer
/// part with no needless leading zero, then, optionally, a point and at least
/// one digit.
pub open spec fn is_decimal(s: Seq<char>) -> bool {
    let n = leading_digits(s) as int;
    &&& n > 0
    &&& n == 1 || s[0] != '0'
    &&& n == s.len() || (s[n] == '.' && n + 1 < s.len() && all_digits(s.skip(n + 1)))
}

/// Ten to the power of `k`.
pub open spec fn pow10(k: nat) -> nat
    decreases k,
{
    if k == 0 {
        1
    } else {
        10 * pow10((k - 1) as nat)
    }
}

/// The digits of the decimal `s` before its point.
pub open spec fn integer_part(s: Seq<char>) -> Seq<char> {
    s.take(leading_digits(s) as int)
}

/// The digits of the decimal `s` behind its point; none when it has no point.
pub open spec fn fraction_part(s: Seq<char>) -> Seq<char> {
    if leading_digits(s) < s.len() {
        s.skip(leading_digits(s) as int + 1)
    } else {
        Seq::empty()
    }
}

/// The value of the decimal `s` times ten to the number of its fraction
/// digits, which is a whole number: what its digits spell without the point.
pub open spec fn scaled_value(s: Seq<char>) -> nat {
    digits_value(integer_part(s)) * pow10(fraction_part(s).len()) + digits_value(fraction_part(s))
}

/// Whether the value of the decimal `s` is at most one.
pub open spec fn at_most_one(s: Seq<char>) -> bool
    recommends
        is_decimal(s),
{
    scaled_value(s) <= pow10(fraction_part(s).len())
}

/// Whether the digits of `s` show at a glance that it is at most one: its
/// integer part is 0, or it is 1 with nothing but zeros behind the point.
pub open spec fn spells_at_most_one(s: Seq<char>) -> bool
    recommends
        is_decimal(s),
{
    ||| s[0] == '0'
    ||| (leading_digits(s) == 1 && s[0] == '1' && forall|i: int|
        2 <= i < s.len() ==> #[trigger] s[i] == '0')
}

pub proof fn lemma_pow10_positive(k: nat)
    ensures
        pow10(k) >= 1,
    decreases k,
{
    if k > 0 {
        lemma_pow10_positive((k - 1) as nat);
    }
}

/// A run of `k` digits spells a number below ten to the `k`.
pub proof fn lemma_digits_value_bound(s: Seq<char>)
    requires
        all_digits(s),
    ensures
        digits_value(s) < pow10(s.len()),
    decreases s.len(),
{
    if s.len() > 0 {
        let front = s.drop_last();
        assert forall|i: int| 0 <= i < front.len() implies is_digit(#[trigger] front[i]) by {
            assert(front[i] == s[i]);
        }
        lemma_digits_value_bound(front);
        assert(is_digit(s.last()));
        assert(digit_value(s.last()) <= 9);
    }
}

/// A run of digits spells at least what its first digit is worth in its
/// place.
pub proof fn lemma_digits_value_floor(s: Seq<char>)
    requires
        all_digits(s),
        s.len() > 0,
    ensures
        digits_value(s) >= digit_value(s[0]) * pow10((s.len() - 1) as nat),
    decreases s.len(),
{
    if s.len() == 1 {
        assert(s.drop_last().len() == 0);
        assert(digits_value(s.drop_last()) == 0);
        assert(s.last() == s[0]);
        assert(pow10(0) == 1);
        assert(digit_value(s[0]) * 1 == digit_value(s[0])) by (nonlinear_arith);
    } else {
        let front = s.drop_last();
        assert forall|i: int| 0 <= i < front.len() implies is_digit(#[trigger] front[i]) by {
            assert(front[i] == s[i]);
        }
        lemma_digits_value_floor(front);
        assert(front[0] == s[0]);
        let d = digit_value(s[0]);
        let p = pow10((s.len() - 2) as nat);
        assert(pow10((s.len() - 1) as nat) == 10 * p);
        assert(digits_value(front) * 10 >= d * (10 * p)) by (nonlinear_arith)
            requires
                digits_value(front) >= d * p,
        ;
        assert(digits_value(s) >= digits_value(front) * 10);
    }
}

/// A run of digits spells zero exactly when all of them are zeros.
pub proof fn lemma_digits_value_zero(s: Seq<char>)
    requires
        all_digits(s),
    ensures
        digits_value(s) == 0 <==> forall|i: int| 0 <= i < s.len() ==> #[trigger] s[i] == '0',
    decreases s.len(),
{
    if s.len() > 0 {
        let front = s.drop_last();
        assert forall|i: int| 0 <= i < front.len() implies is_digit(#[trigger] front[i]) by {
            assert(front[i] == s[i]);
        }
        lemma_digits_value_zero(front);
        assert(is_digit(s.last()));
        if digits_value(s) == 0 {
            assert forall|i: int| 0 <= i < s.len() implies #[trigger] s[i] == '0' by {
                if i < s.len() - 1 {
                    assert(front[i] == s[i]);
                }
            }
        }
        if forall|i: int| 0 <= i < s.len() ==> #[trigger] s[i] == '0' {
            assert forall|i: int| 0 <= i < front.len() implies #[trigger] front[i] == '0' by {
                assert(front[i] == s[i]);
            }
            assert(s[s.len() - 1] == '0');
        }
    }
}

/// Whether a decimal is at most one can be read off its digits.
pub proof fn lemma_at_most_one_by_digits(s: Seq<char>)
    requires
        is_decimal(s),
    ensures
        at_most_one(s) == spells_at_most_one(s),
{
    lemma_leading_digits(s);
    let n = leading_digits(s) as int;
    let whole = integer_part(s);
    let fraction = fraction_part(s);
    let unit = pow10(fraction.len());
    lemma_pow10_positive(fraction.len());
    assert forall|i: int| 0 <= i < whole.len() implies is_digit(#[trigger] whole[i]) by {
        assert(whole[i] == s[i]);
    }
    assert(whole[0] == s[0]);
    lemma_digits_value_floor(whole);
    lemma_digits_value_bound(fraction);
    lemma_digits_value_zero(fraction);
    lemma_pow10_positive((n - 1) as nat);
    let first = digit_value(s[0]);
    let place = pow10((n - 1) as nat);
    assert(is_digit(s[0]));
    if s[0] == '0' {
        assert(n == 1);
        assert(whole.drop_last().len() == 0);
        assert(digits_value(whole.drop_last()) == 0);
        assert(whole.last() == '0');
        assert(digits_value(whole) == 0);
        assert(digits_value(whole) * unit == 0) by (nonlinear_arith)
            requires
                digits_value(whole) == 0,
        ;
    } else if n == 1 && s[0] == '1' {
        assert(whole.drop_last().len() == 0);
        assert(digits_value(whole.drop_last()) == 0);
        assert(whole.last() == '1');
        assert(digits_value(whole) == 1);
        assert(digits_value(whole) * unit == unit) by (nonlinear_arith)
            requires
                digits_value(whole) == 1,
        ;
        if n < s.len() {
            assert forall|i: int| 0 <= i < fraction.len() implies fraction[i] == s[i + 2] by {}
            if forall|i: int| 2 <= i < s.len() ==> #[trigger] s[i] == '0' {
                assert forall|i: int| 0 <= i < fraction.len() implies #[trigger] fraction[i]
                    == '0' by {
                    assert(fraction[i] == s[i + 2]);
                }
            }
            if forall|i: int| 0 <= i < fraction.len() ==> #[trigger] fraction[i] == '0' {
                assert forall|i: int| 2 <= i < s.len() implies #[trigger] s[i] == '0' by {
                    assert(fraction[i - 2] == s[i]);
                }
            }
        } else {
            assert(fraction.len() == 0);
            assert(digits_value(fraction) == 0);
        }
    } else {
        // the integer part is two or more
        assert(digits_value(whole) >= 2) by {
            if n == 1 {
                assert(first >= 2);
                assert(first * place >= 2) by (nonlinear_arith)
                    requires
                        first >= 2,
                        place >= 1,
                ;
            } else {
                assert(first >= 1);
                assert(place == 10 * pow10((n - 2) as nat));
                lemma_pow10_positive((n - 2) as nat);
                assert(first * place >= 2) by (nonlinear_arith)
                    requires
                        first >= 1,
                        place >= 10,
                ;
            }
        }
        assert(digits_value(whole) * unit >= 2 * unit) by (nonlinear_arith)
            requires
                digits_value(whole) >= 2,
                unit >= 1,
        ;
    }
}

pub proof fn lemma_leading_digits(s: Seq<char>)
    ensures
        leading_digits(s) <= s.len(),
        forall|i: int| 0 <= i < leading_digits(s) ==> is_digit(#[trigger] s[i]),
        leading_digits(s) < s.len() ==> !is_digit(s[leading_digits(s) as int]),
    decreases s.len(),
{
    if s.len() > 0 && is_digit(s[0]) {
        let rest = s.drop_first();
        lemma_leading_digits(rest);
        assert forall|i: int| 0 <= i < leading_digits(s) implies is_digit(#[trigger] s[i]) by {
            if i > 0 {
                assert(s[i] == rest[i - 1]);
            }
        }
        if leading_digits(s) < s.len() {
            assert(s[leading_digits(s) as int] == rest[leading_digits(rest) as int]);
        }
    }
}

/// A run of digits at the start of `s`, ended by the end of `s` or by another
/// character, is all of its leading digits.
pub proof fn lemma_leading_digits_is(s: Seq<char>, n: int)
    requires
        0 <= n <= s.len(),
        forall|i: int| 0 <= i < n ==> is_digit(#[trigger] s[i]),
        n < s.len() ==> !is_digit(s[n]),
    ensures
        leading_digits(s) == n,
    decreases n,
{
    if n > 0 {
        let rest = s.drop_first();
        assert forall|i: int| 0 <= i < n - 1 implies is_digit(#[trigger] rest[i]) by {
            assert(rest[i] == s[i + 1]);
        }
        if n - 1 < rest.len() {
            assert(rest[n - 1] == s[n]);
        }
        lemma_leading_digits_is(rest, n - 1);
    }
}

/// A decimal holds digits and at most one point, so no line feed.
pub proof fn lemma_decimal_has_no_line_feed(s: Seq<char>)
    requires
        is_decimal(s),
    ensures
        !s.contains('\n'),
{
    lemma_leading_digits(s);
    let n = leading_digits(s) as int;
    assert forall|i: int| 0 <= i < s.len() implies s[i] != '\n' by {
        if i < n {
            assert(is_digit(s[i]));
        } else if i > n {
            assert(s[i] == s.skip(n + 1)[i - n - 1]);
            assert(is_digit(s.skip(n + 1)[i - n - 1]));
        }
    }
}

/// A non-negative decimal number, kept as its text.
#[derive(Debug)]
pub struct Decimal {
    text: String,
}

impl View for Decimal {
    type V = Seq<char>;

    closed spec fn view(&self) -> Seq<char> {
        self.text@
    }
}

impl Clone for Decimal {
    fn clone(&self) -> (copy: Decimal)
        ensures
            copy@ == self@,
    {
        proof {
            use_type_invariant(self);
        }
        Decimal { text: self.text.clone() }
    }
}

impl Decimal {
    #[verifier::type_invariant]
    spec fn valid(self) -> bool {
        is_decimal(self.text@)
    }

    /// The decimal that `text` spells, if it spells one.
    pub fn parse(text: &str) -> (parsed: Option<Decimal>)
        ensures
            parsed is Some == is_decimal(text@),
            parsed matches Some(d) ==> d@ == text@,
    {
        let chars = to_chars(text);
        let len = chars.len();
        let mut n: usize = 0;
        while n < len && is_digit_char(chars[n])
            invariant
                n <= len == chars.len(),
                forall|i: int| 0 <= i < n ==> is_digit(#[trigger] chars@[i]),
            decreases len - n,
        {
            n += 1;
        }
        proof {
            lemma_leading_digits_is(chars@, n as int);
        }
        if n == 0 || (n > 1 && chars[0] == '0') {
            return None;
        }
        if n < len {
            if chars[n] != '.' || n + 1 >= len {
                return None;
            }
            let mut k: usize = n + 1;
            while k < len
                invariant
                    n + 1 <= k <= len == chars.len(),
                    chars@ == text@,
                    leading_digits(chars@) == n,
                    forall|i: int| n + 1 <= i < k ==> is_digit(#[trigger] chars@[i]),
                decreases len - k,
            {
                if !is_digit_char(chars[k]) {
                    assert(!is_digit(chars@.skip(n + 1)[k - n - 1]));
                    return None;
                }
                k += 1;
            }
            assert forall|i: int| 0 <= i < chars@.skip(n + 1).len() implies is_digit(
                #[trigger] chars@.skip(n + 1)[i],
            ) by {
                assert(chars@.skip(n + 1)[i] == chars@[i + n + 1]);
            }
        }
        Some(Decimal { text: text.to_owned() })
    }

    /// The text of the number, as it goes on the wire.
    pub fn as_str(&self) -> (text: &str)
        ensures
            text@ == self@,
            is_decimal(self@),
    {
        proof {
            use_type_invariant(self);
        }
        self.text.as_str()
    }

    /// Whether the number is at most one.
    pub fn is_at_most_one(&self) -> (small: bool)
        ensures
            small == at_most_one(self@),
    {
        proof {
            use_type_invariant(self);
            lemma_at_most_one_by_digits(self@);
        }
        let chars = to_chars(self.text.as_str());
        let len = chars.len();
        proof {
            lemma_leading_digits(chars@);
        }
        if chars[0] == '0' {
            return true;
        }
        if chars[0] != '1' {
            return false;
        }
        if len == 1 {
            assert(leading_digits(chars@) == 1);
            return true;
        }
        if chars[1] != '.' {
            assert(leading_digits(chars@) != 1);
            return false;
        }
        proof {
            lemma_leading_digits_is(chars@, 1);
        }
        let mut k: usize = 2;
        while k < len
            invariant
                2 <= k <= len == chars.len(),
                chars@ == self@,
                chars@[0] == '1',
                leading_digits(chars@) == 1,
                at_most_one(self@) == spells_at_most_one(self@),
                forall|i: int| 2 <= i < k ==> #[trigger] chars@[i] == '0',
            decreases len - k,
        {
            if chars[k] != '0' {
                assert(chars@[k as int] != '0');
                assert(!spells_at_most_one(self@));
                return false;
            }
            k += 1;
        }
        assert(spells_at_most_one(self@));
        true
    }
}

/// Sampling settings of one generation.
#[derive(Debug)]
pub struct LLMConfig {
    pub temperature: Decimal,
    pub top_p: Decimal,
    pub max_tokens: u32,
}

impl Clone for LLMConfig {
    fn clone(&self) -> (copy: LLMConfig)
        ensures
            copy.temperature@ == self.temperature@,
            copy.top_p@ == self.top_p@,
            copy.max_tokens == self.max_tokens,
    {
        LLMConfig {
            temperature: self.temperature.clone(),
            top_p: self.top_p.clone(),
            max_tokens: self.max_tokens,
        }
    }
}

/// The answer of a one-shot generation.
#[derive(Debug, Clone, PartialEq, Eq)]
pub struct LLMResponse {
    pub text: String,
    pub finish_reason: Option<String>,
}

/// The settings as a JSON object, in the order temperature, top_p, max_tokens.
pub open spec fn config_json(temperature: Seq<char>, top_p: Seq<char>, max_tokens: nat) -> Seq<
    char,
> {
    "{\"temperature\":"@ + temperature + ",\"top_p\":"@ + top_p + ",\"max_tokens\":"@ + decimal(
        max_tokens,
    ) + "}"@
}

impl LLMConfig {
    /// Well-formed settings: any temperature, a `top_p` of at most one, and
    /// room for at least one token.
    pub open spec fn well_formed(&self) -> bool {
        at_most_one(self.top_p@) && self.max_tokens > 0
    }

    /// Settings from the texts of the two decimals; none unless both spell a
    /// decimal and the settings are well-formed.
    pub fn new(temperature: &str, top_p: &str, max_tokens: u32) -> (made: Option<LLMConfig>)
        ensures
            made is Some <==> is_decimal(temperature@) && is_decimal(top_p@) && at_most_one(top_p@)
                && max_tokens > 0,
            made matches Some(config) ==> config.temperature@ == temperature@ && config.top_p@
                == top_p@ && config.max_tokens == max_tokens,
    {
        let temperature = match Decimal::parse(temperature) {
            Some(d) => d,
            None => {
                return None;
            },
        };
        let top_p = match Decimal::parse(top_p) {
            Some(d) => d,
            None => {
                return None;
            },
        };
        if !top_p.is_at_most_one() || max_tokens == 0 {
            return None;
        }
        Some(LLMConfig { temperature, top_p, max_tokens })
    }

    pub fn is_well_formed(&self) -> (ok: bool)
        ensures
            ok == self.well_formed(),
    {
        self.top_p.is_at_most_one() && self.max_tokens > 0
    }

    /// The settings as a JSON object.
    pub fn to_json(&self) -> (json: String)
        ensures
            json@ == config_json(self.temperature@, self.top_p@, self.max_tokens as nat),
    {
        let mut json = String::from_str("{\"temperature\":");
        json.append(self.temperature.as_str());
        json.append(",\"top_p\":");
        json.append(self.top_p.as_str());
        json.append(",\"max_tokens\":");
        let ghost before = json@;
        push_decimal(&mut json, self.max_tokens as u64);
        json.append("}");
        assert(json@ =~= config_json(self.temperature@, self.top_p@, self.max_tokens as nat));
        json
    }
}

impl Default for LLMConfig {
    /// Temperature 0.7, `top_p` 0.9, 512 tokens.
    fn default() -> (config: LLMConfig)
        ensures
            config.temperature@ == "0.7"@,
            config.top_p@ == "0.9"@,
            config.max_tokens == 512,
            config.well_formed(),
    {
        proof {
            reveal_strlit("0.7");
            reveal_strlit("0.9");
            lemma_leading_digits_is("0.7"@, 1);
            lemma_leading_digits_is("0.9"@, 1);
            assert(all_digits("0.9"@.skip(2))) by {
                assert("0.9"@.skip(2).len() == 1);
                assert("0.9"@.skip(2)[0] == '9');
            }
            lemma_at_most_one_by_digits("0.9"@);
        }
        LLMConfig::new("0.7", "0.9", 512).unwrap()
    }
}

} // verus!

//! Text handling for option values: trimming, ASCII case folding, splitting
//! and decimal parsing, each specified over the characters of the text.
use vstd::prelude::*;

verus! {

#[verifier::external_type_specification]
#[verifier::external_body]
pub struct ExParseIntError(core::num::ParseIntError);

/// Whether a character has the Unicode `White_Space` property (PropList.txt),
/// the set that `char::is_whitespace` and `str::trim` use.
pub open spec fn char_is_whitespace(c: char) -> bool {
    let u = c as u32;
    (0x09 <= u && u <= 0x0d) || u == 0x20 || u == 0x85 || u == 0xa0 || u == 0x1680 || (0x2000 <= u
        && u <= 0x200a) || u == 0x2028 || u == 0x2029 || u == 0x202f || u == 0x205f || u == 0x3000
}

/// `s` without its leading and trailing `White_Space` characters.
pub open spec fn trimmed(s: Seq<char>) -> Seq<char>
    decreases s.len(),
{
    if s.len() == 0 {
        s
    } else if char_is_whitespace(s[0]) {
        trimmed(s.drop_first())
    } else if char_is_whitespace(s.last()) {
        trimmed(s.drop_last())
    } else {
        s
    }
}

/// ASCII lower case of one character: `A`..=`Z` become `a`..=`z`, every other
/// character is unchanged.
pub open spec fn ascii_lower_char(c: char) -> char {
    if 'A' <= c && c <= 'Z' {
        ((c as u32) + 32) as char
    } else {
        c
    }
}

/// ASCII lower case of a text.
pub open spec fn ascii_lower(s: Seq<char>) -> Seq<char> {
    s.map_values(|c: char| ascii_lower_char(c))
}

/// `str::trim`: the text without leading and trailing whitespace.
#[verifier::external_body]
pub(crate) fn trim(s: &str) -> (r: &str)
    ensures
        r@ == trimmed(s@),
{
    s.trim()
}

/// `str::to_ascii_lowercase`: a copy with `A`..=`Z` mapped to `a`..=`z`.
#[verifier::external_body]
pub(crate) fn to_ascii_lowercase(s: &str) -> (r: String)
    ensures
        r@ == ascii_lower(s@),
{
    s.to_ascii_lowercase()
}

/// `str::contains` with a character pattern.
#[verifier::external_body]
pub(crate) fn contains_char(s: &str, c: char) -> (r: bool)
    ensures
        r == (exists|i: int| 0 <= i < s@.len() && s@[i] == c),
{
    s.contains(c)
}

/// `str::split_once` with a character pattern: the text before and after the
/// first occurrence of `c`.
#[verifier::external_body]
pub(crate) fn split_once_char(s: &str, c: char) -> (r: Option<(&str, &str)>)
    ensures
        match r {
            None => forall|i: int| 0 <= i < s@.len() ==> s@[i] != c,
            Some((a, b)) => {
                &&& 0 <= a@.len() < s@.len()
                &&& s@[a@.len() as int] == c
                &&& forall|j: int| 0 <= j < a@.len() ==> s@[j] != c
                &&& a@ == s@.subrange(0, a@.len() as int)
                &&& b@ == s@.subrange((a@.len() + 1) as int, s@.len() as int)
            },
        },
{
    s.split_once(c)
}

/// Whether `c` is an ASCII decimal digit.
pub open spec fn is_digit(c: char) -> bool {
    '0' <= c && c <= '9'
}

/// Value of a sequence of decimal digits.
pub open spec fn digits_value(s: Seq<char>) -> nat
    decreases s.len(),
{
    if s.len() == 0 {
        0
    } else {
        digits_value(s.drop_last()) * 10 + ((s.last() as u32) - ('0' as u32)) as nat
    }
}

/// `u32::from_str`: an optional `+` followed by one or more decimal digits
/// whose value fits in a `u32`; anything else is refused.
pub open spec fn parse_u32(s: Seq<char>) -> Option<u32> {
    let digits = if s.len() > 0 && s[0] == '+' {
        s.drop_first()
    } else {
        s
    };
    if digits.len() > 0 && (forall|i: int| 0 <= i < digits.len() ==> is_digit(digits[i]))
        && digits_value(digits) <= u32::MAX {
        Some(digits_value(digits) as u32)
    } else {
        None
    }
}

/// `str::parse::<u32>`.
#[verifier::external_body]
pub(crate) fn parse_u32_str(s: &str) -> (r: Result<u32, core::num::ParseIntError>)
    ensures
        match parse_u32(s@) {
            Some(v) => r == Ok::<u32, core::num::ParseIntError>(v),
            None => r is Err,
        },
{
    s.parse::<u32>()
}

/// Whether two texts are equal.
pub fn str_eq(a: &str, b: &str) -> (r: bool)
    ensures
        r == (a@ == b@),
{
    let n = a.unicode_len();
    if n != b.unicode_len() {
        return false;
    }
    let mut i: usize = 0;
    while i < n
        invariant
            n == a@.len(),
            n == b@.len(),
            i <= n,
            forall|j: int| 0 <= j < i ==> a@[j] == b@[j],
        decreases n - i,
    {
        if a.get_char(i) != b.get_char(i) {
            return false;
        }
        i = i + 1;
    }
    assert(a@ =~= b@);
    true
}

/// Whether an optional text is absent or equal to one of the listed texts.
pub open spec fn in_options(value: Option<Seq<char>>, options: Seq<Seq<char>>) -> bool {
    match value {
        None => true,
        Some(v) => options.contains(v),
    }
}

/// A text that neither starts nor ends with whitespace is its own trimmed form.
pub proof fn lemma_trimmed_unpadded(s: Seq<char>)
    requires
        s.len() > 0 ==> !char_is_whitespace(s[0]) && !char_is_whitespace(s.last()),
    ensures
        trimmed(s) == s,
{
}

/// ASCII upper case of a character: `a`–`z` become `A`–`Z`, others stay.
pub open spec fn ascii_upper_char(c: char) -> char {
    if 'a' <= c && c <= 'z' {
        ((c as u32) - 32) as char
    } else {
        c
    }
}

/// ASCII upper case of a text.
pub open spec fn ascii_upper(s: Seq<char>) -> Seq<char> {
    s.map_values(|c: char| ascii_upper_char(c))
}

/// Trimming commutes with ASCII upper case: letters are not whitespace.
pub proof fn lemma_trimmed_upper(s: Seq<char>)
    ensures
        trimmed(ascii_upper(s)) == ascii_upper(trimmed(s)),
    decreases s.len(),
{
    let u = ascii_upper(s);
    if s.len() > 0 {
        assert(u[0] == ascii_upper_char(s[0]));
        assert(u.last() == ascii_upper_char(s.last()));
        assert(char_is_whitespace(u[0]) == char_is_whitespace(s[0]));
        assert(char_is_whitespace(u.last()) == char_is_whitespace(s.last()));
        if char_is_whitespace(s[0]) {
            assert(u.drop_first() =~= ascii_upper(s.drop_first()));
            lemma_trimmed_upper(s.drop_first());
        } else if char_is_whitespace(s.last()) {
            assert(u.drop_last() =~= ascii_upper(s.drop_last()));
            lemma_trimmed_upper(s.drop_last());
        }
    }
}

/// Folding an upper-cased text to lower case gives the original's lower case.
pub proof fn lemma_lower_of_upper(s: Seq<char>)
    ensures
        ascii_lower(ascii_upper(s)) == ascii_lower(s),
{
    assert forall|i: int| 0 <= i < s.len() implies ascii_lower(ascii_upper(s))[i] == ascii_lower(s)[i] by {
        let c = s[i];
        if 'a' <= c && c <= 'z' {
            assert(((((c as u32) - 32) as char) as u32) + 32 == c as u32);
        }
    }
    assert(ascii_lower(ascii_upper(s)) =~= ascii_lower(s));
}

/// A text without ASCII upper-case letters is its own ASCII lower case.
pub proof fn lemma_ascii_lower_unchanged(s: Seq<char>)
    requires
        forall|i: int| 0 <= i < s.len() ==> !('A' <= #[trigger] s[i] && s[i] <= 'Z'),
    ensures
        ascii_lower(s) == s,
{
    assert(ascii_lower(s) =~= s);
}

} // verus!

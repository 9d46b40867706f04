//! Character and string helpers shared by the validation layer, the
//! targeting evaluator and the listing engine: case-insensitive comparison,
//! membership tests over string vectors, password structure checks and a
//! decimal parser for query parameters.

use vstd::prelude::*;

verus! {

/// ASCII lowering of a single character; everything outside 'A'..'Z' is kept.
pub open spec fn lower_char(c: char) -> char {
    if 'A' <= c && c <= 'Z' {
        (((c as u32) + 32) as u8) as char
    } else {
        c
    }
}

/// ASCII lowering of a character sequence.
pub open spec fn lower_seq(s: Seq<char>) -> Seq<char> {
    Seq::new(s.len(), |i: int| lower_char(s[i]))
}

/// Two strings are equal up to ASCII case.
pub open spec fn eq_ignore_case(a: Seq<char>, b: Seq<char>) -> bool {
    lower_seq(a) == lower_seq(b)
}

pub fn to_lower_char(c: char) -> (r: char)
    ensures
        r == lower_char(c),
{
    let u: u32 = c as u32;
    if 65 <= u && u <= 90 {
        ((u + 32) as u8) as char
    } else {
        c
    }
}

/// Case-insensitive string comparison, character by character.
pub fn str_eq_ignore_case(a: &str, b: &str) -> (r: bool)
    ensures
        r == eq_ignore_case(a@, b@),
{
    let alen = a.unicode_len();
    let blen = b.unicode_len();
    if alen != blen {
        proof {
            assert(lower_seq(a@).len() != lower_seq(b@).len());
        }
        return false;
    }
    let mut i: usize = 0;
    while i < alen
        invariant
            alen == a@.len(),
            alen == b@.len(),
            i <= alen,
            forall|j: int| 0 <= j < i ==> lower_char(a@[j]) == lower_char(b@[j]),
        decreases alen - i,
    {
        let ca = to_lower_char(a.get_char(i));
        let cb = to_lower_char(b.get_char(i));
        if ca != cb {
            proof {
                assert(lower_seq(a@)[i as int] != lower_seq(b@)[i as int]);
            }
            return false;
        }
        i += 1;
    }
    proof {
        assert(lower_seq(a@) =~= lower_seq(b@));
    }
    true
}

/// Exact string equality, exposed over views.
pub fn str_eq(a: &str, b: &str) -> (r: bool)
    ensures
        r == (a@ == b@),
{
    let sa: String = a.to_owned();
    let sb: String = b.to_owned();
    sa == sb
}

/// The model of an optional string.
pub open spec fn opt_str_view(o: Option<String>) -> Option<Seq<char>> {
    match o {
        Some(s) => Some(s@),
        None => None,
    }
}

/// The character sequences of a sequence of strings.
pub open spec fn views_of(v: Seq<String>) -> Seq<Seq<char>> {
    v.map_values(|s: String| s@)
}

/// Whether some element of `v` equals `x` up to ASCII case.
pub open spec fn has_ci(v: Seq<Seq<char>>, x: Seq<char>) -> bool {
    exists|i: int| 0 <= i < v.len() && eq_ignore_case(v[i], x)
}

pub fn contains_str(v: &Vec<String>, x: &str) -> (r: bool)
    ensures
        r == views_of(v@).contains(x@),
{
    let mut i: usize = 0;
    while i < v.len()
        invariant
            i <= v@.len(),
            forall|j: int| 0 <= j < i ==> (#[trigger] v@[j])@ != x@,
        decreases v@.len() - i,
    {
        if str_eq(v[i].as_str(), x) {
            proof {
                assert(views_of(v@)[i as int] == x@);
            }
            return true;
        }
        i += 1;
    }
    proof {
        assert forall|j: int| 0 <= j < views_of(v@).len() implies views_of(v@)[j] != x@ by {
            assert(v@[j]@ != x@);
        }
    }
    false
}

pub fn contains_str_ci(v: &Vec<String>, x: &str) -> (r: bool)
    ensures
        r == has_ci(views_of(v@), x@),
{
    let mut i: usize = 0;
    while i < v.len()
        invariant
            i <= v@.len(),
            forall|j: int| 0 <= j < i ==> !eq_ignore_case((#[trigger] v@[j])@, x@),
        decreases v@.len() - i,
    {
        if str_eq_ignore_case(v[i].as_str(), x) {
            proof {
                assert(eq_ignore_case(views_of(v@)[i as int], x@));
            }
            return true;
        }
        i += 1;
    }
    proof {
        assert forall|j: int| 0 <= j < views_of(v@).len() implies !eq_ignore_case(
            views_of(v@)[j],
            x@,
        ) by {
            assert(!eq_ignore_case(v@[j]@, x@));
        }
    }
    false
}

/// Copies a vector of strings, element for element.
pub fn clone_string_vec(v: &Vec<String>) -> (r: Vec<String>)
    ensures
        r@ == v@,
{
    let mut r: Vec<String> = Vec::new();
    let mut i: usize = 0;
    while i < v.len()
        invariant
            i <= v@.len(),
            r@ =~= v@.subrange(0, i as int),
        decreases v@.len() - i,
    {
        r.push(v[i].clone());
        proof {
            assert(r@ =~= v@.subrange(0, i as int + 1));
        }
        i += 1;
    }
    proof {
        assert(v@.subrange(0, v@.len() as int) =~= v@);
    }
    r
}

/// Copies an optional string.
pub fn clone_opt_string(v: &Option<String>) -> (r: Option<String>)
    ensures
        r == *v,
{
    match v {
        Some(s) => Some(s.clone()),
        None => None,
    }
}

/// Whether the character is Unicode whitespace. The classification is a pure
/// function of the character.
pub uninterp spec fn char_is_whitespace(c: char) -> bool;

/// Whether the character is Unicode lowercase.
pub uninterp spec fn char_is_lowercase(c: char) -> bool;

/// Whether the character is Unicode uppercase.
pub uninterp spec fn char_is_uppercase(c: char) -> bool;

/// Relies on char::is_whitespace: Unicode White_Space classification of one
/// character, depending on the character alone.
#[verifier::external_body]
fn is_whitespace_char(c: char) -> (r: bool)
    ensures
        r == char_is_whitespace(c),
{
    c.is_whitespace()
}

/// Relies on char::is_lowercase: Unicode Lowercase classification of one
/// character, depending on the character alone.
#[verifier::external_body]
fn is_lowercase_char(c: char) -> (r: bool)
    ensures
        r == char_is_lowercase(c),
{
    c.is_lowercase()
}

/// Relies on char::is_uppercase: Unicode Uppercase classification of one
/// character, depending on the character alone.
#[verifier::external_body]
fn is_uppercase_char(c: char) -> (r: bool)
    ensures
        r == char_is_uppercase(c),
{
    c.is_uppercase()
}

/// Decimal digit test; `char::is_digit(10)` accepts exactly '0'..'9'.
pub fn is_digit10(c: char) -> (r: bool)
    ensures
        r == ('0' <= c && c <= '9'),
{
    let u: u32 = c as u32;
    48 <= u && u <= 57
}

/// The character-class part of the password policy: no whitespace, at least
/// one uppercase letter, one lowercase letter and one decimal digit.
pub open spec fn password_classes_ok(pw: Seq<char>) -> bool {
    &&& forall|i: int| 0 <= i < pw.len() ==> !char_is_whitespace(#[trigger] pw[i])
    &&& exists|i: int| 0 <= i < pw.len() && char_is_uppercase(#[trigger] pw[i])
    &&& exists|i: int| 0 <= i < pw.len() && char_is_lowercase(#[trigger] pw[i])
    &&& exists|i: int| 0 <= i < pw.len() && '0' <= #[trigger] pw[i] && pw[i] <= '9'
}

/// The full password policy: the character classes plus a length of 8 to 60
/// characters.
pub open spec fn password_ok(pw: Seq<char>) -> bool {
    &&& 8 <= pw.len() <= 60
    &&& password_classes_ok(pw)
}

/// Checks the character-class part of the password policy.
pub fn check_password_classes(pw: &str) -> (r: bool)
    ensures
        r == password_classes_ok(pw@),
{
    let len = pw.unicode_len();
    let mut has_whitespace = false;
    let mut has_upper = false;
    let mut has_lower = false;
    let mut has_digit = false;
    let mut i: usize = 0;
    while i < len
        invariant
            len == pw@.len(),
            i <= len,
            has_whitespace == exists|j: int| 0 <= j < i && char_is_whitespace(#[trigger] pw@[j]),
            has_upper == exists|j: int| 0 <= j < i && char_is_uppercase(#[trigger] pw@[j]),
            has_lower == exists|j: int| 0 <= j < i && char_is_lowercase(#[trigger] pw@[j]),
            has_digit == exists|j: int| 0 <= j < i && '0' <= #[trigger] pw@[j] && pw@[j] <= '9',
        decreases len - i,
    {
        let c = pw.get_char(i);
        if is_whitespace_char(c) {
            has_whitespace = true;
        }
        if is_uppercase_char(c) {
            has_upper = true;
        }
        if is_lowercase_char(c) {
            has_lower = true;
        }
        if is_digit10(c) {
            has_digit = true;
        }
        i += 1;
    }
    !has_whitespace && has_upper && has_lower && has_digit
}

/// Checks the full password policy.
pub fn check_password(pw: &str) -> (r: bool)
    ensures
        r == password_ok(pw@),
{
    let len = pw.unicode_len();
    len >= 8 && len <= 60 && check_password_classes(pw)
}

/// Whether the pattern is a valid regular expression; decided by the regex
/// crate, as a pure function of the pattern.
pub uninterp spec fn regex_compiles(pat: Seq<char>) -> bool;

/// Whether the regular expression matches somewhere inside the text; decided
/// by the regex crate, as a pure function of pattern and text.
pub uninterp spec fn regex_match(pat: Seq<char>, text: Seq<char>) -> bool;

/// Relies on regex::Regex::new (None exactly when the pattern does not
/// compile) and regex::Regex::is_match (whether the compiled pattern matches
/// somewhere in the text): both depend on the two strings alone.
#[verifier::external_body]
pub(crate) fn regex_is_match(pattern: &str, text: &str) -> (r: Option<bool>)
    ensures
        r is Some <==> regex_compiles(pattern@),
        r matches Some(b) ==> b == regex_match(pattern@, text@),
{
    match regex::Regex::new(pattern) {
        Ok(re) => Some(re.is_match(text)),
        Err(_) => None,
    }
}

/// A sequence made of decimal digits only.
pub open spec fn is_digit_seq(s: Seq<char>) -> bool {
    forall|i: int| 0 <= i < s.len() ==> '0' <= #[trigger] s[i] && s[i] <= '9'
}

/// The value of a decimal digit sequence.
pub open spec fn dec_val(s: Seq<char>) -> nat
    decreases s.len(),
{
    if s.len() == 0 {
        0
    } else {
        dec_val(s.drop_last()) * 10 + ((s.last() as u32 - 48) as nat)
    }
}

proof fn lemma_dec_val_extend(s: Seq<char>, i: int)
    requires
        0 <= i < s.len(),
    ensures
        dec_val(s.subrange(0, i + 1)) == dec_val(s.subrange(0, i)) * 10 + (
        (s[i] as u32 - 48) as nat),
{
    let pre = s.subrange(0, i + 1);
    assert(pre.drop_last() =~= s.subrange(0, i));
    assert(pre.last() == s[i]);
}

proof fn lemma_dec_val_prefix_le(s: Seq<char>, i: int, j: int)
    requires
        0 <= i <= j <= s.len(),
    ensures
        dec_val(s.subrange(0, i)) <= dec_val(s.subrange(0, j)),
    decreases j - i,
{
    if i < j {
        lemma_dec_val_prefix_le(s, i, j - 1);
        lemma_dec_val_extend(s, j - 1);
    }
}

/// Parses a non-empty, all-digit decimal string into a usize. Anything else,
/// including a value over usize::MAX, yields None.
pub fn parse_usize(s: &str) -> (r: Option<usize>)
    ensures
        r matches Some(v) ==> s@.len() > 0 && is_digit_seq(s@) && v == dec_val(s@),
        r is None ==> s@.len() == 0 || !is_digit_seq(s@) || dec_val(s@) > usize::MAX,
{
    let len = s.unicode_len();
    if len == 0 {
        return None;
    }
    let mut acc: usize = 0;
    let mut i: usize = 0;
    while i < len
        invariant
            len == s@.len(),
            i <= len,
            is_digit_seq(s@.subrange(0, i as int)),
            acc == dec_val(s@.subrange(0, i as int)),
        decreases len - i,
    {
        let c = s.get_char(i);
        if !is_digit10(c) {
            return None;
        }
        let d: u32 = (c as u32) - 48;
        if acc > (usize::MAX - (d as usize)) / 10 {
            proof {
                lemma_dec_val_extend(s@, i as int);
                assert(dec_val(s@.subrange(0, i as int + 1)) > usize::MAX);
                lemma_dec_val_prefix_le(s@, i as int + 1, s@.len() as int);
                assert(s@.subrange(0, s@.len() as int) =~= s@);
            }
            return None;
        }
        proof {
            lemma_dec_val_extend(s@, i as int);
        }
        acc = acc * 10 + (d as usize);
        proof {
            assert(s@.subrange(0, i as int + 1) =~= s@.subrange(0, i as int).push(s@[i as int]));
            assert(is_digit_seq(s@.subrange(0, i as int + 1)));
        }
        i += 1;
    }
    proof {
        assert(s@.subrange(0, len as int) =~= s@);
    }
    Some(acc)
}

} // verus!

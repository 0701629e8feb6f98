use super::Gender;
use vstd::prelude::*;

verus! {

/// What `char::to_uppercase` yields for `c`: the full Unicode upper-case
/// mapping, one or more characters.
pub uninterp spec fn to_uppercase_chars(c: char) -> Seq<char>;

/// Whether `char::is_uppercase` holds of `c` (the Unicode `Uppercase`
/// property).
pub uninterp spec fn is_uppercase_char(c: char) -> bool;

/// Calls `char::to_uppercase` and collects what it yields.
///
/// Claimed: the result is the named mapping `to_uppercase_chars(c)`; an
/// ASCII lower-case letter maps to its ASCII upper-case letter and any other
/// ASCII character maps to itself, as the documentation of `to_uppercase`
/// and `to_ascii_uppercase` states.
#[verifier::external_body]
pub(crate) fn char_to_uppercase(c: char) -> (r: Vec<char>)
    ensures
        r@ == to_uppercase_chars(c),
        'a' <= c <= 'z' ==> r@ == seq![((c as u32) - 32) as char],
        (c as u32) < 128 && !('a' <= c <= 'z') ==> r@ == seq![c],
{
    c.to_uppercase().collect()
}

/// Calls `char::is_uppercase`.
///
/// Claimed: the result is the named property `is_uppercase_char(c)`; for an
/// ASCII character it holds exactly of 'A' to 'Z'.
#[verifier::external_body]
pub(crate) fn char_is_uppercase(c: char) -> (r: bool)
    ensures
        r == is_uppercase_char(c),
        (c as u32) < 128 ==> (r <==> 'A' <= c <= 'Z'),
{
    c.is_uppercase()
}

/// Calls `String::push`.
///
/// Claimed: the character is appended at the end of the string.
#[verifier::external_body]
pub(crate) fn string_push(s: &mut String, c: char)
    ensures
        final(s)@ == old(s)@.push(c),
{
    s.push(c)
}

/// Calls `String::pop`.
///
/// Claimed: the last character is removed and returned; an empty string
/// stays empty and `None` is returned.
#[verifier::external_body]
pub(crate) fn string_pop(s: &mut String) -> (r: Option<char>)
    ensures
        old(s)@.len() == 0 ==> r is None && final(s)@ == old(s)@,
        old(s)@.len() > 0 ==> r == Some(old(s)@.last()) && final(s)@ == old(s)@.drop_last(),
{
    s.pop()
}

/// Characters after which no dot is added at the end of a sentence.
pub open spec fn is_terminal_punct(c: char) -> bool {
    c == '.' || c == '?' || c == '!' || c == ':' || c == ';' || c == '"'
}

/// Vowels, used to decide between a/an.
pub open spec fn spec_is_vowel(c: char) -> bool {
    c == 'a' || c == 'e' || c == 'i' || c == 'o' || c == 'u' || c == 'A' || c == 'E' || c == 'I'
        || c == 'O' || c == 'U'
}

/// A sentence needs a dot when it ends with something else than a
/// punctuation mark or a quote.
pub open spec fn spec_needs_dot(s: Seq<char>) -> bool {
    s.len() > 0 && !is_terminal_punct(s.last())
}

/// A line gets a closing dot exactly when it is not empty and does not
/// already end with '.', '?', '!', ':', ';' or '"'.
pub proof fn lemma_dot_unless_already_ended(s: Seq<char>)
    ensures
        s.len() == 0 ==> !spec_needs_dot(s),
        s.len() > 0 ==> (spec_needs_dot(s) <==> !(s.last() == '.' || s.last() == '?' || s.last()
            == '!' || s.last() == ':' || s.last() == ';' || s.last() == '"')),
{
}

/// The text with its first character in upper case.
pub open spec fn upper_first(s: Seq<char>) -> Seq<char> {
    if s.len() == 0 {
        s
    } else {
        to_uppercase_chars(s[0]) + s.skip(1)
    }
}

pub open spec fn spec_is_singular(gender: Gender) -> bool {
    !(gender is Plural || gender is Uncountable)
}

/// Last letters of a verb that take "es" in the third person.
pub open spec fn takes_es(c: char) -> bool {
    c == 's' || c == 'o' || c == 'z' || c == 'x' || c == 'S' || c == 'O' || c == 'Z' || c == 'X'
}

/// The suffix (in lower case) and the number of characters to remove that
/// turn the verb at the end of `s` into its third person singular form.
pub open spec fn verb_suffix(s: Seq<char>) -> (Seq<char>, int)
    recommends
        s.len() > 0,
{
    let ch = s.last();
    let has_prev = s.len() >= 2;
    let prev = s[s.len() - 2];
    if takes_es(ch) {
        ("es"@, 0)
    } else if ch == 'y' || ch == 'Y' {
        if has_prev && spec_is_vowel(prev) {
            ("s"@, 0)
        } else {
            ("ies"@, 1)
        }
    } else if ch == 'h' || ch == 'H' {
        if has_prev && (prev == 'c' || prev == 's' || prev == 'C' || prev == 'S') {
            ("es"@, 0)
        } else {
            ("s"@, 0)
        }
    } else {
        ("s"@, 0)
    }
}

/// The upper-case spelling of a suffix that `verb_suffix` gives.
pub open spec fn upper_suffix(add: Seq<char>) -> Seq<char> {
    if add == "es"@ {
        "ES"@
    } else if add == "ies"@ {
        "IES"@
    } else {
        "S"@
    }
}

/// `s` with the verb at its end put in the third person singular.
pub open spec fn spec_add_verb_end_s(s: Seq<char>) -> Seq<char> {
    if s.len() == 0 {
        s
    } else {
        let (add, remove) = verb_suffix(s);
        let add = if is_uppercase_char(s.last()) {
            upper_suffix(add)
        } else {
            add
        };
        s.take(s.len() - remove) + add
    }
}

/// The third person singular keeps the verb but for its last letter and
/// ends in 's': a lower-case verb that ends in a letter other than s, o,
/// z, x, y or h just gets an 's'; one ending in s, o, z or x gets "es".
pub proof fn lemma_verb_ends_in_s(s: Seq<char>)
    requires
        s.len() > 0,
        !is_uppercase_char(s.last()),
    ensures
        spec_add_verb_end_s(s).last() == 's',
        spec_add_verb_end_s(s).len() > s.len(),
        spec_add_verb_end_s(s).take(s.len() - 1) == s.take(s.len() - 1),
        !(s.last() == 's' || s.last() == 'o' || s.last() == 'z' || s.last() == 'x' || s.last()
            == 'y' || s.last() == 'h' || s.last() == 'S' || s.last() == 'O' || s.last() == 'Z'
            || s.last() == 'X' || s.last() == 'Y' || s.last() == 'H') ==> spec_add_verb_end_s(s)
            == s.push('s'),
        (s.last() == 's' || s.last() == 'o' || s.last() == 'z' || s.last() == 'x')
            ==> spec_add_verb_end_s(s) == s + seq!['e', 's'],
{
    reveal_strlit("s");
    reveal_strlit("es");
    reveal_strlit("ies");
    let (add, remove) = verb_suffix(s);
    let r = spec_add_verb_end_s(s);
    assert(r == s.take(s.len() - remove) + add);
    assert(s.take(s.len() - 0) =~= s);
    assert(r.take(s.len() - 1) =~= s.take(s.len() - 1));
    assert(s + seq!['e', 's'] =~= s + "es"@);
    assert(s.push('s') =~= s + "s"@);
}

/// The last character of `s`, if any.
pub fn last_char(s: &str) -> (r: Option<char>)
    ensures
        r == (if s@.len() == 0 {
            None
        } else {
            Some(s@.last())
        }),
{
    let mut last: Option<char> = None;
    for c in it: s.chars()
        invariant
            it.seq() == s@,
            last == (if it.index() == 0 {
                None
            } else {
                Some(s@[it.index() - 1])
            }),
    {
        last = Some(c);
    }
    last
}

/// The last two characters of `s`: the last one and the one before it.
fn last_two_chars(s: &str) -> (r: (Option<char>, Option<char>))
    ensures
        r.0 == (if s@.len() == 0 {
            None
        } else {
            Some(s@.last())
        }),
        r.1 == (if s@.len() < 2 {
            None
        } else {
            Some(s@[s@.len() - 2])
        }),
{
    let mut last: Option<char> = None;
    let mut prev: Option<char> = None;
    for c in it: s.chars()
        invariant
            it.seq() == s@,
            last == (if it.index() == 0 {
                None
            } else {
                Some(s@[it.index() - 1])
            }),
            prev == (if it.index() < 2 {
                None
            } else {
                Some(s@[it.index() - 2])
            }),
    {
        prev = last;
        last = Some(c);
    }
    (last, prev)
}

/// Whether a dot should be added at the end of the sentence `s`.
pub fn needs_dot(s: &str) -> (r: bool)
    ensures
        r == spec_needs_dot(s@),
{
    if let Some(c) = last_char(s) {
        !(c == '.' || c == '?' || c == '!' || c == ':' || c == ';' || c == '"')
    } else {
        false
    }
}

/// Used to decide between a/an. (y is usually not pronounced like a vowel.)
pub fn is_vowel(c: char) -> (r: bool)
    ensures
        r == spec_is_vowel(c),
{
    c == 'a' || c == 'e' || c == 'i' || c == 'o' || c == 'u' || c == 'A' || c == 'E' || c == 'I'
        || c == 'O' || c == 'U'
}

/// Appends `s` to `to` with the first character in upper case.
pub fn uppercase_first_char(s: &str, to: &mut String)
    ensures
        final(to)@ == old(to)@ + upper_first(s@),
{
    let ghost start = to@;
    let mut first = true;
    for c in it: s.chars()
        invariant
            it.seq() == s@,
            first == (it.index() == 0),
            it.index() == 0 ==> to@ == start,
            it.index() > 0 ==> to@ == start + to_uppercase_chars(s@[0]) + s@.subrange(
                1,
                it.index() as int,
            ),
    {
        if first {
            let upper = char_to_uppercase(c);
            let mut i: usize = 0;
            while i < upper.len()
                invariant
                    0 <= i <= upper@.len(),
                    upper@ == to_uppercase_chars(c),
                    c == s@[0],
                    to@ == start + upper@.subrange(0, i as int),
                decreases upper@.len() - i,
            {
                string_push(to, upper[i]);
                proof {
                    assert(upper@.subrange(0, i + 1) =~= upper@.subrange(0, i as int).push(
                        upper@[i as int],
                    ));
                }
                i = i + 1;
            }
            proof {
                assert(upper@.subrange(0, upper@.len() as int) =~= upper@);
                assert(s@.subrange(1, 1) =~= Seq::<char>::empty());
                assert(to@ =~= start + to_uppercase_chars(s@[0]) + s@.subrange(1, 1));
            }
            first = false;
        } else {
            string_push(to, c);
            proof {
                let k = it.index() as int;
                assert(s@.subrange(1, k + 1) =~= s@.subrange(1, k).push(c));
                assert(to@ =~= start + to_uppercase_chars(s@[0]) + s@.subrange(1, k + 1));
            }
        }
    }
    proof {
        if s@.len() > 0 {
            assert(s@.subrange(1, s@.len() as int) =~= s@.skip(1));
        }
    }
}

/// Whether the gender is singular, that is neither plural nor uncountable.
pub fn is_singular(gender: Gender) -> (r: bool)
    ensures
        r == spec_is_singular(gender),
{
    !matches!(gender, Gender::Plural | Gender::Uncountable)
}

/// Puts the verb at the end of `str` in the third person singular: adds
/// "s", "es" or "ies" (in upper case after an upper-case letter).
pub fn add_verb_end_s(str: &mut String)
    ensures
        final(str)@ == spec_add_verb_end_s(old(str)@),
{
    let (last, prev) = last_two_chars(str.as_str());
    match last {
        None => {},
        Some(ch) => {
            let uc = char_is_uppercase(ch);
            let mut remove = false;
            let add: &str;
            if ch == 's' || ch == 'o' || ch == 'z' || ch == 'x' || ch == 'S' || ch == 'O' || ch
                == 'z' || ch == 'Z' || ch == 'X' {
                add = if uc {
                    "ES"
                } else {
                    "es"
                };
            } else if ch == 'y' || ch == 'Y' {
                let vowel_before = match prev {
                    Some(c2) => is_vowel(c2),
                    None => false,
                };
                if vowel_before {
                    add = if uc {
                        "S"
                    } else {
                        "s"
                    };
                } else {
                    remove = true;
                    add = if uc {
                        "IES"
                    } else {
                        "ies"
                    };
                }
            } else if ch == 'h' || ch == 'H' {
                let sibilant = match prev {
                    Some(c2) => c2 == 'c' || c2 == 's' || c2 == 'C' || c2 == 'S',
                    None => false,
                };
                if sibilant {
                    add = if uc {
                        "ES"
                    } else {
                        "es"
                    };
                } else {
                    add = if uc {
                        "S"
                    } else {
                        "s"
                    };
                }
            } else {
                add = if uc {
                    "S"
                } else {
                    "s"
                };
            }
            if remove {
                string_pop(str);
            }
            str.append(add);
            proof {
                reveal_strlit("es");
                reveal_strlit("ies");
                reveal_strlit("s");
                let s = old(str)@;
                if !remove {
                    assert(s.take(s.len() as int) =~= s);
                }
            }
        },
    }
}

} // verus!

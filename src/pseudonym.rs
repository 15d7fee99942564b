//! Pseudonym generators: random replacement strings for identifiers and labels.
use vstd::prelude::*;
use vstd::utf8::encode_utf8;

verus! {

/// An ASCII upper-case letter.
pub open spec fn is_upper(c: char) -> bool {
    'A' <= c && c <= 'Z'
}

/// An ASCII lower-case letter.
pub open spec fn is_lower(c: char) -> bool {
    'a' <= c && c <= 'z'
}

/// An ASCII letter.
pub open spec fn is_alpha(c: char) -> bool {
    is_upper(c) || is_lower(c)
}

/// `t` has the shape of `s`: the same length, a letter of the same case
/// wherever `s` has a letter, and the very character of `s` everywhere else.
pub open spec fn same_shape(s: Seq<char>, t: Seq<char>) -> bool {
    &&& t.len() == s.len()
    &&& forall|i: int|
        0 <= i < s.len() ==> {
            &&& (is_upper(#[trigger] t[i]) <==> is_upper(s[i]))
            &&& (is_lower(t[i]) <==> is_lower(s[i]))
            &&& (!is_alpha(s[i]) ==> t[i] == s[i])
        }
}

/// `t` renames the identifier `s`: it has the shape of `s` and, wherever `s` holds
/// a letter, differs from it.
pub open spec fn renamed_identifier(s: Seq<char>, t: Seq<char>) -> bool {
    same_shape(s, t) && (has_letter(s) ==> t != s)
}

/// A character of the free-text alphabet: letters, digits and `_ - / ? !`.
pub open spec fn is_text_symbol(c: char) -> bool {
    is_alpha(c) || ('0' <= c && c <= '9') || c == '_' || c == '-' || c == '/' || c == '?'
        || c == '!'
}

/// A generated debug-info name for an original of `n` UTF-8 bytes: one ASCII letter
/// per byte of the original (one for an empty one), starting lower-case.
pub open spec fn is_name_pseudonym(n: nat, t: Seq<char>) -> bool {
    &&& t.len() == if n == 0 { 1 } else { n }
    &&& is_lower(t[0])
    &&& forall|i: int| 0 <= i < t.len() ==> is_alpha(#[trigger] t[i])
}

/// Relies on rand::random_range: a value drawn from `0..n`, which must not be empty.
#[verifier::external_body]
fn random_below(n: u8) -> (r: u8)
    requires
        n > 0,
    ensures
        r < n,
{
    rand::random_range(0..n)
}

/// Relies on rand::random: any 64-bit value.
#[verifier::external_body]
pub(crate) fn random_u64() -> u64 {
    rand::random::<u64>()
}

/// Relies on String::push: appends one character.
#[verifier::external_body]
fn push_char(s: &mut String, c: char)
    ensures
        final(s)@ == old(s)@.push(c),
{
    s.push(c)
}

/// The characters of `s`, in order.
fn chars_of(s: &str) -> (r: Vec<char>)
    ensures
        r@ == s@,
{
    let n = s.unicode_len();
    let mut r: Vec<char> = Vec::new();
    let mut i: usize = 0;
    while i < n
        invariant
            n == s@.len(),
            i <= n,
            r@ == s@.subrange(0, i as int),
        decreases n - i,
    {
        r.push(s.get_char(i));
        i = i + 1;
    }
    r
}

fn random_upper() -> (c: char)
    ensures
        is_upper(c),
{
    let k = random_below(26);
    (65u8 + k) as char
}

fn random_lower() -> (c: char)
    ensures
        is_lower(c),
{
    let k = random_below(26);
    (97u8 + k) as char
}

fn random_letter() -> (c: char)
    ensures
        is_alpha(c),
{
    let k = random_below(52);
    if k < 26 {
        (65u8 + k) as char
    } else {
        (97u8 + (k - 26)) as char
    }
}

fn random_text_symbol() -> (c: char)
    ensures
        is_text_symbol(c),
{
    let k = random_below(67);
    if k < 52 {
        if k < 26 {
            (65u8 + k) as char
        } else {
            (97u8 + (k - 26)) as char
        }
    } else if k < 62 {
        (48u8 + (k - 52)) as char
    } else if k == 62 {
        '_'
    } else if k == 63 {
        '-'
    } else if k == 64 {
        '/'
    } else if k == 65 {
        '?'
    } else {
        '!'
    }
}

/// `s` holds at least one ASCII letter.
pub open spec fn has_letter(s: Seq<char>) -> bool {
    exists|i: int| 0 <= i < s.len() && is_alpha(#[trigger] s[i])
}

/// A random letter of the case of `c` other than `c`.
fn random_other_letter(c: char) -> (r: char)
    requires
        is_alpha(c),
    ensures
        is_upper(r) <==> is_upper(c),
        is_lower(r) <==> is_lower(c),
        r != c,
{
    let k = random_below(25);
    if 'A' <= c && c <= 'Z' {
        let own = (c as u32 - 65) as u8;
        let k = if k >= own { k + 1 } else { k };
        (65u8 + k) as char
    } else {
        let own = (c as u32 - 97) as u8;
        let k = if k >= own { k + 1 } else { k };
        (97u8 + k) as char
    }
}

/// Replaces every ASCII letter by a random letter of the same case and keeps every
/// other character, so `Abc.foo[33]` becomes something like `Xqz.rtm[33]`. Where
/// the input has a letter, the result differs from it.
pub fn obfuscate_string(input: &str) -> (output: String)
    ensures
        same_shape(input@, output@),
        has_letter(input@) ==> output@ != input@,
{
    let chars = chars_of(input);
    let mut last: usize = chars.len();
    let mut j: usize = 0;
    while j < chars.len()
        invariant
            chars@ == input@,
            j <= chars.len(),
            last == chars.len() || (last < j && is_alpha(chars@[last as int])),
            forall|m: int| last < m < j ==> !is_alpha(#[trigger] chars@[m]),
            last == chars.len() ==> forall|m: int| 0 <= m < j ==> !is_alpha(#[trigger] chars@[m]),
        decreases chars.len() - j,
    {
        let c = chars[j];
        if ('A' <= c && c <= 'Z') || ('a' <= c && c <= 'z') {
            last = j;
        }
        j = j + 1;
    }
    let mut output = String::new();
    let mut changed = false;
    let mut i: usize = 0;
    while i < chars.len()
        invariant
            chars@ == input@,
            i <= chars.len(),
            same_shape(input@.subrange(0, i as int), output@),
            changed ==> exists|m: int| 0 <= m < i && #[trigger] output@[m] != input@[m],
            last == chars.len() || (last < chars.len() && is_alpha(chars@[last as int])),
            forall|m: int| last < m < chars.len() ==> !is_alpha(#[trigger] chars@[m]),
            last == chars.len() ==> forall|m: int| 0 <= m < chars.len() ==> !is_alpha(#[trigger] chars@[m]),
            last < i ==> changed,
        decreases chars.len() - i,
    {
        let c = chars[i];
        let r = if i == last && !changed {
            random_other_letter(c)
        } else if 'A' <= c && c <= 'Z' {
            random_upper()
        } else if 'a' <= c && c <= 'z' {
            random_lower()
        } else {
            c
        };
        let ghost out0 = output@;
        push_char(&mut output, r);
        if r != c {
            changed = true;
        }
        proof {
            assert(input@.subrange(0, i + 1) == input@.subrange(0, i as int).push(c));
            if r != c {
                assert(output@[i as int] != input@[i as int]);
            } else if changed {
                let m = choose|m: int| 0 <= m < i && #[trigger] out0[m] != input@[m];
                assert(output@[m] == out0[m]);
            }
        }
        i = i + 1;
    }
    assert(input@.subrange(0, i as int) == input@);
    proof {
        if has_letter(input@) {
            let k = choose|k: int| 0 <= k < input@.len() && is_alpha(#[trigger] input@[k]);
            assert(!(last == chars.len()));
            let m = choose|m: int| 0 <= m < i && #[trigger] output@[m] != input@[m];
            assert(output@[m] != input@[m]);
        }
    }
    output
}

/// Free-text pseudonym: one random symbol of the free-text alphabet for each
/// character of `input`; it differs from a non-empty `input` in the first character.
pub fn obfuscate_string_with_syms(input: &str) -> (output: String)
    ensures
        output@.len() == input@.len(),
        forall|i: int| 0 <= i < output@.len() ==> is_text_symbol(#[trigger] output@[i]),
        input@.len() > 0 ==> output@[0] != input@[0],
{
    let chars = chars_of(input);
    let n = chars.len();
    let mut output = String::new();
    let mut i: usize = 0;
    while i < n
        invariant
            chars@ == input@,
            n == input@.len(),
            i <= n,
            output@.len() == i,
            forall|j: int| 0 <= j < output@.len() ==> is_text_symbol(#[trigger] output@[j]),
            i > 0 ==> output@[0] != input@[0],
        decreases n - i,
    {
        let mut c = random_text_symbol();
        if i == 0 && c == chars[0] {
            c = if c == 'A' { 'B' } else { 'A' };
        }
        push_char(&mut output, c);
        i = i + 1;
    }
    output
}

/// A random lower-case letter other than `c`.
fn random_lower_except(c: char) -> (r: char)
    ensures
        is_lower(r),
        r != c,
{
    if is_lower_exec(c) {
        random_other_letter(c)
    } else {
        random_lower()
    }
}

fn is_lower_exec(c: char) -> (r: bool)
    ensures
        r == is_lower(c),
{
    'a' <= c && c <= 'z'
}

/// Debug-info name pseudonym: a random lower-case letter followed by random letters,
/// as many as `name` has UTF-8 bytes (at least one); its first letter differs from
/// the first character of `name`.
pub fn obfuscate_name(name: &str) -> (output: String)
    ensures
        is_name_pseudonym(encode_utf8(name@).len(), output@),
        encode_utf8(output@).len() == if name@.len() == 0 { 1 } else { encode_utf8(name@).len() },
        output@ != name@,
{
    let n = name.as_bytes_vec().len();
    let chars = name.unicode_len();
    let mut output = String::new();
    let first = if chars > 0 { random_lower_except(name.get_char(0)) } else { random_lower() };
    push_char(&mut output, first);
    let mut i: usize = 1;
    while i < n
        invariant
            n == encode_utf8(name@).len(),
            chars == name@.len(),
            1 <= i,
            output@.len() == i,
            n > 0 ==> i <= n,
            n == 0 ==> i == 1,
            is_lower(output@[0]),
            output@[0] == first,
            chars > 0 ==> first != name@[0],
            forall|j: int| 0 <= j < output@.len() ==> is_alpha(#[trigger] output@[j]),
        decreases n - i,
    {
        push_char(&mut output, random_letter());
        i = i + 1;
    }
    proof {
        assert(vstd::utf8::is_ascii_chars(output@));
        vstd::utf8::is_ascii_chars_encode_utf8(output@);
        if chars == 0 {
            assert(name@ =~= Seq::<char>::empty());
            assert(encode_utf8(name@).len() == 0);
        } else {
            assert(encode_utf8(name@) == vstd::utf8::encode_scalar(name@[0] as u32) + encode_utf8(name@.drop_first()));
            assert(vstd::utf8::encode_scalar(name@[0] as u32).len() > 0);
        }
        if chars > 0 {
            assert(output@[0] != name@[0]);
        } else {
            assert(output@.len() != name@.len());
        }
    }
    output
}

} // verus!

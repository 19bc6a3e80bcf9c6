//! Text handling: usernames are compared after trimming surrounding
//! whitespace and lower-casing, and strings are rebuilt from UTF-8 bytes.

use vstd::prelude::*;
use vstd::utf8::*;

verus! {

broadcast use {encode_utf8_valid_utf8, encode_utf8_decode_utf8};

/// Whether a character has Unicode's White_Space property, which is what
/// `char::is_whitespace` and `str::trim` go by.
pub open spec fn is_white_space(c: char) -> bool {
    ||| '\u{9}' <= c <= '\u{d}'
    ||| c == ' '
    ||| c == '\u{85}'
    ||| c == '\u{a0}'
    ||| c == '\u{1680}'
    ||| '\u{2000}' <= c <= '\u{200a}'
    ||| c == '\u{2028}'
    ||| c == '\u{2029}'
    ||| c == '\u{202f}'
    ||| c == '\u{205f}'
    ||| c == '\u{3000}'
}

/// The string without its leading whitespace.
pub open spec fn trim_start(s: Seq<char>) -> Seq<char>
    decreases s.len(),
{
    if s.len() > 0 && is_white_space(s[0]) {
        trim_start(s.drop_first())
    } else {
        s
    }
}

/// The string without its trailing whitespace.
pub open spec fn trim_end(s: Seq<char>) -> Seq<char>
    decreases s.len(),
{
    if s.len() > 0 && is_white_space(s.last()) {
        trim_end(s.drop_last())
    } else {
        s
    }
}

/// The string without leading and trailing whitespace.
pub open spec fn trimmed(s: Seq<char>) -> Seq<char> {
    trim_end(trim_start(s))
}

/// What `str::to_lowercase` returns for a string.
pub uninterp spec fn lower_of(s: Seq<char>) -> Seq<char>;

/// Unicode's lower-case mapping on an ASCII character: `A` to `Z` become
/// `a` to `z`, and every other character stays as it is.
pub open spec fn ascii_lower_char(c: char) -> char {
    if 'A' <= c <= 'Z' {
        ((c as u32) + 32) as char
    } else {
        c
    }
}

/// The lower-case form of an ASCII string, character by character.
pub open spec fn ascii_lower(s: Seq<char>) -> Seq<char> {
    Seq::new(s.len(), |i: int| ascii_lower_char(s[i]))
}

/// Relies on `str::trim`: the string without leading and trailing
/// characters that have Unicode's White_Space property.
#[verifier::external_body]
pub(crate) fn trim_str<'a>(s: &'a str) -> (r: &'a str)
    ensures
        r@ == trimmed(s@),
{
    s.trim()
}

/// Relies on `str::to_lowercase`: the lower-case form of the string under
/// Unicode's mapping, which on ASCII characters lower-cases `A` to `Z` and
/// keeps the rest.
#[verifier::external_body]
fn lowercase(s: &str) -> (r: String)
    ensures
        r@ == lower_of(s@),
        is_ascii_chars(s@) ==> r@ == ascii_lower(s@),
{
    s.to_lowercase()
}

/// Relies on `String::from_utf8`: it accepts exactly the byte sequences that
/// are valid UTF-8, and then holds the characters they encode.
#[verifier::external_body]
pub(crate) fn string_from_utf8(bytes: Vec<u8>) -> (r: Option<String>)
    ensures
        r is Some <==> valid_utf8(bytes@),
        r matches Some(s) ==> s@ == decode_utf8(bytes@),
{
    String::from_utf8(bytes).ok()
}

/// The form in which usernames are stored and compared: surrounding
/// whitespace removed, then lower-cased.
pub open spec fn normalized(name: Seq<char>) -> Seq<char> {
    lowered(trimmed(name))
}

/// The lower-case form of a string: for ASCII strings it is spelled out, for
/// the others it is what `str::to_lowercase` returns.
pub open spec fn lowered(s: Seq<char>) -> Seq<char> {
    if is_ascii_chars(s) {
        ascii_lower(s)
    } else {
        lower_of(s)
    }
}

/// Trims and lower-cases a username.
pub fn normalize_username(name: &str) -> (r: String)
    ensures
        r@ == normalized(name@),
{
    lowercase(trim_str(name))
}

proof fn lemma_trim_start_suffix(s: Seq<char>)
    ensures
        trim_start(s).len() <= s.len(),
        trim_start(s) == s.subrange(s.len() - trim_start(s).len(), s.len() as int),
        trim_start(s).len() > 0 ==> !is_white_space(trim_start(s)[0]),
    decreases s.len(),
{
    if s.len() > 0 && is_white_space(s[0]) {
        lemma_trim_start_suffix(s.drop_first());
        assert(s.drop_first().subrange(
            s.drop_first().len() - trim_start(s).len(),
            s.drop_first().len() as int,
        ) =~= s.subrange(s.len() - trim_start(s).len(), s.len() as int));
    } else {
        assert(s.subrange(0, s.len() as int) =~= s);
    }
}

proof fn lemma_trim_end_prefix(s: Seq<char>)
    ensures
        trim_end(s).len() <= s.len(),
        trim_end(s) == s.subrange(0, trim_end(s).len() as int),
        trim_end(s).len() > 0 ==> !is_white_space(trim_end(s).last()),
    decreases s.len(),
{
    if s.len() > 0 && is_white_space(s.last()) {
        lemma_trim_end_prefix(s.drop_last());
        assert(s.drop_last().subrange(0, trim_end(s).len() as int) =~= s.subrange(
            0,
            trim_end(s).len() as int,
        ));
    } else {
        assert(s.subrange(0, s.len() as int) =~= s);
    }
}

/// A trimmed string is a part of the input, and neither starts nor ends
/// with whitespace.
proof fn lemma_trimmed_shape(s: Seq<char>)
    ensures
        exists|i: int, j: int| 0 <= i <= j <= s.len() && trimmed(s) == s.subrange(i, j),
        trimmed(s).len() > 0 ==> !is_white_space(trimmed(s)[0]) && !is_white_space(
            trimmed(s).last(),
        ),
{
    let a = trim_start(s);
    lemma_trim_start_suffix(s);
    lemma_trim_end_prefix(a);
    let t = trimmed(s);
    let i = s.len() - a.len();
    assert(t =~= s.subrange(i, i + t.len()));
    if t.len() > 0 {
        assert(t[0] == a[0]);
    }
}

/// A string that neither starts nor ends with whitespace is its own trimmed
/// form.
proof fn lemma_trimmed_fixed(t: Seq<char>)
    requires
        t.len() > 0 ==> !is_white_space(t[0]) && !is_white_space(t.last()),
    ensures
        trimmed(t) == t,
{
}

/// Normalizing an ASCII username a second time changes nothing: the
/// normalized form neither starts nor ends with whitespace and holds no
/// upper-case letter.
pub proof fn law_normalization_idempotent(name: Seq<char>)
    requires
        is_ascii_chars(name),
    ensures
        normalized(normalized(name)) == normalized(name),
{
    let t = trimmed(name);
    lemma_trimmed_shape(name);
    let (i, j) = choose|i: int, j: int| 0 <= i <= j <= name.len() && t == name.subrange(i, j);
    assert(is_ascii_chars(t)) by {
        assert forall|k: int| 0 <= k < t.len() implies '\0' <= #[trigger] t[k] <= '\u{7f}' by {
            assert(t[k] == name[i + k]);
        }
    }
    let l = ascii_lower(t);
    assert(normalized(name) == l);
    assert(is_ascii_chars(l)) by {
        assert forall|k: int| 0 <= k < l.len() implies '\0' <= #[trigger] l[k] <= '\u{7f}' by {
            assert(l[k] == ascii_lower_char(t[k]));
        }
    }
    if l.len() > 0 {
        assert(l[0] == ascii_lower_char(t[0]));
        assert(l.last() == ascii_lower_char(t.last()));
    }
    lemma_trimmed_fixed(l);
    assert(ascii_lower(l) =~= l);
}

/// An ASCII name with no surrounding whitespace and no upper-case letter is
/// its own normalized form.
pub proof fn lemma_normal_name(s: Seq<char>)
    requires
        is_ascii_chars(s),
        s.len() > 0 ==> !is_white_space(s[0]) && !is_white_space(s.last()),
        forall|k: int| 0 <= k < s.len() ==> !('A' <= #[trigger] s[k] <= 'Z'),
    ensures
        normalized(s) == s,
{
    lemma_trimmed_fixed(s);
    assert(ascii_lower(s) =~= s);
}

/// The UTF-8 encoding of a concatenation is the concatenation of the
/// encodings.
pub proof fn lemma_encode_utf8_concat(a: Seq<char>, b: Seq<char>)
    ensures
        encode_utf8(a + b) == encode_utf8(a) + encode_utf8(b),
    decreases a.len(),
{
    if a.len() == 0 {
        assert(a + b =~= b);
    } else {
        assert((a + b).drop_first() =~= a.drop_first() + b);
        lemma_encode_utf8_concat(a.drop_first(), b);
    }
}

/// Concatenates two strings.
pub fn concat_str(a: &str, b: &str) -> (r: String)
    ensures
        r@ == a@ + b@,
{
    let mut bytes: Vec<u8> = Vec::new();
    bytes.extend_from_slice(a.as_bytes());
    bytes.extend_from_slice(b.as_bytes());
    proof {
        lemma_encode_utf8_concat(a@, b@);
        assert(bytes@ =~= encode_utf8(a@ + b@));
    }
    match string_from_utf8(bytes) {
        Some(s) => s,
        None => {
            proof {
                assert(false);
            }
            String::new()
        },
    }
}

/// The greeting addressed to a user: `Hello ` followed by the name.
pub fn greet_user(name: &str) -> (r: String)
    ensures
        r@ == "Hello "@ + name@,
{
    concat_str("Hello ", name)
}

/// Whether the name, trimmed and lower-cased, is `herbert`.
pub fn is_login_allowed(name: &str) -> (r: bool)
    ensures
        r == (normalized(name@) == "herbert"@),
{
    let n = normalize_username(name);
    let expected = "herbert".to_owned();
    n == expected
}

} // verus!

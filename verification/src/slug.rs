//! Anchor slugs: the fragment under which a heading can be linked to.
use vstd::prelude::*;
use vstd::string::StringExecFns;
use vstd::utf8::encode_utf8;
use vstd::utf8::is_ascii_chars;
use vstd::utf8::is_ascii_chars_encode_utf8;
use crate::text::chars_of;
use crate::text::other_than;
use crate::text::push_char;
use crate::text::remove_char;
use crate::text::remove_char_in;
use crate::text::replace_char;
use crate::text::replace_char_in;
use crate::text::string_of;

verus! {

/// The lower-case form of an ASCII character: `A` to `Z` become `a` to
/// `z`, every other character stays.
pub open spec fn ascii_lower(c: char) -> char {
    if 'A' <= c && c <= 'Z' {
        ((c as u8 + 32) as u8) as char
    } else {
        c
    }
}

/// What `str::to_lowercase` returns for a string with characters outside
/// the ASCII range.
pub uninterp spec fn unicode_lowercase(s: Seq<char>) -> Seq<char>;

/// The lower-case form of `s`. An ASCII string is lowered letter by
/// letter; for any other the result is only named.
pub open spec fn lowercase(s: Seq<char>) -> Seq<char> {
    if is_ascii_chars(s) {
        s.map_values(|c: char| ascii_lower(c))
    } else {
        unicode_lowercase(s)
    }
}

/// Lower-cases a string.
///
/// Trusted: stands for `str::to_lowercase`, which returns the lower-case
/// equivalent of the string under Unicode's mapping. On ASCII letters that
/// mapping is `A`-`Z` to `a`-`z` and it leaves the rest of ASCII alone;
/// what it does to other text is named, not stated.
#[verifier::external_body]
pub(crate) fn to_lowercase(s: &str) -> (r: String)
    ensures
        r@ == if is_ascii_chars(s@) {
            s@.map_values(|c: char| ascii_lower(c))
        } else {
            unicode_lowercase(s@)
        },
{
    s.to_lowercase()
}

/// The upper-case hexadecimal digit for `n`, which is below 16.
pub open spec fn hex_digit(n: u8) -> char {
    if n < 10 {
        ((0x30 + n) as u8) as char
    } else {
        ((0x37 + n) as u8) as char
    }
}

/// Whether a byte is written as an escape: the control bytes 0x00 to 0x1F
/// and 0x7F, and every byte outside the ASCII range.
pub open spec fn is_escaped(b: u8) -> bool {
    b < 0x20 || b >= 0x7f
}

/// How one byte is written: `%` and two hexadecimal digits if it is
/// escaped, the byte's own character if not.
pub open spec fn escape(b: u8) -> Seq<char> {
    if is_escaped(b) {
        seq!['%', hex_digit(b / 16), hex_digit(b % 16)]
    } else {
        seq![b as char]
    }
}

/// The percent-encoding of `bytes` that escapes control and non-ASCII
/// bytes.
pub open spec fn percent_encoded(bytes: Seq<u8>) -> Seq<char>
    decreases bytes.len(),
{
    if bytes.len() == 0 {
        Seq::empty()
    } else {
        escape(bytes.first()) + percent_encoded(bytes.drop_first())
    }
}

/// Percent-encodes the UTF-8 bytes of a string, escaping control bytes.
///
/// Trusted: stands for `percent_encoding::percent_encode` with the set
/// `CONTROLS`, rendered through `to_string`. The crate replaces each byte
/// that is outside ASCII or in the set (0x00 to 0x1F, and 0x7F) by `%` and
/// the byte's two upper-case hexadecimal digits, and copies every other
/// byte.
#[verifier::external_body]
pub(crate) fn percent_encode_controls(text: &str) -> (out: String)
    ensures
        out@ == percent_encoded(encode_utf8(text@)),
{
    percent_encoding::percent_encode(text.as_bytes(), percent_encoding::CONTROLS).to_string()
}

/// Whether `c` is an ASCII control character: one below U+0020, or
/// U+007F.
pub open spec fn is_control(c: char) -> bool {
    c < ' ' || c == '\u{7f}'
}

/// How one character is written in a slug: an ASCII control character as
/// `%` and the two upper-case hexadecimal digits of its code, every other
/// character as itself.
pub open spec fn escape_char(c: char) -> Seq<char> {
    if is_control(c) {
        seq!['%', hex_digit(c as u8 / 16), hex_digit(c as u8 % 16)]
    } else {
        seq![c]
    }
}

/// `s` with its ASCII control characters escaped.
pub open spec fn escaped(s: Seq<char>) -> Seq<char>
    decreases s.len(),
{
    if s.len() == 0 {
        Seq::empty()
    } else {
        escaped(s.drop_last()) + escape_char(s.last())
    }
}

/// The slug of a title: spaces become hyphens, periods go, the rest is
/// lower-cased, and the ASCII control characters left in it are escaped.
/// Every other character stays as it is.
pub open spec fn slug_of(title: Seq<char>) -> Seq<char> {
    escaped(lowercase(remove_char(replace_char(title, ' ', '-'), '.')))
}

/// The percent-encoding of a single control character is its escape.
proof fn lemma_control_encoding(c: char)
    requires
        is_control(c),
    ensures
        percent_encoded(encode_utf8(seq![c])) == escape_char(c),
{
    let one = seq![c];
    assert(is_ascii_chars(one));
    is_ascii_chars_encode_utf8(one);
    let bytes = encode_utf8(one);
    assert(bytes[0] == one[0] as u8);
    assert(bytes.drop_first().len() == 0);
    assert(percent_encoded(bytes.drop_first()) == Seq::<char>::empty());
    assert(percent_encoded(bytes) == escape(bytes.first()) + Seq::<char>::empty());
    assert(percent_encoded(bytes) == escape_char(c));
}

/// Escapes the ASCII control characters of `v` and copies the rest.
pub fn escape_controls(v: &Vec<char>) -> (out: String)
    ensures
        out@ == escaped(v@),
{
    let mut out = String::new();
    let mut i: usize = 0;
    while i < v.len()
        invariant
            i <= v.len(),
            out@ == escaped(v@.take(i as int)),
        decreases v.len() - i,
    {
        let c = v[i];
        proof {
            assert(v@.take(i + 1).drop_last() == v@.take(i as int));
        }
        if c < ' ' || c == '\u{7f}' {
            let mut one = String::new();
            push_char(&mut one, c);
            assert(one@ == seq![c]);
            let code = percent_encode_controls(one.as_str());
            proof {
                lemma_control_encoding(c);
            }
            out.append(code.as_str());
        } else {
            push_char(&mut out, c);
            assert(out@ == escaped(v@.take(i as int)) + seq![c]);
        }
        i += 1;
    }
    assert(v@.take(v.len() as int) == v@);
    out
}

/// Derives the anchor slug of a title. No ASCII control character is left
/// in the slug.
///
/// Equal titles give equal slugs: nothing tells two headings of the same
/// text apart.
pub fn slugify(text: &str) -> (slug: String)
    ensures
        slug@ == slug_of(text@),
        forall|i: int| 0 <= i < slug@.len() ==> !is_control(#[trigger] slug@[i]),
{
    let chars = chars_of(text);
    let hyphenated = replace_char_in(&chars, ' ', '-');
    let kept = remove_char_in(&hyphenated, '.');
    let lowered = to_lowercase(string_of(&kept).as_str());
    let slug = escape_controls(&chars_of(lowered.as_str()));
    proof {
        assert(slug@ == slug_of(text@));
        lemma_slug_has_no_control(text@);
    }
    slug
}

/// Escaping leaves no ASCII control character.
pub proof fn lemma_escaped_has_no_control(s: Seq<char>)
    ensures
        forall|i: int| 0 <= i < escaped(s).len() ==> !is_control(#[trigger] escaped(s)[i]),
    decreases s.len(),
{
    if s.len() > 0 {
        lemma_escaped_has_no_control(s.drop_last());
        let front = escaped(s.drop_last());
        let back = escape_char(s.last());
        assert forall|i: int| 0 <= i < back.len() implies !is_control(#[trigger] back[i]) by {}
        assert forall|i: int| 0 <= i < escaped(s).len() implies !is_control(
            #[trigger] escaped(s)[i],
        ) by {
            if i < front.len() {
                assert(escaped(s)[i] == front[i]);
            } else {
                assert(escaped(s)[i] == back[i - front.len()]);
            }
        }
    }
}

/// Escaping changes nothing where there is no ASCII control character.
pub proof fn lemma_escaped_keeps_plain_text(s: Seq<char>)
    requires
        forall|i: int| 0 <= i < s.len() ==> !is_control(#[trigger] s[i]),
    ensures
        escaped(s) == s,
    decreases s.len(),
{
    if s.len() > 0 {
        let front = s.drop_last();
        assert forall|i: int| 0 <= i < front.len() implies !is_control(#[trigger] front[i]) by {
            assert(front[i] == s[i]);
        }
        lemma_escaped_keeps_plain_text(front);
        assert(front + seq![s.last()] == s);
    }
}

/// No slug holds an ASCII control character.
pub proof fn lemma_slug_has_no_control(title: Seq<char>)
    ensures
        forall|i: int| 0 <= i < slug_of(title).len() ==> !is_control(#[trigger] slug_of(title)[i]),
{
    lemma_escaped_has_no_control(lowercase(remove_char(replace_char(title, ' ', '-'), '.')));
}

/// What a removal keeps is another character than the one removed, and
/// stood in the sequence before.
proof fn lemma_removed_char_is_gone(s: Seq<char>, c: char)
    ensures
        forall|i: int|
            0 <= i < remove_char(s, c).len() ==> (#[trigger] remove_char(s, c)[i]) != c
                && s.contains(remove_char(s, c)[i]),
    decreases s.len(),
{
    reveal(Seq::filter);
    if s.len() > 0 {
        let front = s.drop_last();
        lemma_removed_char_is_gone(front, c);
        assert forall|i: int| 0 <= i < remove_char(s, c).len() implies (#[trigger] remove_char(
            s,
            c,
        )[i]) != c && s.contains(remove_char(s, c)[i]) by {
            if i < remove_char(front, c).len() {
                let x = remove_char(front, c)[i];
                assert(remove_char(s, c)[i] == x);
                let j = choose|j: int| 0 <= j < front.len() && front[j] == x;
                assert(s[j] == x);
            } else {
                assert(remove_char(s, c)[i] == s.last());
                assert(s[s.len() - 1] == s.last());
            }
        }
    }
}

/// Escaping brings in `%` and hexadecimal digits only: a character that
/// is none of them and does not stand in `s` does not stand in its
/// escaped form.
proof fn lemma_escaped_brings_no(s: Seq<char>, c: char)
    requires
        c == ' ' || c == '.',
        forall|i: int| 0 <= i < s.len() ==> #[trigger] s[i] != c,
    ensures
        forall|i: int| 0 <= i < escaped(s).len() ==> #[trigger] escaped(s)[i] != c,
    decreases s.len(),
{
    if s.len() > 0 {
        let rest = s.drop_last();
        assert forall|i: int| 0 <= i < rest.len() implies #[trigger] rest[i] != c by {
            assert(rest[i] == s[i]);
        }
        lemma_escaped_brings_no(rest, c);
        let front = escaped(rest);
        let back = escape_char(s.last());
        assert(s[s.len() - 1] != c);
        assert forall|i: int| 0 <= i < back.len() implies #[trigger] back[i] != c by {}
        assert forall|i: int| 0 <= i < escaped(s).len() implies #[trigger] escaped(s)[i] != c by {
            if i < front.len() {
                assert(escaped(s)[i] == front[i]);
            } else {
                assert(escaped(s)[i] == back[i - front.len()]);
            }
        }
    }
}

/// The slug of an ASCII title holds neither a space nor a period.
pub proof fn lemma_ascii_slug_has_no_space_or_period(title: Seq<char>)
    requires
        is_ascii_chars(title),
    ensures
        forall|i: int|
            0 <= i < slug_of(title).len() ==> (#[trigger] slug_of(title)[i]) != ' ' && slug_of(
                title,
            )[i] != '.',
{
    let hyphenated = replace_char(title, ' ', '-');
    let kept = remove_char(hyphenated, '.');
    lemma_removed_char_is_gone(hyphenated, '.');
    assert forall|i: int| 0 <= i < kept.len() implies (#[trigger] kept[i]) != ' ' && kept[i] != '.'
        && kept[i] <= '\u{7f}' by {
        let x = kept[i];
        assert(hyphenated.contains(x));
        let j = choose|j: int| 0 <= j < hyphenated.len() && hyphenated[j] == x;
        assert(title[j] <= '\u{7f}');
    }
    assert(is_ascii_chars(kept));
    let lowered = lowercase(kept);
    assert forall|i: int| 0 <= i < lowered.len() implies (#[trigger] lowered[i]) != ' '
        && lowered[i] != '.' by {
        assert(kept[i] != ' ' && kept[i] != '.');
    }
    lemma_escaped_brings_no(lowered, ' ');
    lemma_escaped_brings_no(lowered, '.');
}

/// Whether `c` is neither a space, nor a period, nor an ASCII control
/// character.
pub open spec fn is_plain(c: char) -> bool {
    c != ' ' && c != '.' && !is_control(c)
}

/// A filter keeps a sequence whole when every element passes.
proof fn lemma_filter_keeps_all(s: Seq<char>, pred: spec_fn(char) -> bool)
    requires
        forall|i: int| 0 <= i < s.len() ==> pred(#[trigger] s[i]),
    ensures
        s.filter(pred) == s,
    decreases s.len(),
{
    reveal(Seq::filter);
    if s.len() > 0 {
        lemma_filter_keeps_all(s.drop_last(), pred);
        assert(s.drop_last().push(s.last()) == s);
    }
}

/// A title without spaces, periods and ASCII control characters has its
/// lower-case form as its slug, once that form holds no ASCII control
/// character either. That is so of every ASCII title; of others the
/// lower-case form is not spelled out here, so the slug is known as the
/// escaped lower-case form.
pub proof fn lemma_slug_of_plain_title(title: Seq<char>)
    requires
        forall|i: int| 0 <= i < title.len() ==> is_plain(#[trigger] title[i]),
    ensures
        slug_of(title) == escaped(lowercase(title)),
        (forall|i: int|
            0 <= i < lowercase(title).len() ==> !is_control(#[trigger] lowercase(title)[i]))
            ==> slug_of(title) == lowercase(title),
        is_ascii_chars(title) ==> slug_of(title) == lowercase(title),
{
    assert(replace_char(title, ' ', '-') == title);
    assert forall|i: int| 0 <= i < title.len() implies other_than('.')(#[trigger] title[i]) by {
        assert(is_plain(title[i]));
    }
    lemma_filter_keeps_all(title, other_than('.'));
    let lowered = lowercase(title);
    if forall|i: int| 0 <= i < lowered.len() ==> !is_control(#[trigger] lowered[i]) {
        lemma_escaped_keeps_plain_text(lowered);
    }
    if is_ascii_chars(title) {
        assert forall|i: int| 0 <= i < lowered.len() implies !is_control(#[trigger] lowered[i]) by {
            assert(is_plain(title[i]));
        }
        lemma_escaped_keeps_plain_text(lowered);
    }
}

} // verus!

//! Splitting and comparing text, stated over sequences of characters.

use vstd::prelude::*;
use vstd::string::*;
use vstd::utf8::*;

verus! {

/// The views of a sequence of string slices.
pub open spec fn str_views(items: Seq<&str>) -> Seq<Seq<char>> {
    items.map_values(|s: &str| s@)
}

/// Whether `i` is the position of the first `sep` in `s`.
pub open spec fn is_first_at(s: Seq<char>, sep: char, i: int) -> bool {
    &&& 0 <= i < s.len()
    &&& s[i] == sep
    &&& forall|k: int| 0 <= k < i ==> s[k] != sep
}

/// The position of the first `sep` in `s`, if there is one.
pub open spec fn first_index(s: Seq<char>, sep: char) -> Option<int>
    decreases s.len(),
{
    if s.len() == 0 {
        None
    } else if s[0] == sep {
        Some(0)
    } else {
        match first_index(s.drop_first(), sep) {
            Some(i) => Some(i + 1),
            None => None,
        }
    }
}

/// `s` cut at its first `sep`: what comes before and what comes after.
pub open spec fn split_once_spec(s: Seq<char>, sep: char) -> Option<(Seq<char>, Seq<char>)> {
    match first_index(s, sep) {
        Some(i) => Some((s.subrange(0, i), s.subrange(i + 1, s.len() as int))),
        None => None,
    }
}

/// `s` cut at every `sep`. The pieces may be empty and there is always at
/// least one.
pub open spec fn split_spec(s: Seq<char>, sep: char) -> Seq<Seq<char>>
    decreases s.len(),
{
    proof {
        lemma_first_index(s, sep);
    }
    match first_index(s, sep) {
        Some(i) => seq![s.subrange(0, i)] + split_spec(s.subrange(i + 1, s.len() as int), sep),
        None => seq![s],
    }
}

/// `first_index` finds exactly the first position that holds `sep`.
pub proof fn lemma_first_index(s: Seq<char>, sep: char)
    ensures
        match first_index(s, sep) {
            Some(i) => is_first_at(s, sep, i),
            None => forall|k: int| 0 <= k < s.len() ==> s[k] != sep,
        },
    decreases s.len(),
{
    if s.len() > 0 && s[0] != sep {
        let t = s.drop_first();
        lemma_first_index(t, sep);
        match first_index(t, sep) {
            Some(i) => {
                assert forall|k: int| 0 <= k < i + 1 implies s[k] != sep by {
                    if k > 0 {
                        assert(t[k - 1] == s[k]);
                    }
                }
                assert(t[i] == s[i + 1]);
            },
            None => {
                assert forall|k: int| 0 <= k < s.len() implies s[k] != sep by {
                    if k > 0 {
                        assert(t[k - 1] == s[k]);
                    }
                }
            },
        }
    }
}

/// A position that holds the first `sep` is what `first_index` returns.
pub proof fn lemma_first_index_is(s: Seq<char>, sep: char, i: int)
    requires
        is_first_at(s, sep, i),
    ensures
        first_index(s, sep) == Some(i),
{
    lemma_first_index(s, sep);
    match first_index(s, sep) {
        Some(j) => {
            if j < i {
                assert(s[j] != sep);
            } else if i < j {
                assert(s[i] != sep);
            }
        },
        None => {
            assert(s[i] != sep);
        },
    }
}

/// Without any `sep` in `s`, `first_index` returns nothing.
pub proof fn lemma_first_index_none(s: Seq<char>, sep: char)
    requires
        forall|k: int| 0 <= k < s.len() ==> s[k] != sep,
    ensures
        first_index(s, sep) is None,
{
    lemma_first_index(s, sep);
    match first_index(s, sep) {
        Some(j) => {
            assert(s[j] != sep);
        },
        None => {},
    }
}

/// Whether UTF-8 writes `c` as a single byte.
pub open spec fn is_ascii_char(c: char) -> bool {
    '\0' <= c <= '\u{7f}'
}

/// The encoding of a text is the encodings of its parts, one after the other.
pub proof fn lemma_encode_concat(a: Seq<char>, b: Seq<char>)
    ensures
        encode_utf8(a + b) == encode_utf8(a) + encode_utf8(b),
    decreases a.len(),
{
    if a.len() == 0 {
        assert(a + b == b);
    } else {
        assert((a + b).drop_first() == a.drop_first() + b);
        lemma_encode_concat(a.drop_first(), b);
    }
}

/// A single-byte character is encoded as that byte alone.
pub proof fn lemma_encode_ascii_char(c: char)
    requires
        is_ascii_char(c),
    ensures
        encode_utf8(seq![c]) == seq![c as u8],
        c as u8 <= 0x7f,
{
    let one = seq![c];
    assert(is_ascii_chars(one));
    is_ascii_chars_encode_utf8(one);
    assert(encode_utf8(one)[0] == one[0] as u8);
    assert(encode_utf8(one) =~= seq![c as u8]);
}

/// Where a text holds a single-byte character, its encoding holds that byte.
pub proof fn lemma_ascii_char_is_a_byte(chars: Seq<char>, i: int)
    requires
        0 <= i < chars.len(),
        is_ascii_char(chars[i]),
    ensures
        exists|k: int|
            0 <= k < encode_utf8(chars).len() && #[trigger] encode_utf8(chars)[k] == chars[i] as u8,
{
    let before = chars.subrange(0, i);
    let one = seq![chars[i]];
    let after = chars.subrange(i + 1, chars.len() as int);
    assert(chars == before + (one + after));
    lemma_encode_concat(before, one + after);
    lemma_encode_concat(one, after);
    lemma_encode_ascii_char(chars[i]);
    let k = encode_utf8(before).len() as int;
    assert(encode_utf8(chars)[k] == chars[i] as u8);
}

/// A text whose encoding does not hold the byte of a single-byte character
/// does not hold that character.
pub proof fn lemma_no_byte_no_char(chars: Seq<char>, sep: char)
    requires
        is_ascii_char(sep),
        forall|k: int| 0 <= k < encode_utf8(chars).len() ==> encode_utf8(chars)[k] != sep as u8,
    ensures
        forall|i: int| 0 <= i < chars.len() ==> chars[i] != sep,
{
    assert forall|i: int| 0 <= i < chars.len() implies chars[i] != sep by {
        if chars[i] == sep {
            lemma_ascii_char_is_a_byte(chars, i);
        }
    }
}

/// Cuts `s` at its first `sep`.
pub fn split_once_char<'a>(s: &'a str, sep: char) -> (r: Option<(&'a str, &'a str)>)
    requires
        is_ascii_char(sep),
    ensures
        match r {
            Some((before, after)) => split_once_spec(s@, sep) == Some((before@, after@)),
            None => split_once_spec(s@, sep) is None,
        },
{
    let bytes = s.as_bytes();
    let n: usize = bytes.len();
    let target: u8 = sep as u8;
    proof {
        lemma_encode_ascii_char(sep);
        encode_utf8_valid_utf8(s@);
        encode_utf8_decode_utf8(s@);
    }
    let mut k: usize = 0;
    while k < n && bytes[k] != target
        invariant
            n == bytes@.len(),
            k <= n,
            forall|j: int| 0 <= j < k ==> bytes@[j] != target,
        decreases n - k,
    {
        k += 1;
    }
    if k < n {
        let ghost all = s.spec_bytes();
        proof {
            is_char_boundary_iff_not_is_continuation_byte(all, k as int);
        }
        let (before, tail) = s.split_at(k);
        let ghost rest = tail.spec_bytes();
        proof {
            encode_utf8_valid_utf8(tail@);
            encode_utf8_decode_utf8(tail@);
            encode_utf8_decode_utf8(before@);
            decode_utf8_split(all, k as int);
            assert(s@ == before@ + tail@);
            assert(rest[0] == target);
            reveal_with_fuel(is_char_boundary, 2);
            assert(is_char_boundary(rest, 1));
        }
        let (first, after) = tail.split_at(1);
        proof {
            encode_utf8_decode_utf8(first@);
            encode_utf8_decode_utf8(after@);
            encode_utf8_decode_utf8(seq![sep]);
            decode_utf8_split(rest, 1);
            assert(first.spec_bytes() =~= seq![target]);
            assert(first@ == seq![sep]);
            assert(tail@ == seq![sep] + after@);
            lemma_no_byte_no_char(before@, sep);
            let i = before@.len() as int;
            assert(s@[i] == sep);
            assert forall|j: int| 0 <= j < i implies s@[j] != sep by {
                assert(s@[j] == before@[j]);
            }
            lemma_first_index_is(s@, sep, i);
            assert(s@.subrange(0, i) == before@);
            assert(s@.subrange(i + 1, s@.len() as int) == after@);
        }
        Some((before, after))
    } else {
        proof {
            lemma_no_byte_no_char(s@, sep);
            lemma_first_index_none(s@, sep);
        }
        None
    }
}

/// Cuts `s` at every `sep`, keeping the empty pieces.
pub fn split_char<'a>(s: &'a str, sep: char) -> (pieces: Vec<&'a str>)
    requires
        is_ascii_char(sep),
    ensures
        str_views(pieces@) == split_spec(s@, sep),
{
    let mut pieces: Vec<&'a str> = Vec::new();
    let mut rest: &'a str = s;
    proof {
        assert(str_views(pieces@) + split_spec(s@, sep) == split_spec(s@, sep));
    }
    loop
        invariant
            is_ascii_char(sep),
            split_spec(s@, sep) == str_views(pieces@) + split_spec(rest@, sep),
        decreases rest@.len(),
    {
        let ghost before = pieces@;
        proof {
            lemma_first_index(rest@, sep);
        }
        match split_once_char(rest, sep) {
            Some((head, tail)) => {
                pieces.push(head);
                proof {
                    assert(str_views(pieces@) == str_views(before) + seq![head@]);
                }
                rest = tail;
            },
            None => {
                pieces.push(rest);
                proof {
                    assert(str_views(pieces@) == str_views(before) + seq![rest@]);
                }
                return pieces;
            },
        }
    }
}

/// Whether two string slices hold the same characters.
pub fn str_eq(a: &str, b: &str) -> (same: bool)
    ensures
        same == (a@ == b@),
{
    let x = a.as_bytes();
    let y = b.as_bytes();
    proof {
        encode_utf8_decode_utf8(a@);
        encode_utf8_decode_utf8(b@);
    }
    if x.len() != y.len() {
        return false;
    }
    let n: usize = x.len();
    let mut i: usize = 0;
    while i < n
        invariant
            n == x@.len(),
            n == y@.len(),
            x@ == a.spec_bytes(),
            y@ == b.spec_bytes(),
            i <= n,
            forall|k: int| 0 <= k < i ==> x@[k] == y@[k],
        decreases n - i,
    {
        if x[i] != y[i] {
            return false;
        }
        i += 1;
    }
    assert(x@ =~= y@);
    true
}

} // verus!

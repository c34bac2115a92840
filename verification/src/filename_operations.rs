//! What file names are made of and how they are shown, in terms of the single
//! bytes of a name and of their places.
//!
//! Every law here is about a call: `call_ensures` relates the arguments of an
//! operation to what it returned, and the law says what the two have to do with
//! one another.
use crate::filename::{
    acceptable, display_text, lemma_find_byte_bounds, lemma_first_rejected, lemma_name_length,
    lemma_splits, short_name, shown, splits, valid_char, FilenameError, ShortFileName,
};
use vstd::prelude::*;

verus! {

/// Whether a byte may stand in the base or the extension of a name: it is 7-bit
/// ASCII, no control character, no space, no period and none of
/// `"` `*` `+` `,` `/` `:` `;` `<` `=` `>` `?` `[` `\` `]` `|`.
pub open spec fn plain(c: u8) -> bool {
    ||| c == 0x21
    ||| 0x23 <= c <= 0x29
    ||| c == 0x2D
    ||| 0x30 <= c <= 0x39
    ||| 0x40 <= c <= 0x5A
    ||| 0x5E <= c <= 0x7B
    ||| 0x7D <= c <= 0x7F
}

/// Whether a name begins with a base of `base` bytes, `dots` periods, and `ext`
/// bytes of an extension.
pub open spec fn begins(name: Seq<u8>, base: int, dots: int, ext: int) -> bool {
    &&& 0 <= base <= 8
    &&& 0 <= dots
    &&& 0 <= ext <= 3
    &&& dots > 0 ==> base > 0
    &&& ext > 0 ==> dots > 0
    &&& base + dots + ext <= name.len()
    &&& forall|i: int| 0 <= i < base ==> plain(#[trigger] name[i])
    &&& forall|i: int| base <= i < base + dots ==> #[trigger] name[i] == 0x2E
    &&& forall|i: int| base + dots <= i < base + dots + ext ==> plain(#[trigger] name[i])
}

/// Whether a name goes no further than its beginning, because it ends there or
/// because the byte that follows cannot stand there.
pub open spec fn stops(name: Seq<u8>, base: int, dots: int, ext: int) -> bool {
    let c = name[base + dots + ext];
    ||| base + dots + ext == name.len()
    ||| !plain(c) && c != 0x2E
    ||| c == 0x2E && (base == 0 || ext > 0)
    ||| plain(c) && ((base == 8 && dots == 0) || ext == 3)
}

/// Every name begins with a base, periods and an extension, however short, and
/// goes no further.
pub proof fn law_every_name_stops(name: Seq<u8>) -> (parts: (int, int, int))
    ensures
        begins(name, parts.0, parts.1, parts.2),
        stops(name, parts.0, parts.1, parts.2),
{
    lemma_name_stops(name, 0, 0, 0)
}

/// A beginning of a name that goes further can be extended by a byte.
proof fn lemma_name_stops(name: Seq<u8>, base: int, dots: int, ext: int) -> (parts: (int, int, int))
    requires
        begins(name, base, dots, ext),
    ensures
        begins(name, parts.0, parts.1, parts.2),
        stops(name, parts.0, parts.1, parts.2),
    decreases name.len() - (base + dots + ext),
{
    if stops(name, base, dots, ext) {
        (base, dots, ext)
    } else if name[base + dots + ext] == 0x2E {
        lemma_name_stops(name, base, dots + 1, ext)
    } else if dots == 0 {
        lemma_name_stops(name, base + 1, dots, ext)
    } else {
        lemma_name_stops(name, base, dots, ext + 1)
    }
}

/// The upper-case letter of a lower-case one; any other byte is left.
pub open spec fn capital(c: u8) -> u8 {
    if 0x61 <= c <= 0x7A {
        (c - 0x20) as u8
    } else {
        c
    }
}

/// Whether `result` is what a name comes to that stops after its beginning. A
/// name that ends there is stored: the base in the first eight places and the
/// extension in the last three, with spaces in the places that are left. A name
/// that goes on is refused for the byte that follows.
pub open spec fn comes_to(
    name: Seq<u8>,
    base: int,
    dots: int,
    ext: int,
    keep_case: bool,
    result: Result<ShortFileName, FilenameError>,
) -> bool {
    let end = base + dots + ext;
    let c = name[end];
    match result {
        Ok(sfn) => {
            &&& end == name.len()
            &&& base > 0
            &&& sfn@.len() == 11
            &&& forall|i: int|
                0 <= i < 8 ==> #[trigger] sfn@[i] == if i >= base {
                    0x20
                } else if keep_case {
                    name[i]
                } else {
                    capital(name[i])
                }
            &&& forall|i: int|
                8 <= i < 11 ==> #[trigger] sfn@[i] == if i - 8 >= ext {
                    0x20
                } else if keep_case {
                    name[base + dots + (i - 8)]
                } else {
                    capital(name[base + dots + (i - 8)])
                }
        },
        Err(e) => if end == name.len() {
            base == 0 && e == FilenameError::FilenameEmpty
        } else if c == 0x2E {
            e == FilenameError::MisplacedPeriod
        } else if plain(c) {
            e == FilenameError::NameTooLong
        } else {
            e == FilenameError::InvalidCharacter
        },
    }
}

/// The beginning of a name is acceptable, byte by byte.
proof fn lemma_beginning(name: Seq<u8>, base: int, dots: int, ext: int, n: int)
    requires
        begins(name, base, dots, ext),
        0 < n <= base + dots + ext,
    ensures
        splits(
            name.take(n),
            if n < base {
                n
            } else {
                base
            },
            if n < base + dots {
                n
            } else {
                base + dots
            },
        ),
        acceptable(name.take(n)),
{
    let s = name.take(n);
    let b = if n < base {
        n
    } else {
        base
    };
    let x = if n < base + dots {
        n
    } else {
        base + dots
    };
    assert(splits(s, b, x));
    lemma_splits(s, b, x);
    assert forall|i: int| 0 <= i < s.len() implies valid_char(#[trigger] s[i]) by {
        assert(s[i] == name[i]);
    }
    assert forall|i: int| 0 <= i < s.skip(x).len() implies s.skip(x)[i] != 0x2E by {
        assert(s.skip(x)[i] == name[x + i]);
    }
}

/// What a name comes to rests on its beginning and on the byte that follows.
proof fn lemma_comes_to(
    name: Seq<u8>,
    base: int,
    dots: int,
    ext: int,
    keep_case: bool,
    result: Result<ShortFileName, FilenameError>,
)
    requires
        begins(name, base, dots, ext),
        stops(name, base, dots, ext),
        match result {
            Ok(sfn) => short_name(name, keep_case) == Ok::<Seq<u8>, FilenameError>(sfn@),
            Err(e) => short_name(name, keep_case) == Err::<Seq<u8>, FilenameError>(e),
        },
    ensures
        comes_to(name, base, dots, ext, keep_case, result),
{
    let end = base + dots + ext;
    assert forall|j: int| 0 <= j < end implies acceptable(#[trigger] name.take(j + 1)) by {
        lemma_beginning(name, base, dots, ext, j + 1);
    }
    if end < name.len() {
        let s = name.take(end + 1);
        let c = name[end];
        assert(s[end] == c);
        if !plain(c) && c != 0x2E {
            assert(!valid_char(s[end]));
        } else if base == 0 {
            assert(splits(s, 0, 1));
            lemma_splits(s, 0, 1);
        } else if dots == 0 {
            assert(splits(s, end + 1, end + 1));
            lemma_splits(s, end + 1, end + 1);
        } else {
            assert(splits(s, base, base + dots));
            lemma_splits(s, base, base + dots);
            assert(s.skip(base + dots)[ext] == c);
        }
        assert(!acceptable(s));
        lemma_first_rejected(name, 0, end);
    } else {
        lemma_first_rejected(name, 0, end);
        assert(name.take(end) =~= name);
        if base > 0 {
            lemma_beginning(name, base, dots, ext, end);
            lemma_splits(name, base, base + dots);
        }
    }
}

/// A name is stored, in capitals, or refused, as its bytes demand.
pub proof fn law_name_created(
    name: &[u8],
    base: int,
    dots: int,
    ext: int,
    result: Result<ShortFileName, FilenameError>,
)
    requires
        call_ensures(ShortFileName::create_from_buffer, (name,), result),
        begins(name@, base, dots, ext),
        stops(name@, base, dots, ext),
    ensures
        comes_to(name@, base, dots, ext, false, result),
{
    lemma_comes_to(name@, base, dots, ext, false, result);
}

/// A volume label is stored, letters as they are, or refused, as its bytes
/// demand.
pub proof fn law_mixed_case_name_created(
    name: &[u8],
    base: int,
    dots: int,
    ext: int,
    result: Result<ShortFileName, FilenameError>,
)
    requires
        call_ensures(ShortFileName::create_from_buffer_mixed_case, (name,), result),
        begins(name@, base, dots, ext),
        stops(name@, base, dots, ext),
    ensures
        comes_to(name@, base, dots, ext, true, result),
{
    lemma_comes_to(name@, base, dots, ext, true, result);
}

/// The base and the extension of a stored name are the bytes from its first and
/// from its ninth place on, up to a space or to the end of their part.
pub proof fn law_name_parts(sfn: &ShortFileName, base: &[u8], ext: &[u8])
    requires
        call_ensures(ShortFileName::base_name, (sfn,), base),
        call_ensures(ShortFileName::extension, (sfn,), ext),
    ensures
        base@.len() <= 8,
        forall|i: int|
            0 <= i < base@.len() ==> #[trigger] base@[i] == sfn@[i] && base@[i] != 0x20,
        base@.len() < 8 ==> sfn@[base@.len() as int] == 0x20,
        ext@.len() <= 3,
        forall|i: int|
            0 <= i < ext@.len() ==> #[trigger] ext@[i] == sfn@[8 + i] && ext@[i] != 0x20,
        ext@.len() < 3 ==> sfn@[8 + ext@.len() as int] == 0x20,
{
    lemma_name_length(*sfn);
    lemma_find_byte_bounds(sfn@.take(8), 0x20, 0);
    lemma_find_byte_bounds(sfn@.skip(8), 0x20, 0);
}

/// How many characters of the text of a stored name come before the byte at a
/// place: one for each byte that is no space, and one more for the period, which
/// stands before the ninth byte unless that is a space.
pub open spec fn characters_before(contents: Seq<u8>, n: int) -> int
    decreases n,
{
    if n <= 0 {
        0
    } else {
        characters_before(contents, n - 1) + if contents[n - 1] == 0x20 {
            0int
        } else if n == 9 {
            2
        } else {
            1
        }
    }
}

/// The number of characters in the text of a stored name.
proof fn lemma_characters(contents: Seq<u8>, n: int)
    requires
        0 <= n <= 11,
        contents.len() == 11,
    ensures
        shown(contents, n).len() == characters_before(contents, n),
        0 <= characters_before(contents, n),
    decreases n,
{
    if n > 0 {
        lemma_characters(contents, n - 1);
    }
}

/// The place of a character in the text of a stored name.
proof fn lemma_character_at(contents: Seq<u8>, n: int, i: int)
    requires
        0 <= i < n <= 11,
        contents.len() == 11,
        contents[i] != 0x20,
    ensures
        0 < characters_before(contents, i + 1) <= shown(contents, n).len(),
        shown(contents, n)[characters_before(contents, i + 1) - 1] == contents[i] as char,
        i == 8 ==> shown(contents, n)[characters_before(contents, 8)] == '.',
    decreases n,
{
    lemma_characters(contents, i);
    lemma_characters(contents, n);
    lemma_characters(contents, n - 1);
    if i < n - 1 {
        lemma_character_at(contents, n - 1, i);
    }
}

/// The text of a stored name shows each byte that is no space, in order, with a
/// period before the extension, if there is one. It is filled up to the width
/// that was asked for, and not cut off.
pub proof fn law_name_shown(sfn: &ShortFileName, width: Option<usize>, fill: char, text: String)
    requires
        call_ensures(ShortFileName::display, (sfn, width, fill), text),
    ensures
        ({
            let n = characters_before(sfn@, 11);
            &&& text@.len() == match width {
                Some(w) => if w > n {
                    w as int
                } else {
                    n
                },
                None => n,
            }
            &&& forall|i: int| n <= i < text@.len() ==> #[trigger] text@[i] == fill
            &&& forall|i: int|
                0 <= i < 11 && sfn@[i] != 0x20 ==> {
                    &&& 0 < #[trigger] characters_before(sfn@, i + 1) <= n
                    &&& text@[characters_before(sfn@, i + 1) - 1] == sfn@[i] as char
                }
            &&& sfn@[8] != 0x20 ==> text@[characters_before(sfn@, 8)] == '.'
        }),
{
    lemma_name_length(*sfn);
    lemma_characters(sfn@, 11);
    let shown_text = display_text(sfn@);
    assert forall|i: int| 0 <= i < 11 && sfn@[i] != 0x20 implies {
        &&& 0 < #[trigger] characters_before(sfn@, i + 1) <= shown_text.len()
        &&& text@[characters_before(sfn@, i + 1) - 1] == sfn@[i] as char
    } by {
        lemma_character_at(sfn@, 11, i);
    }
    if sfn@[8] != 0x20 {
        lemma_character_at(sfn@, 11, 8);
        lemma_characters(sfn@, 8);
    }
}

/// The description of a stored name has its text in it.
pub proof fn law_name_described(sfn: &ShortFileName, text: String, described: String)
    requires
        call_ensures(ShortFileName::display, (sfn, None, ' '), text),
        call_ensures(ShortFileName::debug_string, (sfn,), described),
    ensures
        described@ == "ShortFileName(\""@ + text@ + "\")"@,
{
    assert(text@ =~= display_text(sfn@));
}

} // verus!

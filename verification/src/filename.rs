//! MS-DOS 8.3 file names.
use vstd::prelude::*;
use vstd::slice::slice_subrange;

verus! {

/// An MS-DOS 8.3 filename. 7-bit ASCII only. All lower-case is converted to
/// upper-case by default.
///
/// Its view is the space-padded name as stored in a directory entry: eight
/// bytes of base name followed by three bytes of extension.
#[derive(Debug, PartialEq, Eq, Clone, Copy)]
pub struct ShortFileName {
    pub(crate) contents: [u8; 11],
}

/// Various filename related errors that can occur.
#[derive(Debug, Clone, Copy, PartialEq, Eq, Structural)]
pub enum FilenameError {
    /// Tried to create a file with an invalid character.
    InvalidCharacter,
    /// Tried to create a file with no file name.
    FilenameEmpty,
    /// Given name was too long (we are limited to 8.3).
    NameTooLong,
    /// Can't start a file with a period, or after 8 characters.
    MisplacedPeriod,
    /// Can't extract utf8 from file name
    Utf8Error,
}

/// The byte that separates the base name from the extension.
pub const PERIOD: u8 = 0x2E;

/// The byte that fills up unused places.
pub const SPACE: u8 = 0x20;

/// Whether a byte may occur in a name. Control characters, the space and the
/// characters that Microsoft lists as invalid may not, nor anything beyond
/// 7-bit ASCII.
pub open spec fn valid_char(c: u8) -> bool {
    &&& 0x20 < c <= 0x7F
    &&& c != 0x22 && c != 0x2A && c != 0x2B && c != 0x2C && c != 0x2F
    &&& c != 0x3A && c != 0x3B && c != 0x3C && c != 0x3D && c != 0x3E && c != 0x3F
    &&& c != 0x5B && c != 0x5C && c != 0x5D && c != 0x7C
}

/// The upper-case form of a byte.
pub open spec fn upper(c: u8) -> u8 {
    if 0x61 <= c <= 0x7A {
        (c - 32) as u8
    } else {
        c
    }
}

/// The upper-case form of a text, or the text itself where case is kept.
pub open spec fn fold_case(s: Seq<u8>, keep_case: bool) -> Seq<u8> {
    if keep_case {
        s
    } else {
        s.map_values(|c: u8| upper(c))
    }
}

/// The first place at or after `from` that holds the byte `b`, or the length
/// of the text if there is none.
pub open spec fn find_byte(s: Seq<u8>, b: u8, from: int) -> int
    decreases s.len() - from,
{
    if from >= s.len() || s[from] == b {
        from
    } else {
        find_byte(s, b, from + 1)
    }
}

/// The first place at or after `from` that does not hold the byte `b`, or the
/// length of the text if there is none.
pub open spec fn skip_byte(s: Seq<u8>, b: u8, from: int) -> int
    decreases s.len() - from,
{
    if from >= s.len() || s[from] != b {
        from
    } else {
        skip_byte(s, b, from + 1)
    }
}

/// What comes before the first period.
pub open spec fn base_part(name: Seq<u8>) -> Seq<u8> {
    name.take(find_byte(name, PERIOD, 0))
}

/// What comes after the first period and any periods that follow it directly.
pub open spec fn extension_part(name: Seq<u8>) -> Seq<u8> {
    name.skip(skip_byte(name, PERIOD, find_byte(name, PERIOD, 0)))
}

/// Whether a text is the beginning of some 8.3 name: it is empty, or it holds
/// a base of one to eight bytes and an extension of up to three bytes without
/// a period.
pub open spec fn acceptable(s: Seq<u8>) -> bool {
    &&& forall|i: int| 0 <= i < s.len() ==> valid_char(#[trigger] s[i])
    &&& s.len() == 0 || {
        &&& 1 <= base_part(s).len() <= 8
        &&& extension_part(s).len() <= 3
        &&& !extension_part(s).contains(PERIOD)
    }
}

/// The first byte at or after `from` with which the text stops being the
/// beginning of an 8.3 name.
pub open spec fn first_rejected(name: Seq<u8>, from: int) -> Option<int>
    decreases name.len() - from,
{
    if from < 0 || from >= name.len() {
        None
    } else if !acceptable(name.take(from + 1)) {
        Some(from)
    } else {
        first_rejected(name, from + 1)
    }
}

/// Why a byte is rejected.
pub open spec fn rejection(c: u8) -> FilenameError {
    if !valid_char(c) {
        FilenameError::InvalidCharacter
    } else if c == PERIOD {
        FilenameError::MisplacedPeriod
    } else {
        FilenameError::NameTooLong
    }
}

/// A text filled up with spaces to the given length.
pub open spec fn padded(s: Seq<u8>, len: nat) -> Seq<u8> {
    Seq::new(
        len,
        |i: int|
            if i < s.len() {
                s[i]
            } else {
                SPACE
            },
    )
}

/// The space-padded 8.3 form of a name, or why it has none.
pub open spec fn short_name(name: Seq<u8>, keep_case: bool) -> Result<Seq<u8>, FilenameError> {
    match first_rejected(name, 0) {
        Some(i) => Err(rejection(name[i])),
        None => if name.len() == 0 {
            Err(FilenameError::FilenameEmpty)
        } else {
            Ok(
                padded(fold_case(base_part(name), keep_case), 8) + padded(
                    fold_case(extension_part(name), keep_case),
                    3,
                ),
            )
        },
    }
}

/// What comes before the first space.
pub open spec fn before_space(s: Seq<u8>) -> Seq<u8> {
    s.take(find_byte(s, SPACE, 0))
}

/// The characters of the first `n` bytes that are not spaces, with a period
/// before the first byte of the extension.
pub open spec fn shown(contents: Seq<u8>, n: int) -> Seq<char>
    decreases n,
{
    if n <= 0 {
        Seq::empty()
    } else if contents[n - 1] == SPACE {
        shown(contents, n - 1)
    } else if n - 1 == 8 {
        shown(contents, n - 1).push('.').push(contents[n - 1] as char)
    } else {
        shown(contents, n - 1).push(contents[n - 1] as char)
    }
}

/// The text of a stored name.
pub open spec fn display_text(contents: Seq<u8>) -> Seq<char> {
    shown(contents, 11)
}

/// As many fill characters as are missing to the given width.
pub open spec fn fill_text(len: nat, width: Option<usize>, fill: char) -> Seq<char> {
    match width {
        Some(w) if w > len => Seq::new((w - len) as nat, |i: int| fill),
        _ => Seq::empty(),
    }
}

pub(crate) proof fn lemma_find_byte(s: Seq<u8>, b: u8, from: int, at: int)
    requires
        0 <= from <= at <= s.len(),
        forall|j: int| from <= j < at ==> s[j] != b,
        at < s.len() ==> s[at] == b,
    ensures
        find_byte(s, b, from) == at,
    decreases s.len() - from,
{
    if from < at {
        lemma_find_byte(s, b, from + 1, at);
    }
}

proof fn lemma_skip_byte(s: Seq<u8>, b: u8, from: int, at: int)
    requires
        0 <= from <= at <= s.len(),
        forall|j: int| from <= j < at ==> s[j] == b,
        at < s.len() ==> s[at] != b,
    ensures
        skip_byte(s, b, from) == at,
    decreases s.len() - from,
{
    if from < at {
        lemma_skip_byte(s, b, from + 1, at);
    }
}

pub(crate) proof fn lemma_first_rejected(name: Seq<u8>, from: int, at: int)
    requires
        0 <= from <= at <= name.len(),
        forall|j: int| from <= j < at ==> acceptable(#[trigger] name.take(j + 1)),
        at < name.len() ==> !acceptable(name.take(at + 1)),
    ensures
        first_rejected(name, from) == (if at < name.len() {
            Some(at)
        } else {
            None
        }),
    decreases name.len() - from,
{
    if from < at {
        assert(acceptable(name.take(from + 1)));
        lemma_first_rejected(name, from + 1, at);
    }
}

/// Where the base and the extension of a text lie.
pub open spec fn splits(s: Seq<u8>, base_end: int, ext_start: int) -> bool {
    &&& 0 <= base_end <= ext_start <= s.len()
    &&& forall|j: int| 0 <= j < base_end ==> s[j] != PERIOD
    &&& forall|j: int| base_end <= j < ext_start ==> s[j] == PERIOD
    &&& base_end == ext_start ==> ext_start == s.len()
    &&& ext_start < s.len() ==> s[ext_start] != PERIOD
}

pub(crate) proof fn lemma_splits(s: Seq<u8>, base_end: int, ext_start: int)
    requires
        splits(s, base_end, ext_start),
    ensures
        base_part(s) == s.take(base_end),
        extension_part(s) == s.skip(ext_start),
{
    lemma_find_byte(s, PERIOD, 0, base_end);
    lemma_skip_byte(s, PERIOD, base_end, ext_start);
}

impl View for ShortFileName {
    type V = Seq<u8>;

    closed spec fn view(&self) -> Seq<u8> {
        self.contents@
    }
}

/// A name takes up eleven bytes: eight of base name and three of extension.
pub proof fn lemma_name_length(name: ShortFileName)
    ensures
        name@.len() == 11,
        name@.take(8).len() == 8,
        name@.skip(8).len() == 3,
{
}

impl ShortFileName {
    const FILENAME_BASE_MAX_LEN: usize = 8;

    const FILENAME_MAX_LEN: usize = 11;

    /// Get base name (name without extension) of file name
    pub fn base_name(&self) -> (base: &[u8])
        ensures
            base@ == before_space(self@.take(8)),
    {
        let base = slice_subrange(self.contents.as_slice(), 0, Self::FILENAME_BASE_MAX_LEN);
        assert(base@ =~= self@.take(8));
        Self::bytes_before_space(base)
    }

    /// Get the extension of file name
    pub fn extension(&self) -> (ext: &[u8])
        ensures
            ext@ == before_space(self@.skip(8)),
    {
        let ext = slice_subrange(
            self.contents.as_slice(),
            Self::FILENAME_BASE_MAX_LEN,
            Self::FILENAME_MAX_LEN,
        );
        assert(ext@ =~= self@.skip(8));
        Self::bytes_before_space(ext)
    }

    fn bytes_before_space(bytes: &[u8]) -> (before: &[u8])
        ensures
            before@ == before_space(bytes@),
    {
        let mut end: usize = 0;
        while end < bytes.len() && bytes[end] != SPACE
            invariant
                end <= bytes.len(),
                forall|j: int| 0 <= j < end ==> bytes@[j] != SPACE,
            decreases bytes.len() - end,
        {
            end = end + 1;
        }
        proof {
            lemma_find_byte(bytes@, SPACE, 0, end as int);
        }
        slice_subrange(bytes, 0, end)
    }

    fn is_valid_char(c: u8) -> (valid: bool)
        ensures
            valid == valid_char(c),
    {
        match c {
            0x00..=0x1F | 0x20 | 0x22 | 0x2A | 0x2B | 0x2C | 0x2F | 0x3A | 0x3B | 0x3C | 0x3D | 0x3E
            | 0x3F | 0x5B | 0x5C | 0x5D | 0x7C => false,
            _ => c <= 0x7F,
        }
    }

    /// Create a new MS-DOS 8.3 space-padded file name as stored in the directory entry.
    pub fn create_from_buffer(name: &[u8]) -> (result: Result<ShortFileName, FilenameError>)
        ensures
            match result {
                Ok(sfn) => short_name(name@, false) == Ok::<Seq<u8>, FilenameError>(sfn@),
                Err(e) => short_name(name@, false) == Err::<Seq<u8>, FilenameError>(e),
            },
    {
        Self::create(name, false)
    }

    /// Create a new MS-DOS 8.3 space-padded file name as stored in the directory entry.
    /// Use this for volume labels with mixed case.
    pub fn create_from_buffer_mixed_case(name: &[u8]) -> (result: Result<
        ShortFileName,
        FilenameError,
    >)
        ensures
            match result {
                Ok(sfn) => short_name(name@, true) == Ok::<Seq<u8>, FilenameError>(sfn@),
                Err(e) => short_name(name@, true) == Err::<Seq<u8>, FilenameError>(e),
            },
    {
        Self::create(name, true)
    }

    fn create(name: &[u8], keep_case: bool) -> (result: Result<ShortFileName, FilenameError>)
        ensures
            match result {
                Ok(sfn) => short_name(name@, keep_case) == Ok::<Seq<u8>, FilenameError>(sfn@),
                Err(e) => short_name(name@, keep_case) == Err::<Seq<u8>, FilenameError>(e),
            },
    {
        let mut sfn = ShortFileName { contents: [0x20u8; 11] };
        let mut idx: usize = 0;
        let mut seen_dot = false;
        let mut i: usize = 0;
        let ghost mut base_end: int = 0;
        let ghost mut ext_start: int = 0;
        while i < name.len()
            invariant
                i <= name.len(),
                splits(name@.take(i as int), base_end, ext_start),
                i > 0 ==> 1 <= base_end,
                base_end <= 8,
                seen_dot == (base_end < i),
                idx == if seen_dot {
                    8 + (i - ext_start)
                } else {
                    i as int
                },
                i - ext_start <= 3,
                forall|j: int| ext_start <= j < i ==> name@[j] != PERIOD,
                forall|j: int|
                    0 <= j < i ==> acceptable(#[trigger] name@.take(j + 1)),
                sfn@ == padded(fold_case(name@.take(base_end), keep_case), 8) + padded(
                    fold_case(name@.subrange(ext_start, i as int), keep_case),
                    3,
                ),
            decreases name.len() - i,
        {
            let ch: u8 = name[i];
            let ghost before = name@.take(i as int);
            let ghost after = name@.take(i + 1);
            assert(after =~= before.push(ch));
            assert(forall|j: int| 0 <= j < i ==> after[j] == before[j]);
            assert(i > 0 ==> acceptable(name@.take(i - 1 + 1)));
            if !Self::is_valid_char(ch) {
                proof {
                    assert(!valid_char(after[i as int]));
                    lemma_first_rejected(name@, 0, i as int);
                }
                return Err(FilenameError::InvalidCharacter);
            }
            if ch == PERIOD {
                // Denotes the start of the file extension
                if 1 <= idx && idx <= Self::FILENAME_BASE_MAX_LEN {
                    proof {
                        ext_start = i + 1;
                        assert(splits(after, base_end, ext_start));
                        lemma_splits(after, base_end, ext_start);
                    }
                    idx = Self::FILENAME_BASE_MAX_LEN;
                    seen_dot = true;
                } else {
                    proof {
                        if i == 0 {
                            assert(splits(after, 0, 1));
                            lemma_splits(after, 0, 1);
                        } else {
                            assert(splits(after, base_end, ext_start));
                            lemma_splits(after, base_end, ext_start);
                            assert(extension_part(after)[i - ext_start] == PERIOD);
                        }
                        lemma_first_rejected(name@, 0, i as int);
                    }
                    return Err(FilenameError::MisplacedPeriod);
                }
            } else {
                let kept: u8 = if !keep_case && 0x61 <= ch && ch <= 0x7A {
                    // Uppercase characters only
                    ch - 32
                } else {
                    ch
                };
                proof {
                    if !seen_dot {
                        base_end = i + 1;
                        ext_start = i + 1;
                    }
                    assert(splits(after, base_end, ext_start));
                    lemma_splits(after, base_end, ext_start);
                }
                if (seen_dot && idx < Self::FILENAME_MAX_LEN) || (!seen_dot && idx
                    < Self::FILENAME_BASE_MAX_LEN) {
                    sfn.contents[idx] = kept;
                } else {
                    proof {
                        lemma_first_rejected(name@, 0, i as int);
                    }
                    return Err(FilenameError::NameTooLong);
                }
                idx = idx + 1;
            }
            i = i + 1;
            assert(acceptable(after));
            assert(sfn@ =~= padded(fold_case(name@.take(base_end), keep_case), 8) + padded(
                fold_case(name@.subrange(ext_start, i as int), keep_case),
                3,
            ));
        }
        proof {
            lemma_first_rejected(name@, 0, i as int);
            assert(name@.take(i as int) =~= name@);
            lemma_splits(name@, base_end, ext_start);
            assert(name@.subrange(ext_start, i as int) =~= name@.skip(ext_start));
        }
        if idx == 0 {
            return Err(FilenameError::FilenameEmpty);
        }
        Ok(sfn)
    }

    /// The name as text, filled up to `width` characters if one is given.
    pub fn display(&self, width: Option<usize>, fill: char) -> (text: String)
        ensures
            text@ == display_text(self@) + fill_text(display_text(self@).len(), width, fill),
    {
        let mut text = String::new();
        let mut printed: usize = 0;
        let mut i: usize = 0;
        while i < Self::FILENAME_MAX_LEN
            invariant
                i <= 11,
                text@ == shown(self@, i as int),
                printed == text@.len(),
                printed <= 2 * i,
            decreases 11 - i,
        {
            let c: u8 = self.contents[i];
            if c != SPACE {
                if i == Self::FILENAME_BASE_MAX_LEN {
                    text.push('.');
                    printed = printed + 1;
                }
                text.push(c as char);
                printed = printed + 1;
            }
            i = i + 1;
        }
        if let Some(w) = width {
            let mut filled: usize = printed;
            while filled < w
                invariant
                    printed <= filled,
                    printed == display_text(self@).len(),
                    filled <= w || filled == printed,
                    text@ == display_text(self@) + Seq::new(
                        (filled - printed) as nat,
                        |i: int| fill,
                    ),
                decreases w - filled,
            {
                text.push(fill);
                filled = filled + 1;
                assert(text@ =~= display_text(self@) + Seq::new(
                    (filled - printed) as nat,
                    |i: int| fill,
                ));
            }
            assert(fill_text(display_text(self@).len(), width, fill) =~= Seq::new(
                (filled - printed) as nat,
                |i: int| fill,
            ));
        }
        assert(text@ =~= display_text(self@) + fill_text(display_text(self@).len(), width, fill));
        text
    }

    /// The name as text inside a description of its type.
    pub fn debug_string(&self) -> (text: String)
        ensures
            text@ == "ShortFileName(\""@ + display_text(self@) + "\")"@,
    {
        let mut text = String::new();
        text.append("ShortFileName(\"");
        let name = self.display(None, ' ');
        text.append(name.as_str());
        text.append("\")");
        assert(text@ =~= "ShortFileName(\""@ + display_text(self@) + "\")"@);
        text
    }
}

/// The characters of an ASCII text.
pub open spec fn as_chars(s: Seq<u8>) -> Seq<char> {
    s.map_values(|c: u8| c as char)
}

pub(crate) proof fn lemma_find_byte_bounds(s: Seq<u8>, b: u8, from: int)
    requires
        0 <= from <= s.len(),
    ensures
        from <= find_byte(s, b, from) <= s.len(),
        forall|j: int| from <= j < find_byte(s, b, from) ==> s[j] != b,
        find_byte(s, b, from) < s.len() ==> s[find_byte(s, b, from)] == b,
    decreases s.len() - from,
{
    if from < s.len() && s[from] != b {
        lemma_find_byte_bounds(s, b, from + 1);
    }
}

proof fn lemma_skip_byte_bounds(s: Seq<u8>, b: u8, from: int)
    requires
        0 <= from <= s.len(),
    ensures
        from <= skip_byte(s, b, from) <= s.len(),
        forall|j: int| from <= j < skip_byte(s, b, from) ==> s[j] == b,
        skip_byte(s, b, from) < s.len() ==> s[skip_byte(s, b, from)] != b,
    decreases s.len() - from,
{
    if from < s.len() && s[from] == b {
        lemma_skip_byte_bounds(s, b, from + 1);
    }
}

proof fn lemma_split_exists(s: Seq<u8>) -> (split: (int, int))
    ensures
        splits(s, split.0, split.1),
        base_part(s) == s.take(split.0),
        extension_part(s) == s.skip(split.1),
{
    let base_end = find_byte(s, PERIOD, 0);
    lemma_find_byte_bounds(s, PERIOD, 0);
    lemma_skip_byte_bounds(s, PERIOD, base_end);
    (base_end, skip_byte(s, PERIOD, base_end))
}

proof fn lemma_acceptable_prefix(s: Seq<u8>, n: int)
    requires
        acceptable(s),
        0 <= n <= s.len(),
    ensures
        acceptable(s.take(n)),
{
    let t = s.take(n);
    if n > 0 {
        let (base_end, ext_start) = lemma_split_exists(s);
        assert(forall|j: int| ext_start <= j < s.len() ==> s[j] != PERIOD) by {
            assert forall|j: int| ext_start <= j < s.len() implies s[j] != PERIOD by {
                assert(s.skip(ext_start)[j - ext_start] == s[j]);
            }
        }
        let b = if n < base_end {
            n
        } else {
            base_end
        };
        let e = if n < ext_start {
            n
        } else {
            ext_start
        };
        assert(splits(t, b, e));
        lemma_splits(t, b, e);
    }
}

/// A name has an 8.3 form exactly when it is not empty and reads as a base of
/// one to eight valid bytes, optionally followed by a period and an extension
/// of up to three valid bytes.
pub proof fn law_accepted_names(name: Seq<u8>, keep_case: bool)
    ensures
        short_name(name, keep_case) is Ok <==> name.len() > 0 && acceptable(name),
        name.len() == 0 <==> short_name(name, keep_case) == Err::<Seq<u8>, FilenameError>(
            FilenameError::FilenameEmpty,
        ),
        short_name(name, keep_case) != Err::<Seq<u8>, FilenameError>(FilenameError::Utf8Error),
{
    lemma_first_rejected_none(name, 0);
    if acceptable(name) {
        assert forall|j: int| 0 <= j < name.len() implies acceptable(
            #[trigger] name.take(j + 1),
        ) by {
            lemma_acceptable_prefix(name, j + 1);
        }
    }
}

proof fn lemma_first_rejected_none(name: Seq<u8>, from: int)
    requires
        0 <= from <= name.len(),
        from > 0 ==> acceptable(name.take(from)),
    ensures
        match first_rejected(name, from) {
            Some(i) => {
                &&& from <= i < name.len()
                &&& acceptable(name.take(i))
                &&& !acceptable(name.take(i + 1))
            },
            None => acceptable(name),
        },
    decreases name.len() - from,
{
    if from == name.len() {
        assert(name.take(from) =~= name);
    } else if acceptable(name.take(from + 1)) {
        lemma_first_rejected_none(name, from + 1);
    }
}

/// What may follow the beginning of a name: a period where there is a base, and
/// no extension yet, and any other valid byte where there is room for it.
pub open spec fn may_follow(s: Seq<u8>, c: u8) -> bool {
    &&& valid_char(c)
    &&& if c == PERIOD {
        s.len() > 0 && extension_part(s).len() == 0
    } else if s.contains(PERIOD) {
        extension_part(s).len() < 3
    } else {
        s.len() < 8
    }
}

proof fn lemma_may_follow(s: Seq<u8>, c: u8)
    requires
        acceptable(s),
    ensures
        acceptable(s.push(c)) <==> may_follow(s, c),
{
    let t = s.push(c);
    let n = s.len() as int;
    let (base_end, ext_start) = lemma_split_exists(s);
    assert(t[n] == c);
    assert(valid_char(c) ==> forall|j: int| 0 <= j < t.len() ==> valid_char(#[trigger] t[j]));
    if s.contains(PERIOD) {
        let k = choose|k: int| 0 <= k < s.len() && s[k] == PERIOD;
        assert(base_end < ext_start);
        if c == PERIOD && ext_start == n {
            assert(splits(t, base_end, n + 1));
            lemma_splits(t, base_end, n + 1);
            assert(t.take(base_end) =~= s.take(base_end));
            assert(t.skip(n + 1).len() == 0);
        } else {
            assert(splits(t, base_end, ext_start));
            lemma_splits(t, base_end, ext_start);
            assert(t.take(base_end) =~= s.take(base_end));
            assert(t.skip(ext_start) =~= s.skip(ext_start).push(c));
            let ext = extension_part(s);
            assert(ext.push(c)[ext.len() as int] == c);
            if c != PERIOD {
                assert forall|j: int| 0 <= j < ext.push(c).len() implies ext.push(c)[j] != PERIOD by {
                    if j < ext.len() {
                        assert(ext.contains(ext[j]));
                    }
                }
            }
        }
    } else {
        assert(base_end == n) by {
            if base_end < n {
                assert(s[base_end] == PERIOD);
            }
        }
        assert(s.take(n) =~= s);
        if c == PERIOD {
            assert(splits(t, n, n + 1));
            lemma_splits(t, n, n + 1);
            assert(t.take(n) =~= s);
            assert(t.skip(n + 1).len() == 0);
        } else {
            assert(splits(t, n + 1, n + 1));
            lemma_splits(t, n + 1, n + 1);
            assert(t.take(n + 1) =~= t);
            assert(t.skip(n + 1).len() == 0);
        }
    }
}

/// The first byte that may not follow what comes before it decides, alone, why
/// a name is refused: it is refused for that byte, whatever comes after.
pub proof fn law_first_offending_byte_decides(
    name: Seq<u8>,
    at: int,
    other: Seq<u8>,
    keep_case: bool,
)
    requires
        0 <= at < name.len(),
        acceptable(name.take(at)),
        !may_follow(name.take(at), name[at]),
        at < other.len(),
        other.take(at + 1) == name.take(at + 1),
    ensures
        short_name(name, keep_case) == Err::<Seq<u8>, FilenameError>(rejection(name[at])),
        short_name(other, keep_case) == short_name(name, keep_case),
{
    lemma_rejected_at(name, at);
    assert(other.take(at) =~= other.take(at + 1).take(at));
    assert(name.take(at) =~= name.take(at + 1).take(at));
    assert(other[at] == other.take(at + 1)[at]);
    assert(name[at] == name.take(at + 1)[at]);
    lemma_rejected_at(other, at);
}

proof fn lemma_rejected_at(name: Seq<u8>, at: int)
    requires
        0 <= at < name.len(),
        acceptable(name.take(at)),
        !may_follow(name.take(at), name[at]),
    ensures
        first_rejected(name, 0) == Some(at),
{
    lemma_may_follow(name.take(at), name[at]);
    assert(name.take(at).push(name[at]) =~= name.take(at + 1));
    assert forall|j: int| 0 <= j < at implies acceptable(#[trigger] name.take(j + 1)) by {
        lemma_acceptable_prefix(name.take(at), j + 1);
        assert(name.take(at).take(j + 1) =~= name.take(j + 1));
    }
    lemma_first_rejected(name, 0, at);
}

/// The byte for which a name is refused, if there is one.
proof fn lemma_offending_byte(name: Seq<u8>)
    ensures
        match first_rejected(name, 0) {
            Some(at) => {
                &&& 0 <= at < name.len()
                &&& acceptable(name.take(at))
                &&& !may_follow(name.take(at), name[at])
            },
            None => acceptable(name),
        },
{
    lemma_first_rejected_none(name, 0);
    if let Some(at) = first_rejected(name, 0) {
        lemma_may_follow(name.take(at), name[at]);
        assert(name.take(at).push(name[at]) =~= name.take(at + 1));
    }
}

/// A name is refused for an invalid character exactly where an invalid byte
/// follows the beginning of a name.
pub proof fn law_invalid_character(name: Seq<u8>, keep_case: bool)
    ensures
        short_name(name, keep_case) == Err::<Seq<u8>, FilenameError>(
            FilenameError::InvalidCharacter,
        ) <==> exists|at: int|
            0 <= at < name.len() && acceptable(#[trigger] name.take(at)) && !valid_char(name[at]),
{
    lemma_offending_byte(name);
    if exists|at: int|
        0 <= at < name.len() && acceptable(#[trigger] name.take(at)) && !valid_char(name[at]) {
        let at = choose|at: int|
            0 <= at < name.len() && acceptable(#[trigger] name.take(at)) && !valid_char(name[at]);
        lemma_rejected_at(name, at);
    }
}

/// A name is refused for a misplaced period exactly where a period follows the
/// beginning of a name that is empty or has an extension.
pub proof fn law_misplaced_period(name: Seq<u8>, keep_case: bool)
    ensures
        short_name(name, keep_case) == Err::<Seq<u8>, FilenameError>(
            FilenameError::MisplacedPeriod,
        ) <==> exists|at: int|
            0 <= at < name.len() && acceptable(#[trigger] name.take(at)) && name[at] == PERIOD && (at
                == 0 || extension_part(name.take(at)).len() > 0),
{
    lemma_offending_byte(name);
    if exists|at: int|
        0 <= at < name.len() && acceptable(#[trigger] name.take(at)) && name[at] == PERIOD && (at
            == 0 || extension_part(name.take(at)).len() > 0) {
        let at = choose|at: int|
            0 <= at < name.len() && acceptable(#[trigger] name.take(at)) && name[at] == PERIOD && (at
                == 0 || extension_part(name.take(at)).len() > 0);
        lemma_rejected_at(name, at);
    }
}

/// A name is refused for its length exactly where another valid byte follows a
/// full base of eight bytes, or a full extension of three.
pub proof fn law_name_too_long(name: Seq<u8>, keep_case: bool)
    ensures
        short_name(name, keep_case) == Err::<Seq<u8>, FilenameError>(
            FilenameError::NameTooLong,
        ) <==> exists|at: int|
            0 <= at < name.len() && acceptable(#[trigger] name.take(at)) && valid_char(name[at])
                && name[at] != PERIOD && is_full(name.take(at)),
{
    lemma_offending_byte(name);
    if exists|at: int|
        0 <= at < name.len() && acceptable(#[trigger] name.take(at)) && valid_char(name[at])
            && name[at] != PERIOD && is_full(name.take(at)) {
        let at = choose|at: int|
            0 <= at < name.len() && acceptable(#[trigger] name.take(at)) && valid_char(name[at])
                && name[at] != PERIOD && is_full(name.take(at));
        lemma_rejected_at(name, at);
    }
}

/// Whether the part of a name that was begun last, the base or the extension,
/// has no room left.
pub open spec fn is_full(s: Seq<u8>) -> bool {
    if s.contains(PERIOD) {
        extension_part(s).len() >= 3
    } else {
        s.len() >= 8
    }
}

/// A name is made up of a base, a period and an extension: created from these,
/// it has just these.
pub proof fn law_name_from_parts(base: Seq<u8>, extension: Seq<u8>, keep_case: bool)
    requires
        1 <= base.len() <= 8,
        extension.len() <= 3,
        forall|j: int| 0 <= j < base.len() ==> valid_char(#[trigger] base[j]) && base[j] != PERIOD,
        forall|j: int|
            0 <= j < extension.len() ==> valid_char(#[trigger] extension[j]) && extension[j]
                != PERIOD,
    ensures
        ({
            let name = base.push(PERIOD) + extension;
            let contents = padded(fold_case(base, keep_case), 8) + padded(
                fold_case(extension, keep_case),
                3,
            );
            &&& short_name(name, keep_case) == Ok::<Seq<u8>, FilenameError>(contents)
            &&& before_space(contents.take(8)) == fold_case(base, keep_case)
            &&& before_space(contents.skip(8)) == fold_case(extension, keep_case)
        }),
{
    let name = base.push(PERIOD) + extension;
    let n = base.len() as int;
    assert forall|j: int| 0 <= j < name.len() implies valid_char(#[trigger] name[j]) by {
        if j < n {
            assert(name[j] == base[j]);
        } else if j > n {
            assert(name[j] == extension[j - n - 1]);
        }
    }
    assert(splits(name, n, n + 1)) by {
        assert(forall|j: int| 0 <= j < n ==> name[j] == base[j]);
        if extension.len() > 0 {
            assert(name[n + 1] == extension[0]);
        }
    }
    lemma_splits(name, n, n + 1);
    assert(base_part(name) =~= base);
    assert(extension_part(name) =~= extension);
    law_accepted_names(name, keep_case);
    let contents = padded(fold_case(base, keep_case), 8) + padded(
        fold_case(extension, keep_case),
        3,
    );
    law_created_parts(name, keep_case, contents);
}

/// A name that was created is created again from its base, a period and its
/// extension.
pub proof fn law_parts_round_trip(name: Seq<u8>, keep_case: bool, contents: Seq<u8>)
    requires
        short_name(name, keep_case) == Ok::<Seq<u8>, FilenameError>(contents),
    ensures
        short_name(
            before_space(contents.take(8)).push(PERIOD) + before_space(contents.skip(8)),
            keep_case,
        ) == Ok::<Seq<u8>, FilenameError>(contents),
{
    law_accepted_names(name, keep_case);
    law_created_parts(name, keep_case, contents);
    lemma_parts_have_no_space(name, keep_case);
    let base = fold_case(base_part(name), keep_case);
    let ext = fold_case(extension_part(name), keep_case);
    law_name_from_parts(base, ext, keep_case);
    lemma_folding_twice(base_part(name), keep_case);
    lemma_folding_twice(extension_part(name), keep_case);
}

proof fn lemma_folding_twice(s: Seq<u8>, keep_case: bool)
    ensures
        fold_case(fold_case(s, keep_case), keep_case) == fold_case(s, keep_case),
{
    assert(forall|c: u8| upper(#[trigger] upper(c)) == upper(c));
    assert(fold_case(fold_case(s, keep_case), keep_case) =~= fold_case(s, keep_case));
}

/// The base name and the extension of a name that was created are those of
/// the text that it was created from.
pub proof fn law_created_parts(name: Seq<u8>, keep_case: bool, contents: Seq<u8>)
    requires
        short_name(name, keep_case) == Ok::<Seq<u8>, FilenameError>(contents),
    ensures
        before_space(contents.take(8)) == fold_case(base_part(name), keep_case),
        before_space(contents.skip(8)) == fold_case(extension_part(name), keep_case),
{
    law_accepted_names(name, keep_case);
    let base = fold_case(base_part(name), keep_case);
    let ext = fold_case(extension_part(name), keep_case);
    lemma_parts_have_no_space(name, keep_case);
    assert(contents.take(8) =~= padded(base, 8));
    assert(contents.skip(8) =~= padded(ext, 3));
    lemma_find_byte(padded(base, 8), SPACE, 0, base.len() as int);
    lemma_find_byte(padded(ext, 3), SPACE, 0, ext.len() as int);
    assert(before_space(padded(base, 8)) =~= base);
    assert(before_space(padded(ext, 3)) =~= ext);
}

proof fn lemma_parts_have_no_space(name: Seq<u8>, keep_case: bool)
    requires
        acceptable(name),
    ensures
        ({
            let base = fold_case(base_part(name), keep_case);
            let ext = fold_case(extension_part(name), keep_case);
            &&& base.len() == base_part(name).len()
            &&& ext.len() == extension_part(name).len()
            &&& forall|j: int| 0 <= j < base.len() ==> valid_char(#[trigger] base[j])
            &&& forall|j: int| 0 <= j < base.len() ==> #[trigger] base[j] != PERIOD
            &&& forall|j: int| 0 <= j < ext.len() ==> valid_char(#[trigger] ext[j])
            &&& forall|j: int| 0 <= j < ext.len() ==> #[trigger] ext[j] != PERIOD
        }),
{
    let (base_end, ext_start) = lemma_split_exists(name);
    let base = base_part(name);
    let ext = extension_part(name);
    assert forall|j: int| 0 <= j < base.len() implies valid_char(#[trigger] base[j]) && base[j]
        != PERIOD by {
        assert(base[j] == name[j]);
    }
    assert forall|j: int| 0 <= j < ext.len() implies valid_char(#[trigger] ext[j]) && ext[j]
        != PERIOD by {
        assert(ext[j] == name[ext_start + j]);
        assert(ext.contains(ext[j]));
    }
}

/// A stored name is 7-bit ASCII, and without lower case unless case was kept.
pub proof fn law_stored_bytes(name: Seq<u8>, keep_case: bool, contents: Seq<u8>)
    requires
        short_name(name, keep_case) == Ok::<Seq<u8>, FilenameError>(contents),
    ensures
        contents.len() == 11,
        forall|j: int| 0 <= j < 11 ==> 0x20 <= #[trigger] contents[j] <= 0x7F,
        !keep_case ==> forall|j: int| 0 <= j < 11 ==> !(0x61 <= #[trigger] contents[j] <= 0x7A),
{
    law_accepted_names(name, keep_case);
    lemma_parts_have_no_space(name, keep_case);
    let base = fold_case(base_part(name), keep_case);
    let ext = fold_case(extension_part(name), keep_case);
    assert forall|j: int| 0 <= j < 11 implies 0x20 <= #[trigger] contents[j] <= 0x7F && (!keep_case
        ==> !(0x61 <= contents[j] <= 0x7A)) by {
        if j < 8 {
            assert(contents[j] == padded(base, 8)[j]);
            if j < base.len() {
                assert(valid_char(base[j]));
            }
        } else {
            assert(contents[j] == padded(ext, 3)[j - 8]);
            if j - 8 < ext.len() {
                assert(valid_char(ext[j - 8]));
            }
        }
    }
}

/// Keeping the case changes nothing but the case: the same texts are refused
/// for the same reasons, and otherwise the names agree in upper case.
pub proof fn law_mixed_case(name: Seq<u8>)
    ensures
        match short_name(name, true) {
            Ok(contents) => short_name(name, false) == Ok::<Seq<u8>, FilenameError>(
                contents.map_values(|c: u8| upper(c)),
            ),
            Err(e) => short_name(name, false) == Err::<Seq<u8>, FilenameError>(e),
        },
{
    if let Ok(contents) = short_name(name, true) {
        assert(contents.map_values(|c: u8| upper(c)) =~= padded(
            fold_case(base_part(name), false),
            8,
        ) + padded(fold_case(extension_part(name), false), 3));
    }
}

proof fn lemma_shown_base(base: Seq<u8>, ext: Seq<u8>, n: int)
    requires
        base.len() <= 8,
        forall|j: int| 0 <= j < base.len() ==> base[j] != SPACE,
        0 <= n <= 8,
    ensures
        shown(padded(base, 8) + padded(ext, 3), n) == as_chars(
            base.take(
                if n < base.len() {
                    n
                } else {
                    base.len() as int
                },
            ),
        ),
    decreases n,
{
    let contents = padded(base, 8) + padded(ext, 3);
    if n > 0 {
        lemma_shown_base(base, ext, n - 1);
        assert(contents[n - 1] == padded(base, 8)[n - 1]);
    }
    let len = if n < base.len() {
        n
    } else {
        base.len() as int
    };
    assert(shown(contents, n) =~= as_chars(base.take(len)));
}

proof fn lemma_shown_ext(base: Seq<u8>, ext: Seq<u8>, n: int)
    requires
        base.len() <= 8,
        ext.len() <= 3,
        forall|j: int| 0 <= j < base.len() ==> base[j] != SPACE,
        forall|j: int| 0 <= j < ext.len() ==> ext[j] != SPACE,
        1 <= n <= 3,
    ensures
        shown(padded(base, 8) + padded(ext, 3), 8 + n) == as_chars(
            if ext.len() == 0 {
                base
            } else {
                base.push(PERIOD) + ext.take(
                    if n < ext.len() {
                        n
                    } else {
                        ext.len() as int
                    },
                )
            },
        ),
    decreases n,
{
    let contents = padded(base, 8) + padded(ext, 3);
    if n > 1 {
        lemma_shown_ext(base, ext, n - 1);
    } else {
        lemma_shown_base(base, ext, 8);
        assert(base.take(base.len() as int) =~= base);
    }
    assert(contents[8 + n - 1] == padded(ext, 3)[n - 1]);
    let len = if n < ext.len() {
        n
    } else {
        ext.len() as int
    };
    let text = if ext.len() == 0 {
        base
    } else {
        base.push(PERIOD) + ext.take(len)
    };
    assert(shown(contents, 8 + n) =~= as_chars(text));
}

/// The text of a name that was created is its base, and its extension after a
/// period if it has one.
pub proof fn law_display(name: Seq<u8>, keep_case: bool, contents: Seq<u8>)
    requires
        short_name(name, keep_case) == Ok::<Seq<u8>, FilenameError>(contents),
    ensures
        display_text(contents) == as_chars(
            if extension_part(name).len() == 0 {
                fold_case(base_part(name), keep_case)
            } else {
                fold_case(base_part(name), keep_case).push(PERIOD) + fold_case(
                    extension_part(name),
                    keep_case,
                )
            },
        ),
{
    law_accepted_names(name, keep_case);
    lemma_parts_have_no_space(name, keep_case);
    let base = fold_case(base_part(name), keep_case);
    let ext = fold_case(extension_part(name), keep_case);
    assert forall|j: int| 0 <= j < base.len() implies base[j] != SPACE by {
        assert(valid_char(base[j]));
    }
    assert forall|j: int| 0 <= j < ext.len() implies ext[j] != SPACE by {
        assert(valid_char(ext[j]));
    }
    lemma_shown_ext(base, ext, 3);
    assert(ext.take(ext.len() as int) =~= ext);
}

/// A name that was created is created again from its own text.
pub proof fn law_display_round_trip(name: Seq<u8>, keep_case: bool, contents: Seq<u8>, text: Seq<u8>)
    requires
        short_name(name, keep_case) == Ok::<Seq<u8>, FilenameError>(contents),
        as_chars(text) == display_text(contents),
    ensures
        short_name(text, keep_case) == Ok::<Seq<u8>, FilenameError>(contents),
{
    law_accepted_names(name, keep_case);
    law_accepted_names(text, keep_case);
    law_display(name, keep_case, contents);
    lemma_parts_have_no_space(name, keep_case);
    let base = fold_case(base_part(name), keep_case);
    let ext = fold_case(extension_part(name), keep_case);
    let shown_bytes = if ext.len() == 0 {
        base
    } else {
        base.push(PERIOD) + ext
    };
    assert(text =~= shown_bytes) by {
        assert(as_chars(text).len() == as_chars(shown_bytes).len());
        assert forall|j: int| 0 <= j < text.len() implies text[j] == shown_bytes[j] by {
            assert(as_chars(text)[j] == as_chars(shown_bytes)[j]);
            assert(text[j] as char as u8 == text[j]);
            assert(shown_bytes[j] as char as u8 == shown_bytes[j]);
        }
    }
    let ext_start = if ext.len() == 0 {
        base.len() as int
    } else {
        base.len() as int + 1
    };
    assert forall|j: int| 0 <= j < text.len() implies valid_char(#[trigger] text[j]) by {
        if j < base.len() {
            assert(text[j] == base[j]);
        } else if j > base.len() {
            assert(text[j] == ext[j - base.len() - 1]);
        }
    }
    assert(splits(text, base.len() as int, ext_start)) by {
        if ext.len() > 0 {
            assert(text[ext_start] == ext[0]);
        }
        assert(forall|j: int| 0 <= j < base.len() ==> text[j] == base[j]);
    }
    lemma_splits(text, base.len() as int, ext_start);
    assert(base_part(text) =~= base);
    assert(extension_part(text) =~= ext);
    assert(acceptable(text));
    lemma_folding_twice(base_part(name), keep_case);
    lemma_folding_twice(extension_part(name), keep_case);
}

} // verus!

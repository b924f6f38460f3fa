//! Levels: which one to play, the name of its file, and what a scan of its
//! tiles finds.

use vstd::prelude::*;

use crate::tile::{carrots, CARROT, FINISH, START};

verus! {

/// A level: a normal one or an egg one, with its number.
#[derive(Debug, Clone, Copy, PartialEq, Eq, Structural)]
pub enum MapId {
    Normal(u32),
    Egg(u32),
}

/// Why a level name such as `normal-3` was refused.
#[derive(Debug, Clone, Copy, PartialEq, Eq, Structural)]
pub enum MapArgError {
    /// The name holds no `-`.
    MissingDash,
    /// What follows the first `-` is no decimal `u32`, for the reason given.
    BadNumber(NumberError),
    /// What precedes the first `-` is neither `normal` nor `egg`.
    UnknownKind,
}

/// Why a text is no decimal `u32`, as `str::parse` reports it.
#[derive(Debug, Clone, Copy, PartialEq, Eq, Structural)]
pub enum NumberError {
    /// The text is empty.
    Empty,
    /// The text holds a character other than a digit, past a leading `+`.
    InvalidDigit,
    /// The value is larger than `u32::MAX`.
    PosOverflow,
    /// Another kind of `std::num::IntErrorKind`; parsing a `u32` gives none.
    Other,
}

/// Bytes at the head of a level file, before its tiles.
pub const LEVEL_HEADER_LEN: usize = 4;

/// What a scan of a level's tiles finds.
#[derive(Debug, Clone, Copy, PartialEq, Eq, Structural)]
pub struct LevelInfo {
    /// Number of carrot tiles.
    pub carrot_total: usize,
    /// Index of the last start tile, 0 when there is none.
    pub map_start: usize,
    /// Index of the last finish tile, 0 when there is none.
    pub map_end: usize,
}

/// Index of the last `tile` in `data`, 0 when there is none.
pub open spec fn last_position(data: Seq<u8>, tile: u8) -> int
    decreases data.len(),
{
    if data.len() == 0 {
        0
    } else if data.last() == tile {
        data.len() - 1
    } else {
        last_position(data.drop_last(), tile)
    }
}

/// Index of the first `c` in `s`, or the length of `s` when there is none.
pub open spec fn first_position(s: Seq<char>, c: char) -> int
    decreases s.len(),
{
    if s.len() == 0 {
        0
    } else if s[0] == c {
        0
    } else {
        1 + first_position(s.drop_first(), c)
    }
}

pub open spec fn is_ascii_digit(c: char) -> bool {
    48 <= (c as u32) <= 57
}

/// The value of a string of decimal digits.
pub open spec fn digits_value(s: Seq<char>) -> int
    decreases s.len(),
{
    if s.len() == 0 {
        0
    } else {
        digits_value(s.drop_last()) * 10 + ((s.last() as u32) - 48)
    }
}

/// The digits of a number's text: the text past a leading `+`.
pub open spec fn number_digits(text: Seq<char>) -> Seq<char> {
    if text.len() > 0 && text[0] == '+' {
        text.drop_first()
    } else {
        text
    }
}

/// The text is an optional `+` followed by one or more ASCII digits.
pub open spec fn well_formed_number(text: Seq<char>) -> bool {
    let digits = number_digits(text);
    digits.len() > 0 && forall|i: int| 0 <= i < digits.len() ==> is_ascii_digit(digits[i])
}

/// The longest run of ASCII digits at the head of `s`.
pub open spec fn leading_digits(s: Seq<char>) -> Seq<char>
    decreases s.len(),
{
    if s.len() > 0 && is_ascii_digit(s[0]) {
        seq![s[0]] + leading_digits(s.drop_first())
    } else {
        Seq::empty()
    }
}

/// The `u32` that `text` writes in decimal: an optional `+` followed by one
/// or more ASCII digits whose value fits a `u32`.
pub open spec fn decimal_u32(text: Seq<char>) -> Option<u32> {
    if well_formed_number(text) && digits_value(number_digits(text)) <= u32::MAX {
        Some(digits_value(number_digits(text)) as u32)
    } else {
        None
    }
}

/// `e` is a reason that `str::parse::<u32>` may give for refusing `text`:
/// an empty text is empty; a text of digits too large overflows; a text with
/// a character other than a digit holds an invalid digit, and may instead be
/// reported as an overflow when the digits before that character are
/// already too large.
pub open spec fn number_error_fits(text: Seq<char>, e: NumberError) -> bool {
    match e {
        NumberError::Empty => text.len() == 0,
        NumberError::InvalidDigit => text.len() > 0 && !well_formed_number(text),
        NumberError::PosOverflow => text.len() > 0 && if well_formed_number(text) {
            digits_value(number_digits(text)) > u32::MAX
        } else {
            digits_value(leading_digits(number_digits(text))) > u32::MAX
        },
        NumberError::Other => false,
    }
}

/// The character of a decimal digit.
pub open spec fn digit_char(d: int) -> char {
    (48 + d) as char
}

/// `n` in decimal, without leading zeros.
pub open spec fn decimal_text(n: nat) -> Seq<char>
    decreases n,
{
    if n < 10 {
        seq![digit_char(n as int)]
    } else {
        decimal_text(n / 10).push(digit_char((n % 10) as int))
    }
}

/// `n` in decimal, with a leading zero when it has one digit.
pub open spec fn two_digit_text(n: u32) -> Seq<char> {
    if n < 10 {
        seq!['0', digit_char(n as int)]
    } else {
        decimal_text(n as nat)
    }
}

/// `r` is what reading a level name such as `normal-3` or `egg-12` gives:
/// the kind before the first `-`, the number after it.
pub open spec fn map_arg_fits(arg: Seq<char>, r: Result<MapId, MapArgError>) -> bool {
    let dash = first_position(arg, '-');
    if dash == arg.len() {
        r == Err::<MapId, MapArgError>(MapArgError::MissingDash)
    } else {
        let kind = arg.take(dash);
        let number = arg.skip(dash + 1);
        match decimal_u32(number) {
            None => r matches Err(MapArgError::BadNumber(e)) && number_error_fits(number, e),
            Some(n) => r == if kind == "normal"@ {
                Ok::<MapId, MapArgError>(MapId::Normal(n))
            } else if kind == "egg"@ {
                Ok(MapId::Egg(n))
            } else {
                Err(MapArgError::UnknownKind)
            },
        }
    }
}

/// The file name of a level, such as `normal03.blm`.
pub open spec fn file_name_of(id: MapId) -> Seq<char> {
    match id {
        MapId::Normal(n) => "normal"@ + two_digit_text(n) + ".blm"@,
        MapId::Egg(n) => "egg"@ + two_digit_text(n) + ".blm"@,
    }
}

/// Calls `str::parse::<u32>` and, on an error, its `kind`. The documentation
/// says that the text must be an optional `+` followed by ASCII digits only;
/// that an empty text is refused as `Empty`, a value past `u32::MAX` as
/// `PosOverflow`, and any other character, a lone `+` among them, as
/// `InvalidDigit`. It does not say which of the last two a text with both
/// faults gets, so the contract leaves that open (`number_error_fits`).
#[verifier::external_body]
fn parse_u32(text: &str) -> (r: Result<u32, NumberError>)
    ensures
        (r is Ok) == (decimal_u32(text@) is Some),
        r matches Ok(n) ==> decimal_u32(text@) == Some(n),
        r matches Err(e) ==> number_error_fits(text@, e),
{
    match text.parse::<u32>() {
        Ok(n) => Ok(n),
        Err(e) => Err(
            match e.kind() {
                std::num::IntErrorKind::Empty => NumberError::Empty,
                std::num::IntErrorKind::InvalidDigit => NumberError::InvalidDigit,
                std::num::IntErrorKind::PosOverflow => NumberError::PosOverflow,
                _ => NumberError::Other,
            },
        ),
    }
}

/// Calls `format!` with `{:02}`: the contract claims that it writes `n` in
/// decimal, padded with zeros on the left to two characters.
#[verifier::external_body]
fn format_two_digits(n: u32) -> (r: String)
    ensures
        r@ == two_digit_text(n),
{
    format!("{:02}", n)
}

proof fn lemma_first_position(s: Seq<char>, c: char, i: int)
    requires
        0 <= i <= s.len(),
        forall|j: int| 0 <= j < i ==> s[j] != c,
        i == s.len() || s[i] == c,
    ensures
        first_position(s, c) == i,
    decreases s.len(),
{
    if s.len() > 0 && i > 0 {
        lemma_first_position(s.drop_first(), c, i - 1);
    }
}

/// Whether two texts are equal, character by character.
fn same_text(a: &str, b: &str) -> (r: bool)
    ensures
        r == (a@ == b@),
{
    let n = a.unicode_len();
    if n != b.unicode_len() {
        return false;
    }
    let mut i: usize = 0;
    while i < n
        invariant
            n == a@.len(),
            n == b@.len(),
            i <= n,
            forall|j: int| 0 <= j < i ==> a@[j] == b@[j],
        decreases n - i,
    {
        if a.get_char(i) != b.get_char(i) {
            return false;
        }
        i = i + 1;
    }
    assert(a@ =~= b@);
    true
}

impl MapId {
    /// Reads a level name: the kind (`normal` or `egg`), a `-`, and the
    /// number.
    pub fn parse_arg(arg: &str) -> (r: Result<MapId, MapArgError>)
        ensures
            map_arg_fits(arg@, r),
    {
        let n = arg.unicode_len();
        let mut dash: usize = 0;
        while dash < n && arg.get_char(dash) != '-'
            invariant
                n == arg@.len(),
                dash <= n,
                forall|j: int| 0 <= j < dash ==> arg@[j] != '-',
            decreases n - dash,
        {
            dash = dash + 1;
        }
        proof {
            lemma_first_position(arg@, '-', dash as int);
        }
        if dash == n {
            return Err(MapArgError::MissingDash);
        }
        let kind = arg.substring_char(0, dash);
        let num_str = arg.substring_char(dash + 1, n);
        assert(kind@ =~= arg@.take(dash as int));
        assert(num_str@ =~= arg@.skip(dash + 1));
        let num = match parse_u32(num_str) {
            Ok(v) => v,
            Err(e) => {
                return Err(MapArgError::BadNumber(e));
            },
        };
        if same_text(kind, "normal") {
            Ok(MapId::Normal(num))
        } else if same_text(kind, "egg") {
            Ok(MapId::Egg(num))
        } else {
            Err(MapArgError::UnknownKind)
        }
    }

    /// The name of the level's file.
    pub fn file_name(&self) -> (r: String)
        ensures
            r@ == file_name_of(*self),
    {
        let (kind, n) = match self {
            MapId::Normal(n) => ("normal", *n),
            MapId::Egg(n) => ("egg", *n),
        };
        let mut name = String::from_str(kind);
        let digits = format_two_digits(n);
        name.append(digits.as_str());
        name.append(".blm");
        name
    }
}

/// The tiles of a level file: what follows its header.
pub fn level_tiles(file: Vec<u8>) -> (tiles: Vec<u8>)
    requires
        file@.len() >= LEVEL_HEADER_LEN,
    ensures
        tiles@ == file@.skip(LEVEL_HEADER_LEN as int),
{
    let ghost whole = file@;
    let mut rest = file;
    let tiles = rest.split_off(LEVEL_HEADER_LEN);
    assert(tiles@ =~= whole.skip(LEVEL_HEADER_LEN as int));
    tiles
}

impl LevelInfo {
    /// Counts the carrots and finds the start and the finish.
    pub fn scan(map_data: &[u8]) -> (r: LevelInfo)
        ensures
            r.carrot_total == carrots(map_data@),
            r.map_start == last_position(map_data@, START),
            r.map_end == last_position(map_data@, FINISH),
    {
        let mut map_start: usize = 0;
        let mut map_end: usize = 0;
        let mut carrot_total: usize = 0;
        let len = map_data.len();
        let mut idx: usize = 0;
        while idx < len
            invariant
                len == map_data@.len(),
                idx <= len,
                carrot_total == carrots(map_data@.take(idx as int)),
                carrot_total <= idx,
                map_start == last_position(map_data@.take(idx as int), START),
                map_end == last_position(map_data@.take(idx as int), FINISH),
            decreases len - idx,
        {
            assert(map_data@.take(idx + 1).drop_last() =~= map_data@.take(idx as int));
            match map_data[idx] {
                19 => carrot_total = carrot_total + 1,
                21 => map_start = idx,
                44 => map_end = idx,
                _ => {},
            }
            idx = idx + 1;
        }
        assert(map_data@.take(len as int) =~= map_data@);
        LevelInfo { carrot_total, map_start, map_end }
    }
}

} // verus!

use vstd::prelude::*;
use vstd::string::*;

verus! {

/// Why a notice of a match was not understood.
#[derive(Clone, Copy, Debug, PartialEq, Eq, Structural)]
pub enum NoticeError {
    /// The notice holds no message.
    NoMessage,
    /// The message is not a text.
    WrongType,
    /// The message is not in UTF-8.
    NotUtf8,
    /// The text is not the number of a room.
    NotANumber,
}

/// A value that the store sends.
#[derive(Debug)]
pub enum NoticeValue {
    SimpleString(String),
    BulkString(Vec<u8>),
    Other,
}

/// What the store sends unasked: a message of a channel that the server
/// listens to, or something else.
#[derive(Debug)]
pub struct Notice {
    pub is_message: bool,
    pub data: Vec<NoticeValue>,
}

/// The list of the rooms that are free.
pub const ROOMS_KEY: &'static str = "rooms";

/// The byte is a decimal digit.
pub open spec fn is_digit(b: u8) -> bool {
    48 <= b <= 57
}

/// The number that decimal digits stand for.
pub open spec fn digits_value(digits: Seq<u8>) -> nat
    decreases digits.len(),
{
    if digits.len() == 0 {
        0
    } else {
        10 * digits_value(digits.drop_last()) + (digits.last() - 48) as nat
    }
}

/// What follows a leading plus sign.
pub open spec fn unsigned_part(bytes: Seq<u8>) -> Seq<u8> {
    if bytes.len() > 0 && bytes[0] == 43 {
        bytes.drop_first()
    } else {
        bytes
    }
}

/// The number of a room that a text stands for: one digit or more, after at
/// most one plus sign, within the range of an index.
pub open spec fn index_of(bytes: Seq<u8>) -> Option<usize> {
    let digits = unsigned_part(bytes);
    if digits.len() > 0 && (forall|i: int| 0 <= i < digits.len() ==> is_digit(#[trigger] digits[i]))
        && digits_value(digits) <= usize::MAX {
        Some(digits_value(digits) as usize)
    } else {
        None
    }
}

/// The digit for a number below ten.
pub open spec fn digit_char(d: nat) -> char {
    (48 + d) as char
}

/// A number in decimal digits, without leading zeros.
pub open spec fn decimal_chars(n: nat) -> Seq<char>
    decreases n,
{
    if n < 10 {
        seq![digit_char(n)]
    } else {
        decimal_chars(n / 10).push(digit_char(n % 10))
    }
}

/// The name under which the store keeps the keys of a room.
pub open spec fn keys_name_chars(id: nat) -> Seq<char> {
    "room:"@ + decimal_chars(id) + ":keys"@
}

/// The room that a notice says a match was made for. A notice of another kind
/// is none of the server's business.
pub open spec fn notice_room(notice: Notice) -> Result<Option<usize>, NoticeError> {
    if !notice.is_message {
        Ok(None)
    } else if notice.data@.len() < 2 {
        Err(NoticeError::NoMessage)
    } else {
        match notice.data@[1] {
            NoticeValue::SimpleString(text) => match index_of(vstd::utf8::encode_utf8(text@)) {
                Some(id) => Ok(Some(id)),
                None => Err(NoticeError::NotANumber),
            },
            NoticeValue::BulkString(bytes) => if !vstd::utf8::valid_utf8(bytes@) {
                Err(NoticeError::NotUtf8)
            } else {
                match index_of(bytes@) {
                    Some(id) => Ok(Some(id)),
                    None => Err(NoticeError::NotANumber),
                }
            },
            NoticeValue::Other => Err(NoticeError::WrongType),
        }
    }
}

/// `std::str::from_utf8`: a text of these bytes, if they are valid UTF-8.
#[verifier::external_body]
fn utf8_text(bytes: &[u8]) -> (text: Option<&str>)
    ensures
        text is Some <==> vstd::utf8::valid_utf8(bytes@),
        text matches Some(t) ==> vstd::utf8::encode_utf8(t@) == bytes@,
{
    std::str::from_utf8(bytes).ok()
}

/// A single digit as a text.
fn digit_text(d: usize) -> (text: &'static str)
    requires
        d < 10,
    ensures
        text@ == seq![digit_char(d as nat)],
{
    proof {
        reveal_strlit("0");
        reveal_strlit("1");
        reveal_strlit("2");
        reveal_strlit("3");
        reveal_strlit("4");
        reveal_strlit("5");
        reveal_strlit("6");
        reveal_strlit("7");
        reveal_strlit("8");
        reveal_strlit("9");
    }
    let text: &'static str = match d {
        0 => "0",
        1 => "1",
        2 => "2",
        3 => "3",
        4 => "4",
        5 => "5",
        6 => "6",
        7 => "7",
        8 => "8",
        _ => "9",
    };
    assert(text@ =~= seq![digit_char(d as nat)]);
    text
}

/// A number in decimal digits.
pub fn decimal(n: usize) -> (text: String)
    ensures
        text@ == decimal_chars(n as nat),
    decreases n,
{
    let mut text: String = if n < 10 {
        String::new()
    } else {
        decimal(n / 10)
    };
    text.append(digit_text(n % 10));
    assert(text@ =~= decimal_chars(n as nat));
    text
}

/// The name under which the store keeps the keys of a room.
pub fn keys_name(id: usize) -> (name: String)
    ensures
        name@ == keys_name_chars(id as nat),
{
    let mut name: String = "room:".to_string();
    name.append(decimal(id).as_str());
    name.append(":keys");
    name
}

/// More digits stand for no smaller number.
proof fn lemma_digits_grow(digits: Seq<u8>, n: int)
    requires
        0 <= n <= digits.len(),
        forall|i: int| 0 <= i < digits.len() ==> is_digit(#[trigger] digits[i]),
    ensures
        digits_value(digits.take(n)) <= digits_value(digits),
    decreases digits.len() - n,
{
    if n < digits.len() {
        assert(digits.take(n + 1).drop_last() =~= digits.take(n));
        assert(is_digit(digits[n]));
        lemma_digits_grow(digits, n + 1);
    } else {
        assert(digits.take(n) =~= digits);
    }
}

/// Reads the number of a room.
pub fn parse_index(bytes: &[u8]) -> (r: Option<usize>)
    ensures
        r == index_of(bytes@),
{
    let len: usize = bytes.len();
    let start: usize = if len > 0 && bytes[0] == 43 {
        1
    } else {
        0
    };
    let ghost digits = unsigned_part(bytes@);
    assert(digits =~= bytes@.skip(start as int));
    if start == len {
        return None;
    }
    let mut value: usize = 0;
    let mut i: usize = start;
    assert(digits.take(0) =~= Seq::<u8>::empty());
    while i < len
        invariant
            start <= i <= len,
            len == bytes@.len(),
            digits == unsigned_part(bytes@),
            digits == bytes@.skip(start as int),
            digits.len() > 0,
            value == digits_value(digits.take(i - start)),
            forall|j: int| 0 <= j < i - start ==> is_digit(#[trigger] digits[j]),
        decreases len - i,
    {
        let b: u8 = bytes[i];
        assert(digits[i - start] == b);
        if b < 48 || b > 57 {
            assert(!is_digit(digits[i - start]));
            return None;
        }
        let digit: usize = (b - 48) as usize;
        proof {
            assert(digits.take(i - start + 1).drop_last() =~= digits.take(i - start));
            assert(digits.take(i - start + 1).last() == b);
            if digits_value(digits.take(i - start + 1)) > usize::MAX {
                assert(index_of(bytes@) is None) by {
                    if forall|j: int| 0 <= j < digits.len() ==> is_digit(#[trigger] digits[j]) {
                        lemma_digits_grow(digits, i - start + 1);
                    }
                }
            }
        }
        if value > (usize::MAX - digit) / 10 {
            return None;
        }
        value = 10 * value + digit;
        i = i + 1;
    }
    assert(digits.take(i - start) =~= digits);
    Some(value)
}

/// The room that a notice of the store speaks of.
pub fn match_notice(notice: &Notice) -> (r: Result<Option<usize>, NoticeError>)
    ensures
        r == notice_room(*notice),
{
    if !notice.is_message {
        return Ok(None);
    }
    if notice.data.len() < 2 {
        return Err(NoticeError::NoMessage);
    }
    let text: &str = match &notice.data[1] {
        NoticeValue::SimpleString(text) => text.as_str(),
        NoticeValue::BulkString(bytes) => match utf8_text(bytes.as_slice()) {
            Some(text) => text,
            None => {
                return Err(NoticeError::NotUtf8);
            },
        },
        NoticeValue::Other => {
            return Err(NoticeError::WrongType);
        },
    };
    match parse_index(text.as_bytes()) {
        Some(id) => Ok(Some(id)),
        None => Err(NoticeError::NotANumber),
    }
}

/// The digits of a number are ASCII and stand for the number.
proof fn lemma_decimal_value(n: nat)
    ensures
        decimal_chars(n).len() > 0,
        forall|i: int|
            0 <= i < decimal_chars(n).len() ==> 48 <= #[trigger] decimal_chars(n)[i] as int <= 57,
        digits_value(Seq::new(decimal_chars(n).len(), |i: int| decimal_chars(n)[i] as u8)) == n,
    decreases n,
{
    let chars = decimal_chars(n);
    let bytes = Seq::new(chars.len(), |i: int| chars[i] as u8);
    if n < 10 {
        assert(bytes.drop_last() =~= Seq::<u8>::empty());
        assert(digits_value(bytes.drop_last()) == 0);
        assert(bytes.last() == (48 + n) as u8);
    } else {
        lemma_decimal_value(n / 10);
        let before = decimal_chars(n / 10);
        let before_bytes = Seq::new(before.len(), |i: int| before[i] as u8);
        assert(chars =~= before.push(digit_char(n % 10)));
        assert forall|i: int| 0 <= i < chars.len() implies 48 <= #[trigger] chars[i] as int <= 57 by {
            if i < before.len() {
                assert(chars[i] == before[i]);
            }
        }
        assert(bytes.drop_last() =~= before_bytes);
        assert(bytes.last() == (48 + n % 10) as u8);
    }
}

/// The number of a room reads back from its decimal digits.
pub proof fn law_room_number_reads_back(id: usize)
    ensures
        index_of(vstd::utf8::encode_utf8(decimal_chars(id as nat))) == Some(id),
{
    let chars = decimal_chars(id as nat);
    lemma_decimal_value(id as nat);
    assert(vstd::utf8::is_ascii_chars(chars)) by {
        assert forall|i: int| 0 <= i < chars.len() implies 0 <= #[trigger] chars[i] as int <= 127 by {
            assert(48 <= chars[i] as int <= 57);
        }
    }
    vstd::utf8::is_ascii_chars_encode_utf8(chars);
    let bytes = vstd::utf8::encode_utf8(chars);
    assert(bytes =~= Seq::new(chars.len(), |i: int| chars[i] as u8));
    assert forall|i: int| 0 <= i < bytes.len() implies is_digit(#[trigger] bytes[i]) by {
        assert(48 <= chars[i] as int <= 57);
    }
    assert(is_digit(bytes[0]));
}

/// A notice whose message is the number of a room, as the server itself
/// writes it to the list of free rooms, is understood as that room.
pub proof fn law_notice_names_the_room(notice: Notice, id: usize)
    requires
        notice.is_message,
        notice.data@.len() >= 2,
        match notice.data@[1] {
            NoticeValue::SimpleString(text) => text@ == decimal_chars(id as nat),
            NoticeValue::BulkString(bytes) => bytes@ == vstd::utf8::encode_utf8(
                decimal_chars(id as nat),
            ),
            NoticeValue::Other => false,
        },
    ensures
        notice_room(notice) == Ok::<Option<usize>, NoticeError>(Some(id)),
{
    law_room_number_reads_back(id);
    vstd::utf8::encode_utf8_valid_utf8(decimal_chars(id as nat));
}

/// No two rooms keep their keys under one name.
pub proof fn law_keys_names_differ(a: usize, b: usize)
    requires
        a != b,
    ensures
        keys_name_chars(a as nat) != keys_name_chars(b as nat),
{
    if keys_name_chars(a as nat) == keys_name_chars(b as nat) {
        let x = decimal_chars(a as nat);
        let y = decimal_chars(b as nat);
        let head = "room:"@;
        let tail = ":keys"@;
        assert((head + x + tail).len() == (head + y + tail).len());
        assert forall|i: int| 0 <= i < x.len() implies x[i] == y[i] by {
            assert((head + x + tail)[head.len() + i] == x[i]);
            assert((head + y + tail)[head.len() + i] == y[i]);
        }
        assert(x =~= y);
        law_room_number_reads_back(a);
        law_room_number_reads_back(b);
    }
}

} // verus!

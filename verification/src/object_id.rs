use vstd::prelude::*;

verus! {

/// A twelve-byte object identifier, held as its first four and its last eight
/// bytes, each group read as one big-endian number.
#[derive(Clone, Copy, Debug, PartialEq, Eq, Structural)]
pub struct ObjectId {
    pub head: u32,
    pub tail: u64,
}

/// The number that a hexadecimal digit stands for, or -1 for any other character.
pub open spec fn hex_value(c: char) -> int {
    if '0' <= c <= '9' {
        c as int - '0' as int
    } else if 'a' <= c <= 'f' {
        c as int - 'a' as int + 10
    } else if 'A' <= c <= 'F' {
        c as int - 'A' as int + 10
    } else {
        -1
    }
}

/// Whether a text is made of hexadecimal digits only.
pub open spec fn is_hex_text(s: Seq<char>) -> bool {
    forall|i: int| 0 <= i < s.len() ==> hex_value(#[trigger] s[i]) >= 0
}

/// The number written by a run of hexadecimal digits, most significant first.
pub open spec fn hex_number(s: Seq<char>) -> int
    decreases s.len(),
{
    if s.len() == 0 {
        0
    } else {
        hex_number(s.drop_last()) * 16 + hex_value(s.last())
    }
}

/// The lower-case hexadecimal digit for a number below sixteen.
pub open spec fn hex_digit(v: int) -> char {
    if v < 10 {
        ('0' as int + v) as char
    } else {
        ('a' as int + v - 10) as char
    }
}

/// The last `width` hexadecimal digits of `n`, most significant first.
pub open spec fn hex_text(n: int, width: nat) -> Seq<char>
    decreases width,
{
    if width == 0 {
        Seq::empty()
    } else {
        hex_text(n / 16, (width - 1) as nat).push(hex_digit(n % 16))
    }
}

/// A text names an object identifier when it is made of 24 hexadecimal digits.
pub open spec fn is_object_id_text(s: Seq<char>) -> bool {
    s.len() == 24 && is_hex_text(s)
}

/// The identifier that 24 hexadecimal digits name.
pub open spec fn object_id_of_text(s: Seq<char>) -> ObjectId {
    ObjectId {
        head: hex_number(s.subrange(0, 8)) as u32,
        tail: hex_number(s.subrange(8, 24)) as u64,
    }
}

/// The identifier that a text names, if it names one.
pub open spec fn object_id_reading(s: Seq<char>) -> Option<ObjectId> {
    if is_object_id_text(s) {
        Some(object_id_of_text(s))
    } else {
        None
    }
}

/// The canonical text of an identifier: 24 lower-case hexadecimal digits.
pub open spec fn object_id_text(id: ObjectId) -> Seq<char> {
    hex_text(id.head as int, 8) + hex_text(id.tail as int, 16)
}

/// Whether a number that is not negative can be written with `width`
/// hexadecimal digits.
pub open spec fn fits_hex(n: int, width: nat) -> bool
    decreases width,
{
    if width == 0 {
        n == 0
    } else {
        n >= 0 && fits_hex(n / 16, (width - 1) as nat)
    }
}

/// The hexadecimal text of a number has the width asked for and is made of
/// hexadecimal digits; read as a number it gives the number back if the
/// number can be written with that width.
pub proof fn lemma_hex_text_reads_back(n: int, width: nat)
    requires
        n >= 0,
    ensures
        hex_text(n, width).len() == width,
        is_hex_text(hex_text(n, width)),
        fits_hex(n, width) ==> hex_number(hex_text(n, width)) == n,
    decreases width,
{
    if width > 0 {
        let front = hex_text(n / 16, (width - 1) as nat);
        let digit = hex_digit(n % 16);
        lemma_hex_text_reads_back(n / 16, (width - 1) as nat);
        let text = hex_text(n, width);
        assert(text == front.push(digit));
        assert(hex_value(digit) == n % 16);
        assert(text.drop_last() =~= front);
        assert forall|i: int| 0 <= i < text.len() implies hex_value(#[trigger] text[i]) >= 0 by {
            if i < front.len() {
                assert(text[i] == front[i]);
            }
        }
    }
}

/// The canonical text of an identifier reads as that identifier.
pub proof fn law_object_id_text_reads_back(id: ObjectId)
    ensures
        is_object_id_text(object_id_text(id)),
        object_id_reading(object_id_text(id)) == Some(id),
{
    let head = hex_text(id.head as int, 8);
    let tail = hex_text(id.tail as int, 16);
    let text = object_id_text(id);
    lemma_hex_text_reads_back(id.head as int, 8);
    lemma_hex_text_reads_back(id.tail as int, 16);
    assert(fits_hex(id.head as int, 8)) by {
        reveal_with_fuel(fits_hex, 9);
    }
    assert(fits_hex(id.tail as int, 16)) by {
        reveal_with_fuel(fits_hex, 17);
    }
    assert(text.subrange(0, 8) =~= head);
    assert(text.subrange(8, 24) =~= tail);
    assert forall|i: int| 0 <= i < text.len() implies hex_value(#[trigger] text[i]) >= 0 by {
        if i < 8 {
            assert(text[i] == head[i]);
        } else {
            assert(text[i] == tail[i - 8]);
        }
    }
}

/// Calls `bson::oid::ObjectId::parse_str`, which decodes 24 hexadecimal
/// digits of either letter case into twelve bytes and refuses any other text.
#[verifier::external_body]
pub(crate) fn parse_str(s: &str) -> (r: Option<ObjectId>)
    ensures
        r == object_id_reading(s@),
{
    match bson::oid::ObjectId::parse_str(s) {
        Ok(id) => {
            let b = id.bytes();
            Some(ObjectId {
                head: u32::from_be_bytes([b[0], b[1], b[2], b[3]]),
                tail: u64::from_be_bytes([b[4], b[5], b[6], b[7], b[8], b[9], b[10], b[11]]),
            })
        },
        Err(_) => None,
    }
}

/// Calls `bson::oid::ObjectId::to_hex`, which writes the twelve bytes as 24
/// lower-case hexadecimal digits.
#[verifier::external_body]
pub(crate) fn to_hex(id: ObjectId) -> (r: String)
    ensures
        r@ == object_id_text(id),
{
    let h = id.head.to_be_bytes();
    let t = id.tail.to_be_bytes();
    bson::oid::ObjectId::from_bytes(
        [h[0], h[1], h[2], h[3], t[0], t[1], t[2], t[3], t[4], t[5], t[6], t[7]],
    ).to_hex()
}

/// Calls `bson::oid::ObjectId::new`, which makes an identifier from the
/// clock, a per-process random value and a counter. Nothing is promised of it.
#[verifier::external_body]
pub(crate) fn generate() -> ObjectId {
    let b = bson::oid::ObjectId::new().bytes();
    ObjectId {
        head: u32::from_be_bytes([b[0], b[1], b[2], b[3]]),
        tail: u64::from_be_bytes([b[4], b[5], b[6], b[7], b[8], b[9], b[10], b[11]]),
    }
}

impl ObjectId {
    /// Reads an identifier from its text.
    pub fn from_str(s: &str) -> (r: Option<ObjectId>)
        ensures
            r == object_id_reading(s@),
    {
        parse_str(s)
    }

    /// The canonical text of the identifier.
    pub fn to_hex(&self) -> (r: String)
        ensures
            r@ == object_id_text(*self),
    {
        to_hex(*self)
    }

    /// A new identifier.
    pub fn new() -> ObjectId {
        generate()
    }
}

} // verus!

//! Registry values and names as the rules on image registrations read and write them.
use vstd::prelude::*;
use vstd::string::*;
use crate::error::{Error, Result, invalid};
use crate::etw::{has_unit, little_units, read_units};
use crate::text;

verus! {

pub const REG_SZ: u32 = 1;

pub const REG_BINARY: u32 = 3;

pub const REG_DWORD: u32 = 4;

/// The largest value that is read or written, in bytes.
pub const VALUE_LIMIT: usize = 65536;

/// How many keys or values of one key are listed.
pub const LIST_LIMIT: usize = 512;

/// The status that says that a list has ended.
pub const ERROR_NO_MORE_ITEMS: u32 = 259;

/// A registry value: its kind and its bytes.
#[derive(Clone, Debug)]
pub struct Value {
    pub kind: u32,
    pub bytes: Vec<u8>,
}

/// The contents of a value.
pub struct ValueView {
    pub kind: u32,
    pub bytes: Seq<u8>,
}

impl View for Value {
    type V = ValueView;

    open spec fn view(&self) -> ValueView {
        ValueView { kind: self.kind, bytes: self.bytes@ }
    }
}

/// The contents of a value that may be absent.
pub open spec fn value_view(value: Option<Value>) -> Option<ValueView> {
    match value {
        Some(v) => Some(v@),
        None => None,
    }
}

/// The bytes of units, the lower byte first.
pub open spec fn unit_bytes(units: Seq<u16>) -> Seq<u8> {
    Seq::new(
        2 * units.len(),
        |i: int|
            if i % 2 == 0 {
                (units[i / 2] % 256) as u8
            } else {
                (units[i / 2] / 256) as u8
            },
    )
}

/// Units are read back from the bytes that were made of them.
pub proof fn units_round_trip(units: Seq<u16>)
    ensures
        little_units(unit_bytes(units)) == units,
{
    let bytes = unit_bytes(units);
    assert(bytes.len() / 2 == units.len());
    assert forall|i: int| 0 <= i < units.len() implies little_units(bytes)[i] == units[i] by {
        assert((2 * i) / 2 == i && (2 * i + 1) / 2 == i && (2 * i) % 2 == 0 && (2 * i + 1) % 2
            == 1);
        assert(bytes[2 * i] == (units[i] % 256) as u8);
        assert(bytes[2 * i + 1] == (units[i] / 256) as u8);
    }
    assert(little_units(bytes) =~= units);
}

/// A number as a value: four bytes, the lowest first.
pub open spec fn dword_view(value: u32) -> ValueView {
    ValueView {
        kind: REG_DWORD,
        bytes: seq![
            (value % 256) as u8,
            (value / 256 % 256) as u8,
            (value / 65536 % 256) as u8,
            (value / 16777216) as u8,
        ],
    }
}

/// Different numbers are different values.
pub proof fn dwords_are_distinct(a: u32, b: u32)
    requires
        dword_view(a) == dword_view(b),
    ensures
        a == b,
{
    let x = dword_view(a).bytes;
    let y = dword_view(b).bytes;
    assert(x[0] == y[0] && x[1] == y[1] && x[2] == y[2] && x[3] == y[3]);
}

/// A text as a value: its units with a terminator.
pub open spec fn string_view(text: Seq<char>) -> ValueView {
    ValueView { kind: REG_SZ, bytes: unit_bytes(text::utf16(text).push(0)) }
}

/// A value that holds this text: whole units, one terminator, at the end.
pub open spec fn holds_text(value: ValueView, text: Seq<char>) -> bool {
    value.kind == REG_SZ && value.bytes.len() % 2 == 0 && little_units(value.bytes) == text::utf16(
        text,
    ).push(0) && !text::utf16(text).contains(0)
}

/// A text that was written is the text that is read.
pub proof fn strings_round_trip(text: Seq<char>)
    requires
        !text::utf16(text).contains(0),
    ensures
        holds_text(string_view(text), text),
        forall|other: Seq<char>| #[trigger] holds_text(string_view(text), other) ==> other == text,
{
    units_round_trip(text::utf16(text).push(0));
    assert forall|other: Seq<char>| #[trigger] holds_text(
        string_view(text),
        other,
    ) implies other == text by {
        assert(text::utf16(other) =~= text::utf16(other).push(0).drop_last());
        assert(text::utf16(text) =~= text::utf16(text).push(0).drop_last());
        text::utf16_injective(other, text);
    }
}

impl Value {
    /// Whether two values are equal.
    pub fn same(&self, other: &Value) -> (r: bool)
        ensures
            r == (self@ == other@),
    {
        self.kind == other.kind && text::same_bytes(self.bytes.as_slice(), other.bytes.as_slice())
    }

    /// An equal value.
    pub fn copy(&self) -> (r: Value)
        ensures
            r@ == self@,
    {
        Value { kind: self.kind, bytes: text::copy_bytes(self.bytes.as_slice()) }
    }

    /// A number as a value.
    pub fn dword(value: u32) -> (r: Value)
        ensures
            r@ == dword_view(value),
    {
        let mut bytes: Vec<u8> = Vec::new();
        bytes.push((value % 256) as u8);
        bytes.push((value / 256 % 256) as u8);
        bytes.push((value / 65536 % 256) as u8);
        bytes.push((value / 16777216) as u8);
        proof {
            assert(bytes@ =~= dword_view(value).bytes);
        }
        Value { kind: REG_DWORD, bytes }
    }

    /// A text as a value. A text that holds the terminator itself is refused.
    pub fn string(value: &str) -> (r: Result<Value>)
        ensures
            if text::utf16(value@).contains(0) {
                r == invalid::<Value>("EMBEDDED_NUL")
            } else {
                r matches Ok(made) && made@ == string_view(value@)
            },
    {
        let words = text::wide(value)?;
        let mut bytes: Vec<u8> = Vec::new();
        let mut i: usize = 0;
        while i < words.len()
            invariant
                i <= words.len(),
                bytes@.len() == 2 * i,
                bytes@ == unit_bytes(words@.take(i as int)),
            decreases words.len() - i,
        {
            let w: u16 = words[i];
            bytes.push((w % 256) as u8);
            bytes.push((w / 256) as u8);
            i += 1;
            proof {
                let before = unit_bytes(words@.take(i - 1));
                assert(unit_bytes(words@.take(i as int)) =~= before.push((w % 256) as u8).push(
                    (w / 256) as u8,
                ));
            }
        }
        proof {
            assert(words@.take(words@.len() as int) =~= words@);
        }
        Ok(Value { kind: REG_SZ, bytes })
    }

    /// The text that a value holds.
    pub fn text(&self) -> (r: Result<String>)
        ensures
            match r {
                Ok(text) => holds_text(self@, text@),
                Err(e) => e == Error::Invalid("IFEO_INVALID_STRING") && forall|text: Seq<char>|
                    !(#[trigger] holds_text(self@, text)),
            },
    {
        if self.kind != REG_SZ || self.bytes.len() % 2 != 0 || self.bytes.len() < 2 {
            proof {
                assert forall|text: Seq<char>| !(#[trigger] holds_text(self@, text)) by {
                    if holds_text(self@, text) {
                        assert(little_units(self.bytes@).len() >= 1);
                    }
                }
            }
            return Err(Error::Invalid("IFEO_INVALID_STRING"));
        }
        let mut words = read_units(self.bytes.as_slice());
        let ghost all = words@;
        let last: u16 = words[words.len() - 1];
        words.truncate(words.len() - 1);
        proof {
            assert(all =~= words@.push(last));
            assert forall|text: Seq<char>| #[trigger] holds_text(self@, text) implies text::utf16(
                text,
            ) == words@ && last == 0 by {
                assert(text::utf16(text) =~= text::utf16(text).push(0).drop_last());
                assert(words@ =~= all.drop_last());
                assert(text::utf16(text).push(0).last() == 0);
            }
        }
        if last != 0 || has_unit(words.as_slice(), 0) {
            return Err(Error::Invalid("IFEO_INVALID_STRING"));
        }
        match text::from_utf16(words.as_slice()) {
            Some(text) => Ok(text),
            None => Err(Error::Invalid("IFEO_INVALID_STRING")),
        }
    }
}

/// Whether two values that may be absent are equal.
pub fn same_value(a: &Option<Value>, b: &Option<Value>) -> (r: bool)
    ensures
        r == (value_view(*a) == value_view(*b)),
{
    match (a, b) {
        (Some(x), Some(y)) => x.same(y),
        (None, None) => true,
        _ => false,
    }
}

/// A copy of a value that may be absent.
pub fn copy_value(value: &Option<Value>) -> (r: Option<Value>)
    ensures
        value_view(r) == value_view(*value),
{
    match value {
        Some(v) => Some(v.copy()),
        None => None,
    }
}

/// A name that can name one key: not empty, and without separators.
pub fn key_name(name: &str) -> (r: Result<Vec<u16>>)
    ensures
        if name@.len() == 0 || name@.contains('\\') || name@.contains('/') {
            r == invalid::<Vec<u16>>("IFEO_KEY_NAME")
        } else if text::utf16(name@).contains(0) {
            r == invalid::<Vec<u16>>("EMBEDDED_NUL")
        } else {
            r matches Ok(words) && words@ == text::utf16(name@).push(0)
        },
{
    let x = text::chars(name);
    if x.len() == 0 {
        return Err(Error::Invalid("IFEO_KEY_NAME"));
    }
    let mut i: usize = 0;
    while i < x.len()
        invariant
            i <= x.len(),
            x@ == name@,
            forall|k: int| 0 <= k < i ==> name@[k] != '\\' && name@[k] != '/',
        decreases x.len() - i,
    {
        if x[i] == '\\' || x[i] == '/' {
            proof {
                assert(name@[i as int] == '\\' || name@[i as int] == '/');
            }
            return Err(Error::Invalid("IFEO_KEY_NAME"));
        }
        i += 1;
    }
    text::wide(name)
}

/// What a value that was read in two steps comes to: the size that was announced must be bounded, and
/// the value may not have grown in between.
pub fn read_value(announced: u32, kind: u32, bytes: Vec<u8>, size: u32) -> (r: Result<Value>)
    ensures
        if announced > VALUE_LIMIT {
            r == invalid::<Value>("IFEO_VALUE_SIZE")
        } else if size > bytes@.len() {
            r == invalid::<Value>("IFEO_VALUE_CHANGED")
        } else {
            r matches Ok(value) && value.kind == kind && value.bytes@ == bytes@.take(size as int)
        },
{
    if announced > VALUE_LIMIT as u32 {
        return Err(Error::Invalid("IFEO_VALUE_SIZE"));
    }
    if size as usize > bytes.len() {
        return Err(Error::Invalid("IFEO_VALUE_CHANGED"));
    }
    let mut bytes = bytes;
    let ghost all = bytes@;
    bytes.truncate(size as usize);
    proof {
        assert(bytes@ =~= all.take(size as int));
    }
    Ok(Value { kind, bytes })
}

/// The value that an encoded record is kept in.
pub fn encode(bytes: Vec<u8>) -> (r: Result<Value>)
    ensures
        r == (if bytes@.len() > VALUE_LIMIT {
            invalid::<Value>("IFEO_RECORD_SIZE")
        } else {
            Ok(Value { kind: REG_BINARY, bytes })
        }),
{
    if bytes.len() > VALUE_LIMIT {
        return Err(Error::Invalid("IFEO_RECORD_SIZE"));
    }
    Ok(Value { kind: REG_BINARY, bytes })
}

/// The encoded record that a value keeps.
pub open spec fn record_bytes(value: Value) -> Result<Vec<u8>> {
    if value.kind != REG_BINARY || value.bytes@.len() > VALUE_LIMIT {
        invalid("IFEO_INVALID_RECORD")
    } else {
        Ok(value.bytes)
    }
}

/// The encoded record that a value keeps.
pub fn decode(value: Value) -> (r: Result<Vec<u8>>)
    ensures
        r == record_bytes(value),
{
    if value.kind != REG_BINARY || value.bytes.len() > VALUE_LIMIT {
        return Err(Error::Invalid("IFEO_INVALID_RECORD"));
    }
    Ok(value.bytes)
}

/// A record that fits is read back as it was kept.
pub proof fn records_round_trip(bytes: Vec<u8>)
    requires
        bytes@.len() <= VALUE_LIMIT,
    ensures
        record_bytes(Value { kind: REG_BINARY, bytes }) == Ok::<Vec<u8>, Error>(bytes),
{
}

/// One element of a list of keys or values: the status of listing it, and its name.
#[derive(Debug)]
pub struct Listed {
    pub status: u32,
    pub name: Vec<u16>,
}

/// The names of a list from place `i` on: it must end before the limit, and every name must be a text.
pub open spec fn listing(
    list: Seq<Listed>,
    i: int,
    operation: &'static str,
    too_many: &'static str,
    not_text: &'static str,
) -> Result<int>
    decreases list.len() - i,
{
    if i < 0 || i >= list.len() {
        Ok(list.len() as int)
    } else if list[i].status == ERROR_NO_MORE_ITEMS {
        Ok(i)
    } else if list[i].status != 0 {
        Err(Error::Windows { operation, code: list[i].status })
    } else if i >= LIST_LIMIT {
        invalid(too_many)
    } else if !text::is_utf16(list[i].name@) {
        invalid(not_text)
    } else {
        listing(list, i + 1, operation, too_many, not_text)
    }
}

/// The names of a list of keys or values.
pub fn list_names(
    list: &[Listed],
    operation: &'static str,
    too_many: &'static str,
    not_text: &'static str,
) -> (r: Result<Vec<String>>)
    ensures
        match listing(list@, 0, operation, too_many, not_text) {
            Err(e) => r == Err::<Vec<String>, Error>(e),
            Ok(n) => r matches Ok(names) && names@.len() == n && n <= list@.len() && forall|k: int|
                0 <= k < n ==> text::utf16((#[trigger] names@[k])@) == list@[k].name@,
        },
{
    let mut names: Vec<String> = Vec::new();
    let mut i: usize = 0;
    while i < list.len()
        invariant
            i <= list.len(),
            names@.len() == i,
            forall|k: int|
                0 <= k < i ==> text::utf16((#[trigger] names@[k])@) == list@[k].name@,
            listing(list@, 0, operation, too_many, not_text) == listing(
                list@,
                i as int,
                operation,
                too_many,
                not_text,
            ),
        decreases list.len() - i,
    {
        let status: u32 = list[i].status;
        if status == ERROR_NO_MORE_ITEMS {
            return Ok(names);
        }
        if status != 0 {
            return Err(Error::Windows { operation, code: status });
        }
        if i >= LIST_LIMIT {
            return Err(Error::Invalid(too_many));
        }
        match text::from_utf16(list[i].name.as_slice()) {
            Some(name) => {
                proof {
                    assert(text::is_utf16(list@[i as int].name@));
                }
                names.push(name);
            },
            None => {
                return Err(Error::Invalid(not_text));
            },
        }
        i += 1;
    }
    Ok(names)
}

} // verus!

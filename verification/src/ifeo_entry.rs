//! What Windows starts in place of a registered target: the fixed envelope of its command line, and the
//! checks before anything is done on behalf of the target.
use vstd::prelude::*;
use vstd::string::*;
use crate::error::{Error, Result, invalid};
use crate::ids::{Uuid, uuid_text};
use crate::ifeo_rules::{EntryPath, Registration, RegistrationView, entry_paths};
use crate::model::{FileIdentity, ProcessIdentity, ProcessView};
use crate::path;
use crate::text;
use crate::text::utf16;

verus! {

/// The longest command line, in UTF-16 units.
pub const COMMAND_LIMIT: usize = 32766;

/// The integrity level of an ordinary program.
pub const MEDIUM_INTEGRITY: u32 = 0x2000;

/// The quotation mark, and the fixed parts of the envelope.
pub open spec fn quote() -> u16 {
    34
}

pub open spec fn verb() -> Seq<u16> {
    utf16(" ifeo-entry --registration "@)
}

pub open spec fn delimiter() -> Seq<u16> {
    utf16(" -- "@)
}

/// The command line that starts an entry: the quoted host, the fixed verb, the registration, the
/// delimiter, and the target's own command line unchanged.
pub open spec fn envelope(host: Seq<u16>, id: Uuid, target: Seq<u16>) -> Seq<u16> {
    seq![quote()] + host + seq![quote()] + verb() + utf16(uuid_text(id.bits)) + delimiter() + target
}

/// A command line that is the envelope of these parts.
pub open spec fn is_envelope(command: Seq<u16>, host: Seq<u16>, id: Uuid, target: Seq<u16>) -> bool {
    command == envelope(host, id, target) && !host.contains(quote()) && id.bits != 0
        && !command.contains(0) && command.len() <= COMMAND_LIMIT
}

/// The parts of an envelope.
#[derive(Debug)]
pub struct Envelope {
    pub registration: Uuid,
    pub host: Vec<u16>,
    pub raw_target: Vec<u16>,
}

fn slice(words: &[u16], from: usize, to: usize) -> (r: Vec<u16>)
    requires
        from <= to <= words@.len(),
    ensures
        r@ == words@.subrange(from as int, to as int),
{
    let mut out: Vec<u16> = Vec::new();
    let mut i: usize = from;
    while i < to
        invariant
            from <= i <= to <= words@.len(),
            out@ == words@.subrange(from as int, i as int),
        decreases to - i,
    {
        out.push(words[i]);
        i += 1;
        proof {
            assert(words@.subrange(from as int, i as int) =~= words@.subrange(
                from as int,
                i - 1,
            ).push(words@[i - 1]));
        }
    }
    out
}

/// The UTF-16 form of an ASCII text has one unit for each character.
proof fn ascii_units(t: Seq<char>)
    requires
        forall|i: int| 0 <= i < t.len() ==> #[trigger] t[i] as u32 <= 0x7f,
    ensures
        utf16(t).len() == t.len(),
        forall|i: int| 0 <= i < t.len() ==> #[trigger] utf16(t)[i] == t[i] as u32,
    decreases t.len(),
{
    if t.len() > 0 {
        let front = t.drop_last();
        assert forall|i: int| 0 <= i < front.len() implies #[trigger] front[i] as u32 <= 0x7f by {
            assert(t[i] as u32 <= 0x7f);
        }
        ascii_units(front);
        assert(t[t.len() - 1] as u32 <= 0x7f);
        assert forall|i: int| 0 <= i < t.len() implies #[trigger] utf16(t)[i] == t[i] as u32 by {
            if i < front.len() {
                assert(utf16(front)[i] == front[i] as u32);
            }
        }
    }
}

proof fn id_units(id: Uuid)
    ensures
        utf16(uuid_text(id.bits)).len() == 36,
{
    let t = uuid_text(id.bits);
    assert forall|i: int| 0 <= i < t.len() implies #[trigger] t[i] as u32 <= 0x7f by {
        let k = crate::ids::digits_before(i);
        let s = (4 * (31 - k)) as u128;
        let b = id.bits;
        assert((b >> s) & 0xf < 16) by (bit_vector);
        let n = crate::ids::nibble(id.bits, k);
        assert(0 <= n < 16);
    }
    ascii_units(t);
}

proof fn envelope_shape(host: Seq<u16>, id: Uuid, target: Seq<u16>)
    ensures
        ({
            let command = envelope(host, id, target);
            let h = host.len() as int;
            let v = verb().len() as int;
            let d = delimiter().len() as int;
            &&& utf16(uuid_text(id.bits)).len() == 36
            &&& command.len() == 2 + h + v + 36 + d + target.len()
            &&& command[0] == quote()
            &&& command[h + 1] == quote()
            &&& command.subrange(1, h + 1) == host
            &&& command.subrange(h + 2, h + 2 + v) == verb()
            &&& command.subrange(h + 2 + v, h + 38 + v) == utf16(uuid_text(id.bits))
            &&& command.subrange(h + 38 + v, h + 38 + v + d) == delimiter()
            &&& command.subrange(h + 38 + v + d, command.len() as int) == target
        }),
{
    id_units(id);
    let command = envelope(host, id, target);
    let h = host.len() as int;
    let v = verb().len() as int;
    let d = delimiter().len() as int;
    assert(command.subrange(1, h + 1) =~= host);
    assert(command.subrange(h + 2, h + 2 + v) =~= verb());
    assert(command.subrange(h + 2 + v, h + 38 + v) =~= utf16(uuid_text(id.bits)));
    assert(command.subrange(h + 38 + v, h + 38 + v + d) =~= delimiter());
    assert(command.subrange(h + 38 + v + d, command.len() as int) =~= target);
}

/// The first quotation mark behind the opening one ends the host, so an envelope has only one host.
proof fn host_is_fixed(command: Seq<u16>, end: int, host: Seq<u16>, id: Uuid, target: Seq<u16>)
    requires
        is_envelope(command, host, id, target),
        1 <= end < command.len(),
        command[end] == quote(),
        forall|k: int| 1 <= k < end ==> command[k] != quote(),
    ensures
        host.len() + 1 == end,
{
    envelope_shape(host, id, target);
    let h = host.len() as int;
    if end < h + 1 {
        assert(command.subrange(1, h + 1)[end - 1] == command[end]);
        assert(host[end - 1] == quote());
        assert(host.contains(quote()));
    } else if end > h + 1 {
        assert(command[h + 1] != quote());
    }
}

/// Take an envelope apart. Nothing is searched for behind the fixed places, so that the target's own
/// arguments cannot pass for parts of the envelope.
pub fn open_envelope(command: &[u16]) -> (r: Result<Envelope>)
    ensures
        match r {
            Ok(parts) => is_envelope(
                command@,
                parts.host@,
                parts.registration,
                parts.raw_target@,
            ),
            Err(e) => e == Error::Invalid("IFEO_INVALID_ENVELOPE") && forall|
                host: Seq<u16>,
                id: Uuid,
                target: Seq<u16>,
            |
                !(#[trigger] is_envelope(command@, host, id, target)),
        },
{
    proof {
        assert forall|host: Seq<u16>, id: Uuid, target: Seq<u16>| #[trigger]
            is_envelope(command@, host, id, target) implies command@.len() >= 2 && command@[0]
            == quote() by {
            envelope_shape(host, id, target);
        }
    }
    if command.len() == 0 || command.len() > COMMAND_LIMIT || crate::etw::has_unit(command, 0) {
        return Err(Error::Invalid("IFEO_INVALID_ENVELOPE"));
    }
    if command[0] != 34 {
        return Err(Error::Invalid("IFEO_INVALID_ENVELOPE"));
    }
    let mut end: usize = 1;
    while end < command.len() && command[end] != 34
        invariant
            1 <= end <= command.len(),
            forall|k: int| 1 <= k < end ==> command@[k] != quote(),
        decreases command.len() - end,
    {
        end += 1;
    }
    if end == command.len() {
        proof {
            assert forall|host: Seq<u16>, id: Uuid, target: Seq<u16>| !(#[trigger] is_envelope(
                command@,
                host,
                id,
                target,
            )) by {
                if is_envelope(command@, host, id, target) {
                    envelope_shape(host, id, target);
                    assert(command@[host.len() as int + 1] == quote());
                }
            }
        }
        return Err(Error::Invalid("IFEO_INVALID_ENVELOPE"));
    }
    proof {
        assert forall|host: Seq<u16>, id: Uuid, target: Seq<u16>| #[trigger]
            is_envelope(command@, host, id, target) implies host.len() + 1 == end by {
            host_is_fixed(command@, end as int, host, id, target);
        }
    }
    let fixed = text::encode_utf16(" ifeo-entry --registration ");
    let tail = slice(command, end + 1, command.len());
    if !text::words_begin(tail.as_slice(), fixed.as_slice()) {
        proof {
            assert forall|host: Seq<u16>, id: Uuid, target: Seq<u16>| !(#[trigger] is_envelope(
                command@,
                host,
                id,
                target,
            )) by {
                if is_envelope(command@, host, id, target) {
                    envelope_shape(host, id, target);
                    assert(verb() =~= tail@.take(verb().len() as int));
                }
            }
        }
        return Err(Error::Invalid("IFEO_INVALID_ENVELOPE"));
    }
    let at: usize = end + 1 + fixed.len();
    let separator = text::encode_utf16(" -- ");
    if command.len() - at < 36 {
        proof {
            assert forall|host: Seq<u16>, id: Uuid, target: Seq<u16>| !(#[trigger] is_envelope(
                command@,
                host,
                id,
                target,
            )) by {
                if is_envelope(command@, host, id, target) {
                    envelope_shape(host, id, target);
                }
            }
        }
        return Err(Error::Invalid("IFEO_INVALID_ENVELOPE"));
    }
    let id_words = slice(command, at, at + 36);
    let id_text = match text::from_utf16(id_words.as_slice()) {
        Some(id_text) => id_text,
        None => {
            proof {
                assert forall|host: Seq<u16>, id: Uuid, target: Seq<u16>| !(#[trigger] is_envelope(
                    command@,
                    host,
                    id,
                    target,
                )) by {
                    if is_envelope(command@, host, id, target) {
                        envelope_shape(host, id, target);
                        assert(utf16(uuid_text(id.bits)) == id_words@);
                    }
                }
            }
            return Err(Error::Invalid("IFEO_INVALID_ENVELOPE"));
        },
    };
    proof {
        assert forall|host: Seq<u16>, id: Uuid, target: Seq<u16>| #[trigger]
            is_envelope(command@, host, id, target) implies id_text@ == id.text() by {
            envelope_shape(host, id, target);
            assert(utf16(uuid_text(id.bits)) == id_words@);
            text::utf16_injective(id_text@, uuid_text(id.bits));
        }
    }
    let registration = match Uuid::canonical(id_text.as_str()) {
        Some(id) => id,
        None => {
            return Err(Error::Invalid("IFEO_INVALID_ENVELOPE"));
        },
    };
    if registration.is_nil() {
        proof {
            assert forall|host: Seq<u16>, id: Uuid, target: Seq<u16>| !(#[trigger] is_envelope(
                command@,
                host,
                id,
                target,
            )) by {
                if is_envelope(command@, host, id, target) {
                    crate::ids::uuid_text_injective(id.bits, registration.bits);
                }
            }
        }
        return Err(Error::Invalid("IFEO_INVALID_ENVELOPE"));
    }
    let rest = slice(command, at + 36, command.len());
    if !text::words_begin(rest.as_slice(), separator.as_slice()) {
        proof {
            assert forall|host: Seq<u16>, id: Uuid, target: Seq<u16>| !(#[trigger] is_envelope(
                command@,
                host,
                id,
                target,
            )) by {
                if is_envelope(command@, host, id, target) {
                    envelope_shape(host, id, target);
                    assert(delimiter() =~= rest@.take(delimiter().len() as int));
                }
            }
        }
        return Err(Error::Invalid("IFEO_INVALID_ENVELOPE"));
    }
    let host = slice(command, 1, end);
    let raw_target = slice(command, at + 36 + separator.len(), command.len());
    proof {
        assert(fixed@ == tail@.take(fixed@.len() as int));
        assert(separator@ == rest@.take(separator@.len() as int));
        assert(id_words@ == utf16(uuid_text(registration.bits)));
        id_units(registration);
        let c = command@;
        let n = c.len() as int;
        let f = fixed@.len() as int;
        let d = separator@.len() as int;
        assert(c.subrange(end + 1, end + 1 + f) =~= verb()) by {
            assert(tail@.take(f) =~= c.subrange(end + 1, end + 1 + f));
        }
        assert(c.subrange(at + 36, at + 36 + d) =~= delimiter()) by {
            assert(rest@.take(d) =~= c.subrange(at + 36, at + 36 + d));
        }
        assert(envelope(host@, registration, raw_target@) =~= c) by {
            let e = envelope(host@, registration, raw_target@);
            envelope_shape(host@, registration, raw_target@);
            assert(e.len() == n);
            assert forall|i: int| 0 <= i < n implies e[i] == c[i] by {
                if i == 0 {
                } else if i < end {
                    assert(e.subrange(1, end as int)[i - 1] == host@[i - 1]);
                } else if i == end {
                } else if i < at {
                    assert(e.subrange(end + 1, at as int)[i - end - 1] == verb()[i - end - 1]);
                    assert(c.subrange(end + 1, at as int)[i - end - 1] == verb()[i - end - 1]);
                } else if i < at + 36 {
                    assert(e.subrange(at as int, at + 36)[i - at] == id_words@[i - at]);
                    assert(id_words@[i - at] == c[i]);
                } else if i < at + 36 + d {
                    assert(e.subrange(at + 36, at + 36 + d)[i - at - 36] == delimiter()[i - at
                        - 36]);
                    assert(c.subrange(at + 36, at + 36 + d)[i - at - 36] == delimiter()[i - at
                        - 36]);
                } else {
                    assert(e.subrange(at + 36 + d, n)[i - at - 36 - d] == raw_target@[i - at - 36
                        - d]);
                    assert(raw_target@[i - at - 36 - d] == c[i]);
                }
            }
        }
        assert(!host@.contains(quote())) by {
            if host@.contains(quote()) {
                let k = choose|k: int| 0 <= k < host@.len() && host@[k] == quote();
                assert(command@[k + 1] == quote());
            }
        }
    }
    Ok(Envelope { registration, host, raw_target })
}

/// An envelope is taken apart into exactly the parts it was made of.
pub proof fn envelopes_are_unambiguous(
    host: Seq<u16>,
    id: Uuid,
    target: Seq<u16>,
    other_host: Seq<u16>,
    other_id: Uuid,
    other_target: Seq<u16>,
)
    requires
        is_envelope(envelope(host, id, target), host, id, target),
        is_envelope(envelope(host, id, target), other_host, other_id, other_target),
    ensures
        host == other_host,
        id == other_id,
        target == other_target,
{
    let command = envelope(host, id, target);
    envelope_shape(host, id, target);
    envelope_shape(other_host, other_id, other_target);
    let end = host.len() as int + 1;
    assert forall|k: int| 1 <= k < end implies command[k] != quote() by {
        if command[k] == quote() {
            assert(command.subrange(1, end)[k - 1] == quote());
            assert(host.contains(quote()));
        }
    }
    host_is_fixed(command, end, other_host, other_id, other_target);
    text::utf16_injective(uuid_text(id.bits), uuid_text(other_id.bits));
    crate::ids::uuid_text_injective(id.bits, other_id.bits);
}

/// The ASCII characters of words; every other unit stands for some character that no drive, separator or prefix
/// holds.
pub open spec fn shape(words: Seq<u16>) -> Seq<char> {
    words.map_values(
        |w: u16|
            if w < 128 {
                w as u8 as char
            } else {
                '_'
            },
    )
}

/// A path in units that names its drive or server and its root.
pub open spec fn words_absolute(words: Seq<u16>) -> bool {
    path::absolute(shape(words))
}

/// Whether a path in units names its drive or server and its root.
pub fn is_words_absolute(words: &[u16]) -> (r: bool)
    ensures
        r == words_absolute(words@),
{
    let mut out = String::new();
    let mut i: usize = 0;
    while i < words.len()
        invariant
            i <= words.len(),
            out@ == shape(words@).take(i as int),
        decreases words.len() - i,
    {
        let w: u16 = words[i];
        out.push(
            if w < 128 {
                (w as u8) as char
            } else {
                '_'
            },
        );
        i += 1;
        proof {
            assert(shape(words@).take(i as int) =~= shape(words@).take(i - 1).push(
                shape(words@)[i - 1],
            ));
        }
    }
    proof {
        assert(shape(words@).take(words@.len() as int) =~= shape(words@));
    }
    path::is_absolute(out.as_str())
}

/// An entry that was started in place of a target. Its arguments may hold secrets and are never shown.
pub struct Invocation {
    pub registration: Uuid,
    pub host: Vec<u16>,
    pub target: Vec<u16>,
    pub arguments: Vec<Vec<u16>>,
    pub raw_target: Vec<u16>,
}

/// Why an entry was not started for a registration by its owner from its host.
pub open spec fn entry_verdict(
    registration: Uuid,
    record: RegistrationView,
    current: ProcessView,
    host: EntryPath,
    target: EntryPath,
    image: EntryPath,
) -> Result<()> {
    if registration != record.id || current.user_sid != record.owner_sid {
        invalid("IFEO_OWNER_MISMATCH")
    } else if entry_paths(record, host, target) is Err {
        entry_paths(record, host, target)
    } else if entry_paths(record, image, target) is Err {
        entry_paths(record, image, target)
    } else if current.image_file != record.host_image {
        invalid("IFEO_ENTRY_IMAGE_MISMATCH")
    } else {
        Ok(())
    }
}

impl Invocation {
    /// The registration that the entry was started for.
    pub fn registration_id(&self) -> (r: Uuid)
        ensures
            r == self.registration,
    {
        self.registration
    }

    /// The target's arguments.
    pub fn arguments(&self) -> (r: &[Vec<u16>])
        ensures
            r@ == self.arguments@,
    {
        self.arguments.as_slice()
    }

    /// The target's command line as it was given.
    pub fn raw_target_command_line(&self) -> (r: &[u16])
        ensures
            r@ == self.raw_target@,
    {
        self.raw_target.as_slice()
    }

    /// Check that the entry runs from the registered host, for its owner, and for the registered
    /// target. `host` and `target` are the paths of the command line, `image` that of the process.
    pub fn matches_record(
        &self,
        record: &Registration,
        current: &ProcessIdentity,
        host: &EntryPath,
        target: &EntryPath,
        image: &EntryPath,
    ) -> (r: Result<()>)
        ensures
            r == entry_verdict(self.registration, record@, current@, *host, *target, *image),
    {
        if self.registration != record.id || !text::same(
            current.user_sid.as_str(),
            record.owner_sid.as_str(),
        ) {
            return Err(Error::Invalid("IFEO_OWNER_MISMATCH"));
        }
        record.matches_entry_paths(host, target)?;
        record.matches_entry_paths(image, target)?;
        if current.image_file != record.host_image {
            return Err(Error::Invalid("IFEO_ENTRY_IMAGE_MISMATCH"));
        }
        Ok(())
    }
}

/// The invocation that an envelope and the words of the target's command line make. `words` is `None`
/// when the command line has no words.
pub fn invocation(parts: Envelope, words: Option<Vec<Vec<u16>>>) -> (r: Result<Invocation>)
    ensures
        invoked(parts, words, r),
{
    let mut arguments = match words {
        Some(list) => list,
        None => {
            return Err(Error::Invalid("IFEO_INVALID_TARGET_COMMAND"));
        },
    };
    if arguments.len() == 0 {
        return Err(Error::Invalid("IFEO_INVALID_TARGET_COMMAND"));
    }
    let ghost all = arguments@;
    let target = arguments.remove(0);
    proof {
        assert(arguments@ =~= all.skip(1));
    }
    if !is_words_absolute(parts.host.as_slice()) || !is_words_absolute(target.as_slice()) {
        return Err(Error::Invalid("IFEO_ABSOLUTE_PATH_REQUIRED"));
    }
    Ok(
        Invocation {
            registration: parts.registration,
            host: parts.host,
            target,
            arguments,
            raw_target: parts.raw_target,
        },
    )
}

/// The units of a command line up to its terminator, which must come within the limit.
pub fn command_units(units: &[u16]) -> (r: Result<Vec<u16>>)
    ensures
        match r {
            Ok(found) => found@.len() <= COMMAND_LIMIT && found@.len() < units@.len() && found@
                == units@.take(found@.len() as int) && units@[found@.len() as int] == 0
                && !found@.contains(0),
            Err(e) => e == Error::Invalid("IFEO_COMMAND_LINE_SIZE") && forall|i: int|
                0 <= i < units@.len() && i <= COMMAND_LIMIT ==> units@[i] != 0,
        },
{
    let mut i: usize = 0;
    while i < units.len() && i <= COMMAND_LIMIT
        invariant
            i <= units.len(),
            i <= COMMAND_LIMIT + 1,
            forall|k: int| 0 <= k < i ==> units@[k] != 0,
        decreases units.len() - i,
    {
        if units[i] == 0 {
            let found = slice(units, 0, i);
            proof {
                assert(found@ =~= units@.take(i as int));
            }
            return Ok(found);
        }
        i += 1;
    }
    Err(Error::Invalid("IFEO_COMMAND_LINE_SIZE"))
}

/// Whether an entry may act in this context: an interactive session, the integrity of an ordinary
/// program, no access to other programs' windows, and no sandbox.
pub fn supported(session: u32, integrity: u32, ui_access: u32, app_container: u32) -> (r: bool)
    ensures
        r == (session != 0 && integrity == MEDIUM_INTEGRITY && ui_access == 0 && app_container
            == 0),
{
    session != 0 && integrity == MEDIUM_INTEGRITY && ui_access == 0 && app_container == 0
}

/// What is seen of a token's integrity label: how many bytes were written into how many, whether the
/// label is sound, how many parts it has, and the last part.
#[derive(Clone, Copy, Debug, PartialEq, Eq, Structural)]
pub struct LabelSeen {
    pub written: u32,
    pub minimum: u32,
    pub capacity: u32,
    pub valid: bool,
    pub parts: u8,
    pub integrity: u32,
}

/// Check the context that an entry runs in.
pub fn ordinary_entry(session: u32, label: LabelSeen, ui_access: u32, app_container: u32) -> (r: Result<
    (),
>)
    ensures
        r == (if label.minimum <= label.written <= label.capacity && label.valid && label.parts != 0
            && session != 0 && label.integrity == MEDIUM_INTEGRITY && ui_access == 0
            && app_container == 0 {
            Ok(())
        } else {
            invalid::<()>("IFEO_CONTEXT_UNSUPPORTED")
        }),
{
    if label.written < label.minimum || label.written > label.capacity || !label.valid
        || label.parts == 0 {
        return Err(Error::Invalid("IFEO_CONTEXT_UNSUPPORTED"));
    }
    if !supported(session, label.integrity, ui_access, app_container) {
        return Err(Error::Invalid("IFEO_CONTEXT_UNSUPPORTED"));
    }
    Ok(())
}

/// Check that the target that was resolved is the registered file.
pub fn check_target(image: FileIdentity, record: &Registration) -> (r: Result<()>)
    ensures
        r == (if image == record.target_image {
            Ok(())
        } else {
            invalid::<()>("IFEO_TARGET_CHANGED")
        }),
{
    if image != record.target_image {
        return Err(Error::Invalid("IFEO_TARGET_CHANGED"));
    }
    Ok(())
}

/// Check before dispatch that the registration still is the one that was verified.
pub fn check_unchanged(actual: &Registration, verified: &Registration) -> (r: Result<()>)
    ensures
        r == (if actual@ == verified@ {
            Ok(())
        } else {
            invalid::<()>("IFEO_REGISTRATION_CHANGED")
        }),
{
    if !actual.same(verified) {
        return Err(Error::Invalid("IFEO_REGISTRATION_CHANGED"));
    }
    Ok(())
}

/// What an entry is called with, or why it is not used.
pub open spec fn invoked(parts: Envelope, words: Option<Vec<Vec<u16>>>, r: Result<Invocation>) -> bool {
    match words {
        Some(list) if list@.len() > 0 => if !words_absolute(parts.host@) || !words_absolute(
            list@[0]@,
        ) {
            r == invalid::<Invocation>("IFEO_ABSOLUTE_PATH_REQUIRED")
        } else {
            r matches Ok(made) && made.registration == parts.registration && made.host
                == parts.host && made.target == list@[0] && made.arguments@ == list@.skip(1)
                && made.raw_target == parts.raw_target
        },
        _ => r == invalid::<Invocation>("IFEO_INVALID_TARGET_COMMAND"),
    }
}

} // verus!

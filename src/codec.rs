use vstd::prelude::*;
use vstd::bytes::{spec_u64_from_le_bytes, u64_from_le_bytes};
use vstd::string::StrSliceExecFns;
use vstd::slice::slice_subrange;
use crate::keys::{Key, base58_of};

verus! {

/// An event of the vault program, decoded from a program log line.
#[derive(Debug, Clone)]
pub enum VaultEvent {
    VaultAuthorityInitialized { admin: String },
    ProgramAuthorized { program_id: String },
    VaultInitialized { vault: String, owner: String, mint: String, timestamp: i64 },
    Deposit { user: String, amount: u64, new_balance: u64, timestamp: i64 },
    Withdraw { vault: String, user: String, amount: u64 },
    Lock { vault: String, amount: u64 },
    Unlock { vault: String, amount: u64 },
    Transfer { from: String, to: String, amount: u64 },
}

/// The kinds of event that the codec recognises by their 8-byte discriminator.
#[derive(Debug, Clone, Copy, PartialEq, Eq, Structural)]
pub enum EventKind {
    VaultAuthorityInitialized,
    ProgramAuthorized,
    VaultInitialized,
    Deposit,
    Withdraw,
    Lock,
    Unlock,
    Transfer,
}

/// A known discriminator whose payload does not have the record's exact size.
#[derive(Debug, Clone, Copy, PartialEq, Eq, Structural)]
pub struct ParseError {
    pub kind: EventKind,
    pub payload_len: usize,
}

pub open spec fn discriminator_of(kind: EventKind) -> Seq<u8> {
    match kind {
        EventKind::VaultAuthorityInitialized => seq![95u8, 255, 252, 53, 25, 33, 57, 40],
        EventKind::ProgramAuthorized => seq![59u8, 38, 123, 101, 35, 35, 172, 29],
        EventKind::VaultInitialized => seq![180u8, 43, 207, 2, 18, 71, 3, 75],
        EventKind::Deposit => seq![120u8, 248, 61, 83, 31, 142, 107, 144],
        EventKind::Withdraw => seq![51u8, 224, 133, 106, 74, 173, 72, 82],
        EventKind::Lock => seq![185u8, 146, 119, 8, 41, 179, 88, 96],
        EventKind::Unlock => seq![195u8, 248, 152, 155, 116, 178, 189, 221],
        EventKind::Transfer => seq![119u8, 180, 79, 171, 178, 67, 120, 237],
    }
}

/// Size of each record after the discriminator: 32 bytes per address,
/// 8 per integer.
pub open spec fn payload_size(kind: EventKind) -> int {
    match kind {
        EventKind::VaultAuthorityInitialized => 32,
        EventKind::ProgramAuthorized => 32,
        EventKind::VaultInitialized => 104,
        EventKind::Deposit => 56,
        EventKind::Withdraw => 72,
        EventKind::Lock => 40,
        EventKind::Unlock => 40,
        EventKind::Transfer => 72,
    }
}

/// The kind whose discriminator opens `data`, if any.
pub open spec fn kind_of(data: Seq<u8>) -> Option<EventKind> {
    if data.len() < 8 {
        None
    } else {
        let d = data.subrange(0, 8);
        if d == discriminator_of(EventKind::VaultAuthorityInitialized) {
            Some(EventKind::VaultAuthorityInitialized)
        } else if d == discriminator_of(EventKind::ProgramAuthorized) {
            Some(EventKind::ProgramAuthorized)
        } else if d == discriminator_of(EventKind::VaultInitialized) {
            Some(EventKind::VaultInitialized)
        } else if d == discriminator_of(EventKind::Deposit) {
            Some(EventKind::Deposit)
        } else if d == discriminator_of(EventKind::Withdraw) {
            Some(EventKind::Withdraw)
        } else if d == discriminator_of(EventKind::Lock) {
            Some(EventKind::Lock)
        } else if d == discriminator_of(EventKind::Unlock) {
            Some(EventKind::Unlock)
        } else if d == discriminator_of(EventKind::Transfer) {
            Some(EventKind::Transfer)
        } else {
            None
        }
    }
}

/// The text of the address stored at offset `o`.
pub open spec fn key_field(data: Seq<u8>, o: int) -> Seq<char> {
    base58_of(data.subrange(o, o + 32))
}

/// The little-endian unsigned integer stored at offset `o`.
pub open spec fn u64_field(data: Seq<u8>, o: int) -> u64 {
    spec_u64_from_le_bytes(data.subrange(o, o + 8))
}

/// The little-endian signed integer stored at offset `o`.
pub open spec fn i64_field(data: Seq<u8>, o: int) -> i64 {
    spec_u64_from_le_bytes(data.subrange(o, o + 8)) as i64
}

/// `e` is the event that the record `data` encodes.
pub open spec fn decodes_to(data: Seq<u8>, e: VaultEvent) -> bool {
    match e {
        VaultEvent::VaultAuthorityInitialized { admin } => kind_of(data)
            == Some(EventKind::VaultAuthorityInitialized) && admin@ == key_field(data, 8),
        VaultEvent::ProgramAuthorized { program_id } => kind_of(data) == Some(
            EventKind::ProgramAuthorized,
        ) && program_id@ == key_field(data, 8),
        VaultEvent::VaultInitialized { vault, owner, mint, timestamp } => kind_of(data) == Some(
            EventKind::VaultInitialized,
        ) && vault@ == key_field(data, 8) && owner@ == key_field(data, 40) && mint@ == key_field(
            data,
            72,
        ) && timestamp == i64_field(data, 104),
        VaultEvent::Deposit { user, amount, new_balance, timestamp } => kind_of(data) == Some(
            EventKind::Deposit,
        ) && user@ == key_field(data, 8) && amount == u64_field(data, 40) && new_balance
            == u64_field(data, 48) && timestamp == i64_field(data, 56),
        VaultEvent::Withdraw { vault, user, amount } => kind_of(data) == Some(EventKind::Withdraw)
            && vault@ == key_field(data, 8) && user@ == key_field(data, 40) && amount == u64_field(
            data,
            72,
        ),
        VaultEvent::Lock { vault, amount } => kind_of(data) == Some(EventKind::Lock) && vault@
            == key_field(data, 8) && amount == u64_field(data, 40),
        VaultEvent::Unlock { vault, amount } => kind_of(data) == Some(EventKind::Unlock) && vault@
            == key_field(data, 8) && amount == u64_field(data, 40),
        VaultEvent::Transfer { from, to, amount } => kind_of(data) == Some(EventKind::Transfer)
            && from@ == key_field(data, 8) && to@ == key_field(data, 40) && amount == u64_field(
            data,
            72,
        ),
    }
}

/// The record has a known discriminator and exactly the size of its kind.
pub open spec fn well_sized(data: Seq<u8>) -> bool {
    match kind_of(data) {
        Some(k) => data.len() == 8 + payload_size(k),
        None => true,
    }
}

fn opens_with(data: &Vec<u8>, d: [u8; 8]) -> (r: bool)
    requires
        data@.len() >= 8,
    ensures
        r == (data@.subrange(0, 8) == d@),
{
    let mut i: usize = 0;
    while i < 8
        invariant
            data@.len() >= 8,
            0 <= i <= 8,
            forall|j: int| 0 <= j < i ==> data@[j] == d@[j],
        decreases 8 - i,
    {
        if data[i] != d[i] {
            assert(data@.subrange(0, 8)[i as int] != d@[i as int]);
            return false;
        }
        i = i + 1;
    }
    assert(data@.subrange(0, 8) =~= d@);
    true
}

/// The recognised kind of a record, by its first eight bytes.
pub fn event_kind(data: &Vec<u8>) -> (r: Option<EventKind>)
    ensures
        r == kind_of(data@),
{
    if data.len() < 8 {
        return None;
    }
    proof {
        assert(seq![95u8, 255, 252, 53, 25, 33, 57, 40] =~= [95u8, 255, 252, 53, 25, 33, 57, 40]@);
        assert(seq![59u8, 38, 123, 101, 35, 35, 172, 29] =~= [59u8, 38, 123, 101, 35, 35, 172, 29]@);
        assert(seq![180u8, 43, 207, 2, 18, 71, 3, 75] =~= [180u8, 43, 207, 2, 18, 71, 3, 75]@);
        assert(seq![120u8, 248, 61, 83, 31, 142, 107, 144] =~= [120u8, 248, 61, 83, 31, 142, 107, 144]@);
        assert(seq![51u8, 224, 133, 106, 74, 173, 72, 82] =~= [51u8, 224, 133, 106, 74, 173, 72, 82]@);
        assert(seq![185u8, 146, 119, 8, 41, 179, 88, 96] =~= [185u8, 146, 119, 8, 41, 179, 88, 96]@);
        assert(seq![195u8, 248, 152, 155, 116, 178, 189, 221] =~= [195u8, 248, 152, 155, 116, 178, 189, 221]@);
        assert(seq![119u8, 180, 79, 171, 178, 67, 120, 237] =~= [119u8, 180, 79, 171, 178, 67, 120, 237]@);
    }
    if opens_with(data, [95, 255, 252, 53, 25, 33, 57, 40]) {
        Some(EventKind::VaultAuthorityInitialized)
    } else if opens_with(data, [59, 38, 123, 101, 35, 35, 172, 29]) {
        Some(EventKind::ProgramAuthorized)
    } else if opens_with(data, [180, 43, 207, 2, 18, 71, 3, 75]) {
        Some(EventKind::VaultInitialized)
    } else if opens_with(data, [120, 248, 61, 83, 31, 142, 107, 144]) {
        Some(EventKind::Deposit)
    } else if opens_with(data, [51, 224, 133, 106, 74, 173, 72, 82]) {
        Some(EventKind::Withdraw)
    } else if opens_with(data, [185, 146, 119, 8, 41, 179, 88, 96]) {
        Some(EventKind::Lock)
    } else if opens_with(data, [195, 248, 152, 155, 116, 178, 189, 221]) {
        Some(EventKind::Unlock)
    } else if opens_with(data, [119, 180, 79, 171, 178, 67, 120, 237]) {
        Some(EventKind::Transfer)
    } else {
        None
    }
}

fn key_at(data: &Vec<u8>, o: usize) -> (r: Key)
    requires
        o + 32 <= data@.len(),
    ensures
        r.bytes@ == data@.subrange(o as int, o + 32),
{
    let mut b = [0u8; 32];
    let n = data.len();
    let mut i: usize = 0;
    while i < 32
        invariant
            n == data@.len(),
            o + 32 <= data@.len(),
            0 <= i <= 32,
            forall|j: int| 0 <= j < i ==> b@[j] == data@[o + j],
        decreases 32 - i,
    {
        b[i] = data[o + i];
        i = i + 1;
    }
    assert(b@ =~= data@.subrange(o as int, o + 32));
    Key { bytes: b }
}

fn key_text_at(data: &Vec<u8>, o: usize) -> (r: String)
    requires
        o + 32 <= data@.len(),
    ensures
        r@ == key_field(data@, o as int),
{
    key_at(data, o).to_text()
}

fn u64_at(data: &Vec<u8>, o: usize) -> (r: u64)
    requires
        o + 8 <= data@.len(),
    ensures
        r == u64_field(data@, o as int),
{
    let n = data.len();
    let part = slice_subrange(data.as_slice(), o, o + 8);
    u64_from_le_bytes(part)
}

fn i64_at(data: &Vec<u8>, o: usize) -> (r: i64)
    requires
        o + 8 <= data@.len(),
    ensures
        r == i64_field(data@, o as int),
{
    u64_at(data, o) as i64
}

/// Decodes one event record: `Ok(None)` for a record shorter than a
/// discriminator or with an unknown one, an error for a known discriminator
/// whose payload does not have exactly the record's size.
pub fn parse_event(data: &Vec<u8>) -> (r: Result<Option<VaultEvent>, ParseError>)
    ensures
        kind_of(data@) is None <==> r == Ok::<Option<VaultEvent>, ParseError>(None),
        r is Err <==> !well_sized(data@),
        r matches Ok(Some(e)) ==> decodes_to(data@, e),
        r matches Err(err) ==> kind_of(data@) == Some(err.kind) && err.payload_len == data@.len() - 8,
{
    let kind = match event_kind(data) {
        None => return Ok(None),
        Some(k) => k,
    };
    let len = data.len();
    let size: usize = match kind {
        EventKind::VaultAuthorityInitialized => 32,
        EventKind::ProgramAuthorized => 32,
        EventKind::VaultInitialized => 104,
        EventKind::Deposit => 56,
        EventKind::Withdraw => 72,
        EventKind::Lock => 40,
        EventKind::Unlock => 40,
        EventKind::Transfer => 72,
    };
    if len - 8 != size {
        return Err(ParseError { kind, payload_len: len - 8 });
    }
    let ev = match kind {
        EventKind::VaultAuthorityInitialized => VaultEvent::VaultAuthorityInitialized {
            admin: key_text_at(data, 8),
        },
        EventKind::ProgramAuthorized => VaultEvent::ProgramAuthorized {
            program_id: key_text_at(data, 8),
        },
        EventKind::VaultInitialized => VaultEvent::VaultInitialized {
            vault: key_text_at(data, 8),
            owner: key_text_at(data, 40),
            mint: key_text_at(data, 72),
            timestamp: i64_at(data, 104),
        },
        EventKind::Deposit => VaultEvent::Deposit {
            user: key_text_at(data, 8),
            amount: u64_at(data, 40),
            new_balance: u64_at(data, 48),
            timestamp: i64_at(data, 56),
        },
        EventKind::Withdraw => VaultEvent::Withdraw {
            vault: key_text_at(data, 8),
            user: key_text_at(data, 40),
            amount: u64_at(data, 72),
        },
        EventKind::Lock => VaultEvent::Lock { vault: key_text_at(data, 8), amount: u64_at(data, 40) },
        EventKind::Unlock => VaultEvent::Unlock {
            vault: key_text_at(data, 8),
            amount: u64_at(data, 40),
        },
        EventKind::Transfer => VaultEvent::Transfer {
            from: key_text_at(data, 8),
            to: key_text_at(data, 40),
            amount: u64_at(data, 72),
        },
    };
    Ok(Some(ev))
}

/// The bytes that standard-alphabet base64 text decodes to, if it is valid.
pub uninterp spec fn base64_decoded(text: Seq<char>) -> Option<Seq<u8>>;

/// Relies on `base64::engine::general_purpose::STANDARD.decode`: standard
/// alphabet with padding.
#[verifier::external_body]
fn decode_base64(text: &str) -> (r: Option<Vec<u8>>)
    ensures
        match r {
            Some(b) => base64_decoded(text@) == Some(b@),
            None => base64_decoded(text@) is None,
        },
{
    base64::Engine::decode(&base64::engine::general_purpose::STANDARD, text).ok()
}

/// The prefix of a program log line that may carry an event record.
pub open spec fn log_prefix() -> Seq<char> {
    seq!['P', 'r', 'o', 'g', 'r', 'a', 'm', ' ', 'l', 'o', 'g', ':', ' ']
}

pub open spec fn is_base64_char(c: char) -> bool {
    ('a' <= c && c <= 'z') || ('A' <= c && c <= 'Z') || ('0' <= c && c <= '9') || c == '+' || c
        == '/' || c == '='
}

/// The record carried by a log line: the base64 payload after the prefix,
/// when every character of it is in the base64 alphabet and it decodes.
pub open spec fn log_record(line: Seq<char>) -> Option<Seq<u8>> {
    let p = log_prefix();
    if line.len() >= p.len() && line.subrange(0, p.len() as int) == p {
        let payload = line.subrange(p.len() as int, line.len() as int);
        if forall|i: int| 0 <= i < payload.len() ==> is_base64_char(#[trigger] payload[i]) {
            base64_decoded(payload)
        } else {
            None
        }
    } else {
        None
    }
}

/// The records, in order, of the lines that carry one with a known discriminator.
pub open spec fn event_records(lines: Seq<Seq<char>>) -> Seq<Seq<u8>>
    decreases lines.len(),
{
    if lines.len() == 0 {
        Seq::empty()
    } else {
        let rest = event_records(lines.drop_last());
        match log_record(lines.last()) {
            Some(b) => if kind_of(b) is Some {
                rest.push(b)
            } else {
                rest
            },
            None => rest,
        }
    }
}

pub open spec fn line_views(logs: Seq<String>) -> Seq<Seq<char>> {
    logs.map_values(|l: String| l@)
}

proof fn lemma_event_records_prefix(lines: Seq<Seq<char>>, i: int)
    requires
        0 <= i <= lines.len(),
    ensures
        event_records(lines.subrange(0, i)).len() <= event_records(lines).len(),
        event_records(lines.subrange(0, i)) == event_records(lines).subrange(
            0,
            event_records(lines.subrange(0, i)).len() as int,
        ),
    decreases lines.len() - i,
{
    if i == lines.len() {
        assert(lines.subrange(0, i) =~= lines);
        assert(event_records(lines) =~= event_records(lines).subrange(0, event_records(lines).len() as int));
    } else {
        lemma_event_records_prefix(lines, i + 1);
        let next = lines.subrange(0, i + 1);
        assert(next.drop_last() =~= lines.subrange(0, i));
        let a = event_records(lines.subrange(0, i));
        let b = event_records(next);
        if b != a {
            assert(b == a.push(log_record(next.last())->Some_0));
            assert(a =~= b.subrange(0, a.len() as int));
        }
    }
}

fn has_prefix(line: &str) -> (r: bool)
    ensures
        r == (line@.len() >= log_prefix().len() && line@.subrange(0, log_prefix().len() as int)
            == log_prefix()),
{
    let p = ['P', 'r', 'o', 'g', 'r', 'a', 'm', ' ', 'l', 'o', 'g', ':', ' '];
    assert(p@ =~= log_prefix());
    let n = line.unicode_len();
    if n < 13 {
        return false;
    }
    let mut i: usize = 0;
    while i < 13
        invariant
            n == line@.len(),
            n >= 13,
            p@ == log_prefix(),
            0 <= i <= 13,
            forall|j: int| 0 <= j < i ==> line@[j] == p@[j],
        decreases 13 - i,
    {
        if line.get_char(i) != p[i] {
            assert(line@.subrange(0, 13)[i as int] != p@[i as int]);
            return false;
        }
        i = i + 1;
    }
    assert(line@.subrange(0, 13) =~= p@);
    true
}

fn all_base64_chars(text: &str) -> (r: bool)
    ensures
        r == forall|i: int| 0 <= i < text@.len() ==> is_base64_char(#[trigger] text@[i]),
{
    let n = text.unicode_len();
    let mut i: usize = 0;
    while i < n
        invariant
            n == text@.len(),
            0 <= i <= n,
            forall|j: int| 0 <= j < i ==> is_base64_char(#[trigger] text@[j]),
        decreases n - i,
    {
        let c = text.get_char(i);
        if !(('a' <= c && c <= 'z') || ('A' <= c && c <= 'Z') || ('0' <= c && c <= '9') || c == '+'
            || c == '/' || c == '=') {
            return false;
        }
        i = i + 1;
    }
    true
}

/// The record that a log line carries, if any.
pub fn log_line_record(line: &str) -> (r: Option<Vec<u8>>)
    ensures
        match r {
            Some(b) => log_record(line@) == Some(b@),
            None => log_record(line@) is None,
        },
{
    if !has_prefix(line) {
        return None;
    }
    let n = line.unicode_len();
    let payload = line.substring_char(13, n);
    assert(payload@ =~= line@.subrange(log_prefix().len() as int, line@.len() as int));
    if !all_base64_chars(payload) {
        return None;
    }
    decode_base64(payload)
}

/// Decodes the events of a transaction's program log lines, in order. Lines
/// without the program-log prefix, with a payload outside the base64
/// alphabet, that do not decode, or whose record is short or has an unknown
/// discriminator are skipped; a known record of the wrong size is an error.
pub fn decode_events(logs: &Vec<String>) -> (r: Result<Vec<VaultEvent>, ParseError>)
    ensures
        r is Ok <==> forall|i: int|
            0 <= i < event_records(line_views(logs@)).len() ==> well_sized(
                #[trigger] event_records(line_views(logs@))[i],
            ),
        r matches Ok(es) ==> es@.len() == event_records(line_views(logs@)).len() && forall|i: int|
            0 <= i < es@.len() ==> decodes_to(event_records(line_views(logs@))[i], #[trigger] es@[i]),
{
    let ghost lines = line_views(logs@);
    let mut events: Vec<VaultEvent> = Vec::new();
    let mut i: usize = 0;
    while i < logs.len()
        invariant
            lines == line_views(logs@),
            0 <= i <= logs@.len(),
            events@.len() == event_records(lines.subrange(0, i as int)).len(),
            forall|j: int|
                0 <= j < events@.len() ==> decodes_to(
                    event_records(lines.subrange(0, i as int))[j],
                    #[trigger] events@[j],
                ),
            forall|j: int|
                0 <= j < events@.len() ==> well_sized(
                    #[trigger] event_records(lines.subrange(0, i as int))[j],
                ),
        decreases logs@.len() - i,
    {
        let ghost before = lines.subrange(0, i as int);
        let ghost after = lines.subrange(0, i + 1);
        assert(after.drop_last() =~= before);
        assert(after.last() == logs@[i as int]@);
        let rec = log_line_record(logs[i].as_str());
        match rec {
            Some(bytes) => {
                let parsed = parse_event(&bytes);
                match parsed {
                    Err(e) => {
                        proof {
                            lemma_event_records_prefix(lines, i + 1);
                            assert(lines.subrange(0, i + 1) =~= after);
                            let k = event_records(after).len() - 1;
                            assert(event_records(after)[k] == bytes@);
                            assert(event_records(lines)[k] == bytes@);
                            assert(!well_sized(event_records(lines)[k]));
                        }
                        return Err(e);
                    },
                    Ok(None) => {},
                    Ok(Some(ev)) => {
                        events.push(ev);
                    },
                }
            },
            None => {},
        }
        i = i + 1;
    }
    assert(lines.subrange(0, logs@.len() as int) =~= lines);
    Ok(events)
}

} // verus!

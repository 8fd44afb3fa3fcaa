//! Turns the free text of a WHOIS response into a typed record.
//!
//! Each line of the form `key: value` whose key, trimmed and in lower case,
//! is one of the known spellings of a field fills that field. Single-valued
//! fields keep the first value seen; list fields collect every value in order.
use vstd::prelude::*;
use vstd::utf8::{decode_utf8, valid_utf8};

use crate::datetime::{date_of, parse_datetime, DateTime};
use crate::errors::WhoisError;
use crate::text::{chars_of, from_utf8, index_from, index_of_from, lower, lowered, slice_of, string_of, trim, trimmed};

verus! {

/// The fields of a WHOIS record.
#[derive(Clone, Copy, Debug, PartialEq, Eq, Structural)]
pub enum Field {
    DomainName,
    RegistryDomainId,
    RegistrarWhoisServer,
    RegistrarUrl,
    UpdatedDate,
    CreationDate,
    RegistryExpiryDate,
    Registrar,
    RegistrarIanaId,
    RegistrarAbuseEmail,
    RegistrarAbusePhone,
    DomainStatus,
    NameServers,
    Dnssec,
}

/// The spellings registries use for each field, in lower case.
pub open spec fn alias_table() -> Seq<(Seq<char>, Field)> {
    seq![
        ("domain name"@, Field::DomainName),
        ("domain"@, Field::DomainName),
        ("registry domain id"@, Field::RegistryDomainId),
        ("domain id"@, Field::RegistryDomainId),
        ("registrar whois server"@, Field::RegistrarWhoisServer),
        ("whois server"@, Field::RegistrarWhoisServer),
        ("registrar url"@, Field::RegistrarUrl),
        ("referral url"@, Field::RegistrarUrl),
        ("updated date"@, Field::UpdatedDate),
        ("last updated"@, Field::UpdatedDate),
        ("last modified"@, Field::UpdatedDate),
        ("changed"@, Field::UpdatedDate),
        ("creation date"@, Field::CreationDate),
        ("created"@, Field::CreationDate),
        ("created on"@, Field::CreationDate),
        ("registered"@, Field::CreationDate),
        ("registry expiry date"@, Field::RegistryExpiryDate),
        ("registrar registration expiration date"@, Field::RegistryExpiryDate),
        ("expiration date"@, Field::RegistryExpiryDate),
        ("expiry date"@, Field::RegistryExpiryDate),
        ("paid-till"@, Field::RegistryExpiryDate),
        ("registrar"@, Field::Registrar),
        ("registrar name"@, Field::Registrar),
        ("sponsoring registrar"@, Field::Registrar),
        ("registrar iana id"@, Field::RegistrarIanaId),
        ("registrar abuse contact email"@, Field::RegistrarAbuseEmail),
        ("registrar abuse contact phone"@, Field::RegistrarAbusePhone),
        ("domain status"@, Field::DomainStatus),
        ("status"@, Field::DomainStatus),
        ("name server"@, Field::NameServers),
        ("name servers"@, Field::NameServers),
        ("nserver"@, Field::NameServers),
        ("dnssec"@, Field::Dnssec),
    ]
}

/// The field of the first table entry at or after `i` spelled `key`.
pub open spec fn field_from(key: Seq<char>, i: int) -> Option<Field>
    decreases alias_table().len() - i,
{
    if 0 <= i < alias_table().len() {
        if alias_table()[i].0 == key {
            Some(alias_table()[i].1)
        } else {
            field_from(key, i + 1)
        }
    } else {
        None
    }
}

/// The field a normalized key names, if any.
pub open spec fn field_of(key: Seq<char>) -> Option<Field> {
    field_from(key, 0)
}

/// A structured WHOIS record; every field is absent until a line fills it.
#[derive(Clone, Debug, PartialEq, Eq)]
pub struct WhoisInformation {
    pub domain_name: Option<String>,
    pub registry_domain_id: Option<String>,
    pub registrar_whois_server: Option<String>,
    pub registrar_url: Option<String>,
    pub updated_date: Option<DateTime>,
    pub creation_date: Option<DateTime>,
    pub registry_expirity_date: Option<DateTime>,
    pub registrar: Option<String>,
    pub registrar_iana_id: Option<String>,
    pub registrar_abuse_email_contact: Option<String>,
    pub registrar_abuse_phone_contact: Option<String>,
    pub domain_status: Option<Vec<String>>,
    pub name_servers: Option<Vec<String>>,
    pub dnssec: Option<String>,
}

pub struct RecordView {
    pub domain_name: Option<Seq<char>>,
    pub registry_domain_id: Option<Seq<char>>,
    pub registrar_whois_server: Option<Seq<char>>,
    pub registrar_url: Option<Seq<char>>,
    pub updated_date: Option<DateTime>,
    pub creation_date: Option<DateTime>,
    pub registry_expirity_date: Option<DateTime>,
    pub registrar: Option<Seq<char>>,
    pub registrar_iana_id: Option<Seq<char>>,
    pub registrar_abuse_email_contact: Option<Seq<char>>,
    pub registrar_abuse_phone_contact: Option<Seq<char>>,
    pub domain_status: Option<Seq<Seq<char>>>,
    pub name_servers: Option<Seq<Seq<char>>>,
    pub dnssec: Option<Seq<char>>,
}

pub open spec fn text_view(o: Option<String>) -> Option<Seq<char>> {
    match o {
        None => None,
        Some(s) => Some(s@),
    }
}

pub open spec fn list_view(o: Option<Vec<String>>) -> Option<Seq<Seq<char>>> {
    match o {
        None => None,
        Some(v) => Some(v@.map_values(|s: String| s@)),
    }
}

impl View for WhoisInformation {
    type V = RecordView;

    open spec fn view(&self) -> RecordView {
        RecordView {
            domain_name: text_view(self.domain_name),
            registry_domain_id: text_view(self.registry_domain_id),
            registrar_whois_server: text_view(self.registrar_whois_server),
            registrar_url: text_view(self.registrar_url),
            updated_date: self.updated_date,
            creation_date: self.creation_date,
            registry_expirity_date: self.registry_expirity_date,
            registrar: text_view(self.registrar),
            registrar_iana_id: text_view(self.registrar_iana_id),
            registrar_abuse_email_contact: text_view(self.registrar_abuse_email_contact),
            registrar_abuse_phone_contact: text_view(self.registrar_abuse_phone_contact),
            domain_status: list_view(self.domain_status),
            name_servers: list_view(self.name_servers),
            dnssec: text_view(self.dnssec),
        }
    }
}

/// The record with every field absent.
pub open spec fn empty_record() -> RecordView {
    RecordView {
        domain_name: None,
        registry_domain_id: None,
        registrar_whois_server: None,
        registrar_url: None,
        updated_date: None,
        creation_date: None,
        registry_expirity_date: None,
        registrar: None,
        registrar_iana_id: None,
        registrar_abuse_email_contact: None,
        registrar_abuse_phone_contact: None,
        domain_status: None,
        name_servers: None,
        dnssec: None,
    }
}

pub open spec fn first_text(cur: Option<Seq<char>>, v: Seq<char>) -> Option<Seq<char>> {
    if cur is Some {
        cur
    } else {
        Some(v)
    }
}

pub open spec fn first_date(cur: Option<DateTime>, v: Seq<char>) -> Option<DateTime> {
    if cur is Some {
        cur
    } else {
        date_of(v)
    }
}

pub open spec fn appended(cur: Option<Seq<Seq<char>>>, v: Seq<char>) -> Option<Seq<Seq<char>>> {
    match cur {
        None => Some(seq![v]),
        Some(l) => Some(l.push(v)),
    }
}

/// `rec` after a line gave value `v` for field `f`.
pub open spec fn put(rec: RecordView, f: Field, v: Seq<char>) -> RecordView {
    match f {
        Field::DomainName => RecordView { domain_name: first_text(rec.domain_name, v), ..rec },
        Field::RegistryDomainId => RecordView {
            registry_domain_id: first_text(rec.registry_domain_id, v),
            ..rec
        },
        Field::RegistrarWhoisServer => RecordView {
            registrar_whois_server: first_text(rec.registrar_whois_server, v),
            ..rec
        },
        Field::RegistrarUrl => RecordView { registrar_url: first_text(rec.registrar_url, v), ..rec },
        Field::UpdatedDate => RecordView { updated_date: first_date(rec.updated_date, v), ..rec },
        Field::CreationDate => RecordView { creation_date: first_date(rec.creation_date, v), ..rec },
        Field::RegistryExpiryDate => RecordView {
            registry_expirity_date: first_date(rec.registry_expirity_date, v),
            ..rec
        },
        Field::Registrar => RecordView { registrar: first_text(rec.registrar, v), ..rec },
        Field::RegistrarIanaId => RecordView {
            registrar_iana_id: first_text(rec.registrar_iana_id, v),
            ..rec
        },
        Field::RegistrarAbuseEmail => RecordView {
            registrar_abuse_email_contact: first_text(rec.registrar_abuse_email_contact, v),
            ..rec
        },
        Field::RegistrarAbusePhone => RecordView {
            registrar_abuse_phone_contact: first_text(rec.registrar_abuse_phone_contact, v),
            ..rec
        },
        Field::DomainStatus => RecordView { domain_status: appended(rec.domain_status, v), ..rec },
        Field::NameServers => RecordView { name_servers: appended(rec.name_servers, v), ..rec },
        Field::Dnssec => RecordView { dnssec: first_text(rec.dnssec, v), ..rec },
    }
}

/// The field a line fills and the value it gives: the line splits at its
/// first `:`; the key, trimmed and in lower case, must name a field; the
/// value is the trimmed rest.
pub open spec fn line_entry(line: Seq<char>) -> Option<(Field, Seq<char>)> {
    match index_from(line, ':', 0) {
        None => None,
        Some(k) => match field_of(lower(trim(line.subrange(0, k)))) {
            None => None,
            Some(f) => Some((f, trim(line.subrange(k + 1, line.len() as int)))),
        },
    }
}

pub open spec fn absorb(rec: RecordView, line: Seq<char>) -> RecordView {
    match line_entry(line) {
        None => rec,
        Some((f, v)) => put(rec, f, v),
    }
}

/// The lines of `line + rest`, split at each `\n`.
pub open spec fn split_lines(line: Seq<char>, rest: Seq<char>) -> Seq<Seq<char>>
    decreases rest.len(),
{
    if rest.len() == 0 {
        seq![line]
    } else if rest[0] == '\n' {
        seq![line] + split_lines(Seq::empty(), rest.drop_first())
    } else {
        split_lines(line.push(rest[0]), rest.drop_first())
    }
}

/// The lines of a text, split at each `\n`.
pub open spec fn lines(text: Seq<char>) -> Seq<Seq<char>> {
    split_lines(Seq::empty(), text)
}

pub open spec fn absorb_all(rec: RecordView, ls: Seq<Seq<char>>) -> RecordView
    decreases ls.len(),
{
    if ls.len() == 0 {
        rec
    } else {
        absorb_all(absorb(rec, ls[0]), ls.drop_first())
    }
}

/// The record a response text describes: its lines absorbed in order.
pub open spec fn record_of(text: Seq<char>) -> RecordView {
    absorb_all(empty_record(), lines(text))
}

/// Parsing is a function of the text alone: equal texts give field-for-field
/// equal records, however often they are parsed.
pub proof fn lemma_parse_deterministic(a: Seq<char>, b: Seq<char>)
    requires
        a == b,
    ensures
        record_of(a) == record_of(b),
{
}

proof fn lemma_skipped_lines_keep_record(rec: RecordView, ls: Seq<Seq<char>>)
    requires
        forall|i: int| 0 <= i < ls.len() ==> line_entry(#[trigger] ls[i]) is None,
    ensures
        absorb_all(rec, ls) == rec,
    decreases ls.len(),
{
    if ls.len() > 0 {
        assert(line_entry(ls[0]) is None);
        let rest = ls.drop_first();
        assert forall|i: int| 0 <= i < rest.len() implies line_entry(#[trigger] rest[i]) is None by {
            assert(rest[i] == ls[i + 1]);
        }
        lemma_skipped_lines_keep_record(rec, rest);
    }
}

/// A text in which no line names a known field parses to the record with
/// every field absent.
pub proof fn lemma_unknown_keys_give_empty_record(text: Seq<char>)
    requires
        forall|i: int| 0 <= i < lines(text).len() ==> line_entry(#[trigger] lines(text)[i]) is None,
    ensures
        record_of(text) == empty_record(),
{
    lemma_skipped_lines_keep_record(empty_record(), lines(text));
}

/// The alias table, in the order in which it is searched.
fn aliases() -> (r: Vec<(&'static str, Field)>)
    ensures
        r@.len() == alias_table().len(),
        forall|i: int|
            0 <= i < r@.len() ==> (#[trigger] r@[i]).0@ == alias_table()[i].0 && r@[i].1
                == alias_table()[i].1,
{
    vec![
        ("domain name", Field::DomainName),
        ("domain", Field::DomainName),
        ("registry domain id", Field::RegistryDomainId),
        ("domain id", Field::RegistryDomainId),
        ("registrar whois server", Field::RegistrarWhoisServer),
        ("whois server", Field::RegistrarWhoisServer),
        ("registrar url", Field::RegistrarUrl),
        ("referral url", Field::RegistrarUrl),
        ("updated date", Field::UpdatedDate),
        ("last updated", Field::UpdatedDate),
        ("last modified", Field::UpdatedDate),
        ("changed", Field::UpdatedDate),
        ("creation date", Field::CreationDate),
        ("created", Field::CreationDate),
        ("created on", Field::CreationDate),
        ("registered", Field::CreationDate),
        ("registry expiry date", Field::RegistryExpiryDate),
        ("registrar registration expiration date", Field::RegistryExpiryDate),
        ("expiration date", Field::RegistryExpiryDate),
        ("expiry date", Field::RegistryExpiryDate),
        ("paid-till", Field::RegistryExpiryDate),
        ("registrar", Field::Registrar),
        ("registrar name", Field::Registrar),
        ("sponsoring registrar", Field::Registrar),
        ("registrar iana id", Field::RegistrarIanaId),
        ("registrar abuse contact email", Field::RegistrarAbuseEmail),
        ("registrar abuse contact phone", Field::RegistrarAbusePhone),
        ("domain status", Field::DomainStatus),
        ("status", Field::DomainStatus),
        ("name server", Field::NameServers),
        ("name servers", Field::NameServers),
        ("nserver", Field::NameServers),
        ("dnssec", Field::Dnssec),
    ]
}

fn same_chars(a: &[char], b: &[char]) -> (r: bool)
    ensures
        r == (a@ == b@),
{
    if a.len() != b.len() {
        return false;
    }
    let mut i: usize = 0;
    while i < a.len()
        invariant
            a.len() == b.len(),
            i <= a.len(),
            forall|j: int| 0 <= j < i ==> a@[j] == b@[j],
        decreases a.len() - i,
    {
        if a[i] != b[i] {
            return false;
        }
        i = i + 1;
    }
    assert(a@ =~= b@);
    true
}

/// The field a normalized key names, if any.
pub fn field_for_key(key: &[char]) -> (r: Option<Field>)
    ensures
        r == field_of(key@),
{
    let table = aliases();
    let mut i: usize = 0;
    while i < table.len()
        invariant
            i <= table@.len() == alias_table().len(),
            forall|j: int|
                0 <= j < table@.len() ==> (#[trigger] table@[j]).0@ == alias_table()[j].0
                    && table@[j].1 == alias_table()[j].1,
            field_of(key@) == field_from(key@, i as int),
        decreases table.len() - i,
    {
        let name = chars_of(table[i].0);
        if same_chars(key, name.as_slice()) {
            return Some(table[i].1);
        }
        i = i + 1;
    }
    None
}

/// The field a line fills and the value it gives, if any.
pub fn entry_of(line: &[char]) -> (r: Option<(Field, Vec<char>)>)
    ensures
        match r {
            None => line_entry(line@) is None,
            Some((f, v)) => line_entry(line@) == Some((f, v@)),
        },
{
    match index_of_from(line, ':', 0) {
        None => None,
        Some(k) => {
            let key_part = slice_of(line, 0, k);
            let key_trimmed = trimmed(key_part.as_slice());
            let key = lowered(key_trimmed.as_slice());
            match field_for_key(key.as_slice()) {
                None => None,
                Some(f) => {
                    let value = slice_of(line, k + 1, line.len());
                    Some((f, trimmed(value.as_slice())))
                },
            }
        },
    }
}

fn keep_first(cur: Option<String>, v: &[char]) -> (r: Option<String>)
    ensures
        text_view(r) == first_text(text_view(cur), v@),
{
    match cur {
        Some(s) => Some(s),
        None => Some(string_of(v)),
    }
}

fn keep_first_date(cur: Option<DateTime>, v: &[char]) -> (r: Option<DateTime>)
    ensures
        r == first_date(cur, v@),
{
    match cur {
        Some(d) => Some(d),
        None => parse_datetime(v),
    }
}

fn append_value(cur: Option<Vec<String>>, v: &[char]) -> (r: Option<Vec<String>>)
    ensures
        list_view(r) == appended(list_view(cur), v@),
{
    let s = string_of(v);
    match cur {
        None => {
            let mut l: Vec<String> = Vec::new();
            l.push(s);
            assert(l@.map_values(|x: String| x@) =~= seq![v@]);
            Some(l)
        },
        Some(mut l) => {
            let ghost before = l@;
            l.push(s);
            assert(l@.map_values(|x: String| x@) =~= before.map_values(|x: String| x@).push(v@));
            Some(l)
        },
    }
}

/// `rec` after a line gave value `v` for field `f`.
fn put_value(rec: WhoisInformation, f: Field, v: &[char]) -> (r: WhoisInformation)
    ensures
        r@ == put(rec@, f, v@),
{
    match f {
        Field::DomainName => WhoisInformation {
            domain_name: keep_first(rec.domain_name, v),
            ..rec
        },
        Field::RegistryDomainId => WhoisInformation {
            registry_domain_id: keep_first(rec.registry_domain_id, v),
            ..rec
        },
        Field::RegistrarWhoisServer => WhoisInformation {
            registrar_whois_server: keep_first(rec.registrar_whois_server, v),
            ..rec
        },
        Field::RegistrarUrl => WhoisInformation {
            registrar_url: keep_first(rec.registrar_url, v),
            ..rec
        },
        Field::UpdatedDate => WhoisInformation {
            updated_date: keep_first_date(rec.updated_date, v),
            ..rec
        },
        Field::CreationDate => WhoisInformation {
            creation_date: keep_first_date(rec.creation_date, v),
            ..rec
        },
        Field::RegistryExpiryDate => WhoisInformation {
            registry_expirity_date: keep_first_date(rec.registry_expirity_date, v),
            ..rec
        },
        Field::Registrar => WhoisInformation { registrar: keep_first(rec.registrar, v), ..rec },
        Field::RegistrarIanaId => WhoisInformation {
            registrar_iana_id: keep_first(rec.registrar_iana_id, v),
            ..rec
        },
        Field::RegistrarAbuseEmail => WhoisInformation {
            registrar_abuse_email_contact: keep_first(rec.registrar_abuse_email_contact, v),
            ..rec
        },
        Field::RegistrarAbusePhone => WhoisInformation {
            registrar_abuse_phone_contact: keep_first(rec.registrar_abuse_phone_contact, v),
            ..rec
        },
        Field::DomainStatus => WhoisInformation {
            domain_status: append_value(rec.domain_status, v),
            ..rec
        },
        Field::NameServers => WhoisInformation {
            name_servers: append_value(rec.name_servers, v),
            ..rec
        },
        Field::Dnssec => WhoisInformation { dnssec: keep_first(rec.dnssec, v), ..rec },
    }
}

/// `rec` after reading one line.
pub fn absorb_line(rec: WhoisInformation, line: &[char]) -> (r: WhoisInformation)
    ensures
        r@ == absorb(rec@, line@),
{
    match entry_of(line) {
        None => rec,
        Some((f, v)) => put_value(rec, f, v.as_slice()),
    }
}

impl WhoisInformation {
    /// The record with every field absent.
    pub fn empty() -> (r: WhoisInformation)
        ensures
            r@ == empty_record(),
    {
        WhoisInformation {
            domain_name: None,
            registry_domain_id: None,
            registrar_whois_server: None,
            registrar_url: None,
            updated_date: None,
            creation_date: None,
            registry_expirity_date: None,
            registrar: None,
            registrar_iana_id: None,
            registrar_abuse_email_contact: None,
            registrar_abuse_phone_contact: None,
            domain_status: None,
            name_servers: None,
            dnssec: None,
        }
    }
}

/// The parser of WHOIS response text.
#[derive(Clone, Copy, Debug)]
pub struct Parser {}

impl Parser {
    pub fn new() -> (r: Parser) {
        Parser {  }
    }

    /// Parses response text into a record. It always succeeds: unknown keys
    /// and lines without a `:` are skipped, and absent fields stay absent.
    pub fn parse(&self, text: String) -> (r: Result<WhoisInformation, WhoisError>)
        ensures
            r matches Ok(info) && info@ == record_of(text@),
    {
        let chars = chars_of(text.as_str());
        let n = chars.len();
        let mut rec = WhoisInformation::empty();
        let mut line: Vec<char> = Vec::new();
        let mut i: usize = 0;
        assert(chars@.subrange(0, n as int) =~= chars@);
        while i < n
            invariant
                i <= n == chars@.len(),
                chars@ == text@,
                record_of(text@) == absorb_all(
                    rec@,
                    split_lines(line@, chars@.subrange(i as int, n as int)),
                ),
            decreases n - i,
        {
            let ghost rest = chars@.subrange(i as int, n as int);
            assert(rest.drop_first() =~= chars@.subrange(i + 1, n as int));
            let c = chars[i];
            if c == '\n' {
                let ghost tail = split_lines(Seq::empty(), rest.drop_first());
                assert((seq![line@] + tail)[0] == line@);
                assert((seq![line@] + tail).drop_first() =~= tail);
                rec = absorb_line(rec, line.as_slice());
                line = Vec::new();
            } else {
                line.push(c);
            }
            i = i + 1;
        }
        let ghost last = seq![line@];
        assert(chars@.subrange(n as int, n as int) =~= Seq::<char>::empty());
        assert(split_lines(line@, Seq::<char>::empty()) == last);
        assert(last.drop_first() =~= Seq::<Seq<char>>::empty());
        assert(absorb_all(rec@, last) == absorb_all(absorb(rec@, line@), Seq::<Seq<char>>::empty()));
        Ok(absorb_line(rec, line.as_slice()))
    }

    /// Parses response bytes: `InvalidEncoding` when they are not UTF-8,
    /// otherwise the record of the text they encode.
    pub fn parse_bytes(&self, bytes: Vec<u8>) -> (r: Result<WhoisInformation, WhoisError>)
        ensures
            !valid_utf8(bytes@) ==> r == Err::<WhoisInformation, WhoisError>(
                WhoisError::InvalidEncoding,
            ),
            valid_utf8(bytes@) ==> (r matches Ok(info) && info@ == record_of(decode_utf8(bytes@))),
    {
        match from_utf8(bytes) {
            None => Err(WhoisError::InvalidEncoding),
            Some(text) => self.parse(text),
        }
    }
}

} // verus!

//! What discovery reports: turning browse results into records and events,
//! and the sample records used when real discovery is unavailable.
use vstd::prelude::*;

use crate::service::{
    has_instance, instance_key, opt_text, registration_key, RecordModel, ServiceId, ServiceRecord,
};
use crate::table::{table_insert, Table};
use crate::text::{chars_of, string_from_chars, trim, trim_chars};

verus! {

/// A change reported by discovery.
#[derive(Debug)]
pub enum DiscoveryEvent {
    Upsert(ServiceRecord),
    Remove(ServiceId),
    Status(String),
}

/// One TXT entry of a resolved service; `value` is `None` for a key-only
/// entry.
#[derive(Debug)]
pub struct TxtEntry {
    pub key: String,
    pub value: Option<Vec<u8>>,
}

/// A resolved service as the browser reports it. `addresses` hold the
/// textual forms of the resolved IP addresses.
#[derive(Debug)]
pub struct DiscoveredServiceInfo {
    pub name: String,
    pub service_type: String,
    pub domain: String,
    pub host_name: String,
    pub port: u16,
    pub addresses: Vec<String>,
    pub txt_records: Vec<TxtEntry>,
}

/// A service the browser reports as gone.
#[derive(Debug)]
pub struct RemovedServiceInfo {
    pub name: String,
    pub service_type: String,
    pub domain: String,
}

/// `String::from_utf8_lossy`: the text of `bytes`, invalid sequences
/// replaced.
pub uninterp spec fn utf8_lossy(bytes: Seq<u8>) -> Seq<char>;

/// `String::from_utf8_lossy`, made owned; the decoding is std's.
#[verifier::external_body]
fn bytes_to_text(bytes: &[u8]) -> (r: String)
    ensures
        r@ == utf8_lossy(bytes@),
{
    String::from_utf8_lossy(bytes).into_owned()
}

/// The value a TXT entry is given in a record: its text, empty for a
/// key-only entry.
pub open spec fn txt_value_of(value: Option<Seq<u8>>) -> Seq<char> {
    match value {
        Some(b) => utf8_lossy(b),
        None => seq![],
    }
}

pub open spec fn txt_entry_value(e: TxtEntry) -> Option<Seq<u8>> {
    match e.value {
        Some(v) => Some(v@),
        None => None,
    }
}

/// The TXT table of a record: entries inserted in order, a later entry
/// with the same key winning.
pub open spec fn txt_table(entries: Seq<TxtEntry>) -> Seq<(Seq<char>, Seq<char>)>
    decreases entries.len(),
{
    if entries.len() == 0 {
        seq![]
    } else {
        table_insert(
            txt_table(entries.drop_last()),
            entries.last().key@,
            txt_value_of(txt_entry_value(entries.last())),
        )
    }
}

/// Flattens TXT entries into the key-to-value table carried by a record.
pub fn txt_map(records: &[TxtEntry]) -> (r: Table<String>)
    ensures
        r.model() == txt_table(records@),
{
    let mut t: Table<String> = Table::new();
    let mut i: usize = 0;
    assert(records@.take(0).len() == 0);
    while i < records.len()
        invariant
            i <= records@.len(),
            t.model() == txt_table(records@.take(i as int)),
        decreases records@.len() - i,
    {
        let e = &records[i];
        let value = match &e.value {
            Some(bytes) => bytes_to_text(bytes.as_slice()),
            None => String::new(),
        };
        let key = chars_of(e.key.as_str());
        assert(records@.take(i + 1).drop_last() == records@.take(i as int));
        assert(records@.take(i + 1).last() == *e);
        t.insert(key, value);
        i = i + 1;
    }
    assert(records@.take(i as int) == records@);
    t
}

/// A host name without surrounding white space; blank means unknown.
pub open spec fn clean_hostname(h: Option<Seq<char>>) -> Option<Seq<char>> {
    match h {
        Some(s) => if trim(s).len() == 0 {
            None
        } else {
            Some(trim(s))
        },
        None => None,
    }
}

/// A port of zero means unknown.
pub open spec fn clean_port(p: Option<u16>) -> Option<u16> {
    match p {
        Some(n) => if n == 0 {
            None
        } else {
            Some(n)
        },
        None => None,
    }
}

/// An address given as blank text means none.
pub open spec fn clean_address(a: Option<Seq<char>>) -> Option<Seq<char>> {
    match a {
        Some(s) => if trim(s).len() == 0 {
            None
        } else {
            Some(s)
        },
        None => None,
    }
}

/// The record that a browse result's fields describe, with its identity.
pub open spec fn upserted(
    name: Seq<char>,
    service_type: Seq<char>,
    domain: Seq<char>,
    hostname: Option<Seq<char>>,
    address: Option<Seq<char>>,
    port: Option<u16>,
    txt: Seq<(Seq<char>, Seq<char>)>,
) -> RecordModel {
    let base = RecordModel {
        registration: seq![],
        instance: seq![],
        name,
        service_type,
        domain,
        hostname: clean_hostname(hostname),
        address: clean_address(address),
        port: clean_port(port),
        txt,
    };
    RecordModel {
        registration: registration_key(name, service_type, domain),
        instance: instance_key(base),
        ..base
    }
}

pub open spec fn opt_str_text(o: Option<&str>) -> Option<Seq<char>> {
    match o {
        Some(s) => Some(s@),
        None => None,
    }
}

/// Builds a record from the fields reported by a browse event: a blank
/// host name or address and a zero port stand for unknown ones. `address`
/// is the textual form of an IP address that has already been parsed.
pub fn upsert_record(
    name: &str,
    service_type: &str,
    domain: &str,
    hostname: Option<&str>,
    address: Option<&str>,
    port: Option<u16>,
    txt: Table<String>,
) -> (r: ServiceRecord)
    ensures
        r@ == upserted(
            name@,
            service_type@,
            domain@,
            opt_str_text(hostname),
            opt_str_text(address),
            port,
            txt.model(),
        ),
{
    let mut record = ServiceRecord::new(name, service_type, domain);
    record.hostname = match hostname {
        Some(h) => {
            let cs = chars_of(h);
            let t = trim_chars(cs.as_slice());
            if t.len() == 0 {
                None
            } else {
                Some(string_from_chars(t.as_slice()))
            }
        },
        None => None,
    };
    record.address = match address {
        Some(a) => {
            let t = trim_chars(chars_of(a).as_slice());
            if t.len() == 0 {
                None
            } else {
                Some(a.to_string())
            }
        },
        None => None,
    };
    record.port = match port {
        Some(p) => if p == 0 {
            None
        } else {
            Some(p)
        },
        None => None,
    };
    record.txt = txt;
    record.with_instance_id()
}

/// One record per resolved address of a service; a service that resolved
/// without addresses still yields one record.
pub open spec fn discovered_records(s: DiscoveredServiceInfo) -> Seq<RecordModel> {
    let txt = txt_table(s.txt_records@);
    if s.addresses@.len() == 0 {
        seq![
            upserted(
                s.name@,
                s.service_type@,
                s.domain@,
                Some(s.host_name@),
                None,
                Some(s.port),
                txt,
            ),
        ]
    } else {
        Seq::new(
            s.addresses@.len(),
            |i: int|
                upserted(
                    s.name@,
                    s.service_type@,
                    s.domain@,
                    Some(s.host_name@),
                    Some(s.addresses@[i]@),
                    Some(s.port),
                    txt,
                ),
        )
    }
}

pub open spec fn records_model(v: Seq<ServiceRecord>) -> Seq<RecordModel> {
    v.map_values(|r: ServiceRecord| r@)
}

/// Expands a resolved service into one record per resolved address.
pub fn records_from_discovery(service: &DiscoveredServiceInfo) -> (r: Vec<ServiceRecord>)
    ensures
        records_model(r@) == discovered_records(*service),
{
    let txt = txt_map(service.txt_records.as_slice());
    let mut out: Vec<ServiceRecord> = Vec::new();
    if service.addresses.len() == 0 {
        let record = upsert_record(
            service.name.as_str(),
            service.service_type.as_str(),
            service.domain.as_str(),
            Some(service.host_name.as_str()),
            None,
            Some(service.port),
            txt,
        );
        out.push(record);
        assert(records_model(out@) =~= discovered_records(*service));
        return out;
    }
    let mut i: usize = 0;
    while i < service.addresses.len()
        invariant
            i <= service.addresses@.len(),
            txt.model() == txt_table(service.txt_records@),
            records_model(out@) =~= discovered_records(*service).take(i as int),
        decreases service.addresses@.len() - i,
    {
        let record = upsert_record(
            service.name.as_str(),
            service.service_type.as_str(),
            service.domain.as_str(),
            Some(service.host_name.as_str()),
            Some(service.addresses[i].as_str()),
            Some(service.port),
            txt.clone(),
        );
        let ghost before = records_model(out@);
        out.push(record);
        assert(records_model(out@) =~= before.push(discovered_records(*service)[i as int]));
        i = i + 1;
    }
    out
}

/// The identity under which a service that went away was registered.
pub fn id_from_removal(service: &RemovedServiceInfo) -> (r: ServiceId)
    ensures
        r.registration@ == registration_key(
            service.name@,
            service.service_type@,
            service.domain@,
        ),
        r.instance@ == Seq::<char>::empty(),
{
    let record = ServiceRecord::new(
        service.name.as_str(),
        service.service_type.as_str(),
        service.domain.as_str(),
    ).with_instance_id();
    record.id
}

/// The events that a resolved service gives rise to: one upsert per
/// record.
pub fn events_for_found(service: &DiscoveredServiceInfo) -> (r: Vec<DiscoveryEvent>)
    ensures
        r@.len() == discovered_records(*service).len(),
        forall|i: int|
            0 <= i < r@.len() ==> (#[trigger] r@[i] matches DiscoveryEvent::Upsert(rec) && rec@
                == discovered_records(*service)[i]),
{
    let records = records_from_discovery(service);
    let mut out: Vec<DiscoveryEvent> = Vec::new();
    let mut i: usize = 0;
    while i < records.len()
        invariant
            i <= records@.len(),
            records_model(records@) == discovered_records(*service),
            out@.len() == i,
            forall|k: int|
                0 <= k < i ==> (#[trigger] out@[k] matches DiscoveryEvent::Upsert(rec) && rec@
                    == discovered_records(*service)[k]),
        decreases records@.len() - i,
    {
        let ghost m = records@[i as int]@;
        assert(m == discovered_records(*service)[i as int]);
        out.push(DiscoveryEvent::Upsert(records[i].clone()));
        i = i + 1;
    }
    out
}

/// The status line shown while browsing.
pub fn browse_status(service_type_filter: Option<&str>) -> (r: String)
    ensures
        match service_type_filter {
            Some(t) => r@ == "browsing "@ + t@ + " over mDNS"@,
            None => r@ == "browsing all service types over mDNS"@,
        },
{
    match service_type_filter {
        Some(t) => {
            let mut out = chars_of("browsing ");
            let tc = chars_of(t);
            crate::text::append_chars(&mut out, tc.as_slice());
            let tail = chars_of(" over mDNS");
            crate::text::append_chars(&mut out, tail.as_slice());
            string_from_chars(out.as_slice())
        },
        None => "browsing all service types over mDNS".to_string(),
    }
}

/// The built-in sample records, placed in `domain`.
pub open spec fn sample_records(domain: Seq<char>) -> Seq<RecordModel> {
    seq![
        upserted(
            "workstation"@,
            "_ssh._tcp"@,
            domain,
            Some("workstation.local"@),
            Some("192.168.1.20"@),
            Some(22u16),
            seq![],
        ),
        upserted(
            "workstation"@,
            "_ssh._tcp"@,
            domain,
            Some("workstation.local"@),
            Some("192.168.1.21"@),
            Some(22u16),
            seq![],
        ),
        upserted(
            "nas"@,
            "_http._tcp"@,
            domain,
            Some("nas.local"@),
            Some("192.168.1.30"@),
            Some(8080u16),
            seq![("path"@, "/admin"@)],
        ),
        upserted(
            "router"@,
            "_https._tcp"@,
            domain,
            Some("router.local"@),
            Some("192.168.1.1"@),
            Some(443u16),
            seq![],
        ),
        upserted("pending-printer"@, "_ipp._tcp"@, domain, None, None, None, seq![]),
    ]
}

/// The built-in sample records: two addresses of one SSH workstation, a web
/// admin page, a router and an unresolved printer.
pub fn fake_records(domain: &str) -> (r: Vec<ServiceRecord>)
    ensures
        records_model(r@) == sample_records(domain@),
{
    let mut out: Vec<ServiceRecord> = Vec::new();
    out.push(
        upsert_record(
            "workstation",
            "_ssh._tcp",
            domain,
            Some("workstation.local"),
            Some("192.168.1.20"),
            Some(22),
            Table::new(),
        ),
    );
    out.push(
        upsert_record(
            "workstation",
            "_ssh._tcp",
            domain,
            Some("workstation.local"),
            Some("192.168.1.21"),
            Some(22),
            Table::new(),
        ),
    );
    let mut txt: Table<String> = Table::new();
    txt.insert(chars_of("path"), "/admin".to_string());
    proof {
        assert(table_insert(Seq::<(Seq<char>, Seq<char>)>::empty(), "path"@, "/admin"@) =~= seq![
            ("path"@, "/admin"@),
        ]);
    }
    out.push(
        upsert_record(
            "nas",
            "_http._tcp",
            domain,
            Some("nas.local"),
            Some("192.168.1.30"),
            Some(8080),
            txt,
        ),
    );
    out.push(
        upsert_record(
            "router",
            "_https._tcp",
            domain,
            Some("router.local"),
            Some("192.168.1.1"),
            Some(443),
            Table::new(),
        ),
    );
    out.push(upsert_record("pending-printer", "_ipp._tcp", domain, None, None, None, Table::new()));
    assert(records_model(out@) =~= sample_records(domain@));
    out
}

/// The sample records, limited to one service type when one is given.
pub fn sample_discovery(domain: &str, service_type_filter: Option<&str>) -> (r: Vec<ServiceRecord>)
    ensures
        records_model(r@) == match service_type_filter {
            Some(t) => sample_records(domain@).filter(|m: RecordModel| m.service_type == t@),
            None => sample_records(domain@),
        },
{
    let records = fake_records(domain);
    match service_type_filter {
        None => records,
        Some(t) => {
            let ghost all = records_model(records@);
            let ghost keep = |m: RecordModel| m.service_type == t@;
            let mut out: Vec<ServiceRecord> = Vec::new();
            let mut i: usize = 0;
            assert(records_model(out@) =~= all.take(0).filter(keep));
            while i < records.len()
                invariant
                    i <= records@.len(),
                    all == records_model(records@),
                    keep == (|m: RecordModel| m.service_type == t@),
                    records_model(out@) == all.take(i as int).filter(keep),
                decreases records@.len() - i,
            {
                let ghost before = records_model(out@);
                assert(all.take(i + 1).drop_last() == all.take(i as int));
                reveal_with_fuel(Seq::filter, 1);
                if records[i].service_type == t.to_string() {
                    out.push(records[i].clone());
                    assert(records_model(out@) =~= before.push(all[i as int]));
                } else {
                    assert(records_model(out@) =~= before);
                }
                i = i + 1;
            }
            assert(all.take(i as int) == all);
            out
        },
    }
}

} // verus!

//! The records that discovery produces and that filters and commands work on.
use vstd::prelude::*;

use crate::table::{table_get, Table, TableValue};
use crate::text::{
    append_chars, chars_eq, chars_of, decimal, decimal_chars, push_str, starts_with, string_from_chars,
    sub_chars,
};

verus! {

/// How records are grouped for display.
#[derive(Debug, Clone, Copy, PartialEq, Eq, Structural)]
pub enum GroupingMode {
    LogicalService,
}

/// The identity of a record: the registration it belongs to
/// (`name|type|domain`) and, for a resolved record, the instance within it.
#[derive(Debug)]
pub struct ServiceId {
    pub registration: String,
    pub instance: String,
}

impl Clone for ServiceId {
    fn clone(&self) -> (r: Self)
        ensures
            r.registration@ == self.registration@,
            r.instance@ == self.instance@,
    {
        ServiceId { registration: self.registration.clone(), instance: self.instance.clone() }
    }
}

impl ServiceId {
    /// The `name|type|domain` key shared by every instance of a registration.
    pub fn registration_key(&self) -> (r: String)
        ensures
            r@ == self.registration@,
    {
        self.registration.clone()
    }
}

/// A record as seen by specifications.
pub struct RecordModel {
    pub registration: Seq<char>,
    pub instance: Seq<char>,
    pub name: Seq<char>,
    pub service_type: Seq<char>,
    pub domain: Seq<char>,
    pub hostname: Option<Seq<char>>,
    pub address: Option<Seq<char>>,
    pub port: Option<u16>,
    pub txt: Seq<(Seq<char>, Seq<char>)>,
}

/// One discovered service instance. `address` is the textual form of the
/// resolved IP address.
#[derive(Debug)]
pub struct ServiceRecord {
    pub id: ServiceId,
    pub name: String,
    pub service_type: String,
    pub domain: String,
    pub hostname: Option<String>,
    pub address: Option<String>,
    pub port: Option<u16>,
    pub txt: Table<String>,
}

pub open spec fn opt_text(o: Option<String>) -> Option<Seq<char>> {
    match o {
        Some(s) => Some(s@),
        None => None,
    }
}

impl View for ServiceRecord {
    type V = RecordModel;

    open spec fn view(&self) -> RecordModel {
        RecordModel {
            registration: self.id.registration@,
            instance: self.id.instance@,
            name: self.name@,
            service_type: self.service_type@,
            domain: self.domain@,
            hostname: opt_text(self.hostname),
            address: opt_text(self.address),
            port: self.port,
            txt: self.txt.model(),
        }
    }
}

pub fn clone_opt_string(o: &Option<String>) -> (r: Option<String>)
    ensures
        opt_text(r) == opt_text(*o),
{
    match o {
        Some(s) => Some(s.clone()),
        None => None,
    }
}

impl Clone for ServiceRecord {
    fn clone(&self) -> (r: Self)
        ensures
            r@ == self@,
    {
        ServiceRecord {
            id: self.id.clone(),
            name: self.name.clone(),
            service_type: self.service_type.clone(),
            domain: self.domain.clone(),
            hostname: clone_opt_string(&self.hostname),
            address: clone_opt_string(&self.address),
            port: self.port,
            txt: self.txt.clone(),
        }
    }
}

/// `name|type|domain`.
pub open spec fn registration_key(name: Seq<char>, service_type: Seq<char>, domain: Seq<char>) -> Seq<
    char,
> {
    name + "|"@ + service_type + "|"@ + domain
}

pub open spec fn opt_or_empty(o: Option<Seq<char>>) -> Seq<char> {
    match o {
        Some(s) => s,
        None => seq![],
    }
}

pub open spec fn port_text(p: Option<u16>) -> Option<Seq<char>> {
    match p {
        Some(n) => Some(decimal(n as nat)),
        None => None,
    }
}

/// Whether the record carries anything that tells its instances apart.
pub open spec fn has_instance(r: RecordModel) -> bool {
    r.hostname is Some || r.address is Some || r.port is Some
}

/// `host|address|port` of a resolved record, empty for a pending one.
pub open spec fn instance_key(r: RecordModel) -> Seq<char> {
    if has_instance(r) {
        opt_or_empty(r.hostname) + "|"@ + opt_or_empty(r.address) + "|"@ + opt_or_empty(
            port_text(r.port),
        )
    } else {
        seq![]
    }
}

/// The value a predicate reads from a record under a field name:
/// `name`, `service_type`, `domain`, `hostname`, `address`, `port`, or
/// `txt.<key>` for a TXT entry.
pub open spec fn field_value(r: RecordModel, field: Seq<char>) -> Option<Seq<char>> {
    if field == "name"@ {
        Some(r.name)
    } else if field == "service_type"@ {
        Some(r.service_type)
    } else if field == "domain"@ {
        Some(r.domain)
    } else if field == "hostname"@ {
        r.hostname
    } else if field == "address"@ {
        r.address
    } else if field == "port"@ {
        port_text(r.port)
    } else if "txt."@.is_prefix_of(field) {
        table_get(r.txt, field.skip(4))
    } else {
        None
    }
}

pub open spec fn opt_space(o: Option<Seq<char>>) -> Seq<char> {
    match o {
        Some(s) => " "@ + s,
        None => seq![],
    }
}

/// The text that the fuzzy search looks in.
pub open spec fn searchable(r: RecordModel) -> Seq<char> {
    r.name + " "@ + r.service_type + " "@ + r.domain + opt_space(r.hostname) + opt_space(
        r.address,
    )
}

fn opt_chars(o: &Option<String>) -> (r: Vec<char>)
    ensures
        r@ == opt_or_empty(opt_text(*o)),
{
    match o {
        Some(s) => chars_of(s.as_str()),
        None => Vec::new(),
    }
}

fn port_string(p: Option<u16>) -> (r: Option<String>)
    ensures
        opt_text(r) == port_text(p),
{
    match p {
        Some(n) => {
            let d = decimal_chars(n as u64);
            Some(string_from_chars(d.as_slice()))
        },
        None => None,
    }
}

impl ServiceRecord {
    /// A pending record: named, typed and placed in a domain, not resolved.
    pub fn new(name: &str, service_type: &str, domain: &str) -> (r: Self)
        ensures
            r@.name == name@,
            r@.service_type == service_type@,
            r@.domain == domain@,
            r@.hostname is None,
            r@.address is None,
            r@.port is None,
            r@.txt == Seq::<(Seq<char>, Seq<char>)>::empty(),
            r@.registration == registration_key(name@, service_type@, domain@),
            r@.instance == Seq::<char>::empty(),
    {
        let mut key: Vec<char> = Vec::new();
        push_str(&mut key, name);
        push_str(&mut key, "|");
        push_str(&mut key, service_type);
        push_str(&mut key, "|");
        push_str(&mut key, domain);
        assert(key@ =~= registration_key(name@, service_type@, domain@));
        ServiceRecord {
            id: ServiceId {
                registration: string_from_chars(key.as_slice()),
                instance: String::new(),
            },
            name: name.to_string(),
            service_type: service_type.to_string(),
            domain: domain.to_string(),
            hostname: None,
            address: None,
            port: None,
            txt: Table::new(),
        }
    }

    /// Whether a host name, an address or a port is known.
    pub fn has_instance_data(&self) -> (r: bool)
        ensures
            r == has_instance(self@),
    {
        self.hostname.is_some() || self.address.is_some() || self.port.is_some()
    }

    /// The record with its identity recomputed from its fields.
    pub fn with_instance_id(self) -> (r: Self)
        ensures
            r@ == (RecordModel {
                registration: registration_key(self@.name, self@.service_type, self@.domain),
                instance: instance_key(self@),
                ..self@
            }),
    {
        let mut key: Vec<char> = Vec::new();
        push_str(&mut key, self.name.as_str());
        push_str(&mut key, "|");
        push_str(&mut key, self.service_type.as_str());
        push_str(&mut key, "|");
        push_str(&mut key, self.domain.as_str());
        assert(key@ =~= registration_key(self@.name, self@.service_type, self@.domain));
        let mut inst: Vec<char> = Vec::new();
        if self.has_instance_data() {
            let h = opt_chars(&self.hostname);
            append_chars(&mut inst, h.as_slice());
            push_str(&mut inst, "|");
            let a = opt_chars(&self.address);
            append_chars(&mut inst, a.as_slice());
            push_str(&mut inst, "|");
            let p = port_string(self.port);
            let pc = opt_chars(&p);
            append_chars(&mut inst, pc.as_slice());
            assert(inst@ =~= instance_key(self@));
        } else {
            assert(inst@ =~= instance_key(self@));
        }
        let mut r = self;
        r.id = ServiceId {
            registration: string_from_chars(key.as_slice()),
            instance: string_from_chars(inst.as_slice()),
        };
        r
    }

    /// The name shown for the record.
    pub fn display_name(&self) -> (r: String)
        ensures
            r@ == self@.name,
    {
        self.name.clone()
    }

    /// The value of a TXT entry.
    pub fn txt_value(&self, key: &str) -> (r: Option<String>)
        ensures
            opt_text(r) == table_get(self@.txt, key@),
    {
        let k = chars_of(key);
        match self.txt.get(k.as_slice()) {
            Some(v) => Some(v.clone()),
            None => None,
        }
    }

    /// Sets a TXT entry.
    pub fn set_txt(&mut self, key: &str, value: &str)
        ensures
            final(self)@ == (RecordModel {
                txt: crate::table::table_insert(old(self)@.txt, key@, value@),
                ..old(self)@
            }),
    {
        proof {
            use_type_invariant(&self.txt);
        }
        let k = chars_of(key);
        self.txt.insert(k, value.to_string());
    }

    /// The value that a match predicate reads under `field`.
    pub fn field(&self, field: &str) -> (r: Option<String>)
        ensures
            opt_text(r) == field_value(self@, field@),
    {
        let f = chars_of(field);
        if chars_eq(f.as_slice(), chars_of("name").as_slice()) {
            return Some(self.name.clone());
        }
        if chars_eq(f.as_slice(), chars_of("service_type").as_slice()) {
            return Some(self.service_type.clone());
        }
        if chars_eq(f.as_slice(), chars_of("domain").as_slice()) {
            return Some(self.domain.clone());
        }
        if chars_eq(f.as_slice(), chars_of("hostname").as_slice()) {
            return clone_opt_string(&self.hostname);
        }
        if chars_eq(f.as_slice(), chars_of("address").as_slice()) {
            return clone_opt_string(&self.address);
        }
        if chars_eq(f.as_slice(), chars_of("port").as_slice()) {
            return port_string(self.port);
        }
        let prefix = chars_of("txt.");
        if starts_with(f.as_slice(), prefix.as_slice()) {
            proof {
                reveal_strlit("txt.");
            }
            let key = sub_chars(f.as_slice(), 4, f.len());
            assert(key@ =~= f@.skip(4));
            return match self.txt.get(key.as_slice()) {
                Some(v) => Some(v.clone()),
                None => None,
            };
        }
        None
    }

    /// The text that the fuzzy search looks in: name, type, domain, and the
    /// host name and address when known, separated by spaces.
    pub fn searchable_text(&self) -> (r: String)
        ensures
            r@ == searchable(self@),
    {
        let mut out: Vec<char> = Vec::new();
        push_str(&mut out, self.name.as_str());
        push_str(&mut out, " ");
        push_str(&mut out, self.service_type.as_str());
        push_str(&mut out, " ");
        push_str(&mut out, self.domain.as_str());
        match &self.hostname {
            Some(h) => {
                push_str(&mut out, " ");
                push_str(&mut out, h.as_str());
            },
            None => {},
        }
        match &self.address {
            Some(a) => {
                push_str(&mut out, " ");
                push_str(&mut out, a.as_str());
            },
            None => {},
        }
        assert(out@ =~= searchable(self@));
        string_from_chars(out.as_slice())
    }
}

/// The records shown together as one row.
#[derive(Debug)]
pub struct ServiceGroup {
    pub instances: Vec<ServiceRecord>,
}

} // verus!

use vstd::prelude::*;

use crate::search::{first_index, lemma_first_index};

verus! {

/// The languages that texts of a specification are available in.
#[derive(Clone, Copy, Debug, PartialEq, Eq, Structural)]
pub enum Language {
    En,
    De,
    Fr,
}

/// The identifier of a unit.
#[derive(Clone, Copy, Debug, PartialEq, Eq, Structural)]
pub struct UnitId(pub i32);

/// The physical quantity a unit measures.
#[derive(Clone, Copy, Debug, PartialEq, Eq, Structural)]
pub enum UnitFamily {
    Unitless,
    Temperature,
    Energy,
    VolumeFlow,
    Pressure,
    Volume,
    Time,
    Power,
}

/// How the raw value of a field is to be read.
#[derive(Clone, Copy, Debug, PartialEq, Eq, Structural)]
pub enum Type {
    /// A number with a fixed number of fractional digits.
    Number,
    /// Minutes since midnight.
    Time,
    /// Minutes since Monday 00:00.
    WeekTime,
    /// Seconds since 2001-01-01 00:00:00 UTC.
    DateTime,
}

/// A text in each language, as indices into the text table.
#[derive(Clone, Copy, Debug, PartialEq, Eq, Structural)]
pub struct LocalizedText {
    pub en: u32,
    pub de: u32,
    pub fr: u32,
}

/// A unit: its identifier, family, code and the text appended to values.
#[derive(Clone, Copy, Debug, PartialEq, Eq, Structural)]
pub struct Unit {
    pub unit_id: UnitId,
    pub unit_family: UnitFamily,
    pub unit_code_text_index: u32,
    pub unit_text_text_index: u32,
}

/// A device kind: the addresses (under masks) it is known by, and its name.
#[derive(Clone, Copy, Debug, PartialEq, Eq, Structural)]
pub struct DeviceTemplate {
    pub self_address: u16,
    pub self_mask: u16,
    pub peer_address: u16,
    pub peer_mask: u16,
    pub name_localized_text_index: u32,
}

/// One byte's contribution to the raw value of a field.
#[derive(Clone, Copy, Debug, PartialEq, Eq, Structural)]
pub struct PacketTemplateFieldPart {
    /// The index of the byte in the payload.
    pub offset: i32,
    /// The number of bits to shift the (masked) byte right by.
    pub bit_pos: u8,
    /// The bits of the byte that count.
    pub mask: u8,
    /// Whether the byte is read as a two's complement value.
    pub is_signed: bool,
    /// The weight of the contribution.
    pub factor: i64,
}

/// A field of a packet kind.
#[derive(Clone, Debug)]
pub struct PacketTemplateField {
    pub id_text_index: u32,
    pub name_localized_text_index: u32,
    pub unit_id: UnitId,
    pub precision: i32,
    pub typ: Type,
    pub parts: Vec<PacketTemplateFieldPart>,
}

/// A packet kind: the addresses (under masks) and command it is known by,
/// and its fields.
#[derive(Clone, Debug)]
pub struct PacketTemplate {
    pub destination_address: u16,
    pub destination_mask: u16,
    pub source_address: u16,
    pub source_mask: u16,
    pub command: u16,
    pub fields: Vec<PacketTemplateField>,
}

/// The catalog of known devices and packets, with the tables of texts and
/// units that they refer to.
#[derive(Clone, Debug)]
pub struct SpecificationFile {
    pub texts: Vec<String>,
    pub localized_texts: Vec<LocalizedText>,
    pub units: Vec<Unit>,
    pub device_templates: Vec<DeviceTemplate>,
    pub packet_templates: Vec<PacketTemplate>,
}

/// Whether a device template describes the device at `self_address` talking
/// to `peer_address`.
pub open spec fn device_template_matches(t: DeviceTemplate, self_address: u16, peer_address: u16) -> bool {
    &&& self_address & t.self_mask == t.self_address
    &&& peer_address & t.peer_mask == t.peer_address
}

/// Whether a packet template describes packets with these addresses and command.
pub open spec fn packet_template_matches(t: PacketTemplate, destination_address: u16, source_address: u16, command: u16) -> bool {
    &&& destination_address & t.destination_mask == t.destination_address
    &&& source_address & t.source_mask == t.source_address
    &&& command == t.command
}

/// The index of the first device template that matches.
pub open spec fn first_device_template(ts: Seq<DeviceTemplate>, self_address: u16, peer_address: u16) -> Option<int> {
    first_index(ts, |t: DeviceTemplate| device_template_matches(t, self_address, peer_address))
}

/// The index of the first packet template that matches.
pub open spec fn first_packet_template(ts: Seq<PacketTemplate>, destination_address: u16, source_address: u16, command: u16) -> Option<int> {
    first_index(ts, |t: PacketTemplate| packet_template_matches(t, destination_address, source_address, command))
}

/// The index of the first unit with the given identifier.
pub open spec fn first_unit(us: Seq<Unit>, id: UnitId) -> Option<int> {
    first_index(us, |u: Unit| u.unit_id == id)
}

/// The text index of a localized text in a language.
pub open spec fn localized_index(t: LocalizedText, language: Language) -> u32 {
    match language {
        Language::En => t.en,
        Language::De => t.de,
        Language::Fr => t.fr,
    }
}

/// `first_device_template` gives the first matching template, or says that
/// none matches.
pub proof fn lemma_first_device_template(ts: Seq<DeviceTemplate>, s: u16, p: u16)
    ensures
        match first_device_template(ts, s, p) {
            Some(i) => 0 <= i < ts.len() && device_template_matches(ts[i], s, p) && forall|j: int|
                0 <= j < i ==> !device_template_matches(#[trigger] ts[j], s, p),
            None => forall|j: int| 0 <= j < ts.len() ==> !device_template_matches(#[trigger] ts[j], s, p),
        },
{
    lemma_first_index(ts, |t: DeviceTemplate| device_template_matches(t, s, p));
}

/// `first_packet_template` gives the first matching template, or says that
/// none matches.
pub proof fn lemma_first_packet_template(ts: Seq<PacketTemplate>, d: u16, s: u16, c: u16)
    ensures
        match first_packet_template(ts, d, s, c) {
            Some(i) => 0 <= i < ts.len() && packet_template_matches(ts[i], d, s, c) && forall|j: int|
                0 <= j < i ==> !packet_template_matches(#[trigger] ts[j], d, s, c),
            None => forall|j: int| 0 <= j < ts.len() ==> !packet_template_matches(#[trigger] ts[j], d, s, c),
        },
{
    lemma_first_index(ts, |t: PacketTemplate| packet_template_matches(t, d, s, c));
}

/// `first_unit` gives the first unit with the identifier, or says that none
/// has it.
pub proof fn lemma_first_unit(us: Seq<Unit>, id: UnitId)
    ensures
        match first_unit(us, id) {
            Some(i) => 0 <= i < us.len() && us[i].unit_id == id && forall|j: int|
                0 <= j < i ==> (#[trigger] us[j]).unit_id != id,
            None => forall|j: int| 0 <= j < us.len() ==> (#[trigger] us[j]).unit_id != id,
        },
{
    lemma_first_index(us, |u: Unit| u.unit_id == id);
}

/// The first index satisfying a property is determined by "it satisfies it
/// and no earlier one does".
proof fn lemma_first_unique_device(ts: Seq<DeviceTemplate>, s: u16, p: u16, i: int)
    requires
        0 <= i <= ts.len(),
        forall|j: int| 0 <= j < i ==> !device_template_matches(#[trigger] ts[j], s, p),
    ensures
        i < ts.len() && device_template_matches(ts[i], s, p) ==> first_device_template(ts, s, p) == Some(i),
        i == ts.len() ==> first_device_template(ts, s, p) is None,
{
    lemma_first_device_template(ts, s, p);
}

impl SpecificationFile {
    /// The text at `index` of the text table.
    pub open spec fn text(&self, index: u32) -> Seq<char> {
        self.texts@[index as int]@
    }

    /// The text at `index` of the localized text table, in `language`.
    pub open spec fn localized_text(&self, index: u32, language: Language) -> Seq<char> {
        self.text(localized_index(self.localized_texts@[index as int], language))
    }

    /// A valid index of the localized text table, whose texts are all valid
    /// indices of the text table.
    pub open spec fn valid_localized_index(&self, index: u32) -> bool {
        &&& index < self.localized_texts@.len()
        &&& self.localized_texts@[index as int].en < self.texts@.len()
        &&& self.localized_texts@[index as int].de < self.texts@.len()
        &&& self.localized_texts@[index as int].fr < self.texts@.len()
    }

    /// A unit with this identifier exists, and its texts are valid indices.
    pub open spec fn valid_unit_id(&self, id: UnitId) -> bool {
        &&& first_unit(self.units@, id) is Some
        &&& self.units@[first_unit(self.units@, id)->0].unit_code_text_index < self.texts@.len()
        &&& self.units@[first_unit(self.units@, id)->0].unit_text_text_index < self.texts@.len()
    }

    /// Every index that the templates hold refers to an entry of its table.
    pub open spec fn well_formed(&self) -> bool {
        &&& forall|i: int|
            0 <= i < self.device_templates@.len() ==> self.valid_localized_index(
                (#[trigger] self.device_templates@[i]).name_localized_text_index,
            )
        &&& forall|i: int, j: int|
            0 <= i < self.packet_templates@.len() && 0 <= j < self.packet_templates@[i].fields@.len()
                ==> {
                let f = #[trigger] self.packet_templates@[i].fields@[j];
                &&& f.id_text_index < self.texts@.len()
                &&& self.valid_localized_index(f.name_localized_text_index)
                &&& self.valid_unit_id(f.unit_id)
            }
    }

    /// The first device template that describes the device at `self_address`
    /// talking to `peer_address`.
    pub fn find_device_template(&self, self_address: u16, peer_address: u16) -> (r: Option<&DeviceTemplate>)
        ensures
            match first_device_template(self.device_templates@, self_address, peer_address) {
                Some(i) => r == Some(&self.device_templates@[i]),
                None => r is None,
            },
    {
        let n = self.device_templates.len();
        let mut i: usize = 0;
        while i < n
            invariant
                n == self.device_templates@.len(),
                i <= n,
                forall|j: int| 0 <= j < i ==> !device_template_matches(#[trigger] self.device_templates@[j], self_address, peer_address),
            decreases n - i,
        {
            let t = &self.device_templates[i];
            if self_address & t.self_mask == t.self_address && peer_address & t.peer_mask == t.peer_address {
                proof {
                    lemma_first_unique_device(self.device_templates@, self_address, peer_address, i as int);
                }
                return Some(t);
            }
            i = i + 1;
        }
        proof {
            lemma_first_unique_device(self.device_templates@, self_address, peer_address, i as int);
        }
        None
    }

    /// The first packet template that describes packets with these addresses
    /// and command.
    pub fn find_packet_template(&self, destination_address: u16, source_address: u16, command: u16) -> (r: Option<&PacketTemplate>)
        ensures
            match first_packet_template(self.packet_templates@, destination_address, source_address, command) {
                Some(i) => r == Some(&self.packet_templates@[i]),
                None => r is None,
            },
    {
        proof {
            lemma_first_packet_template(self.packet_templates@, destination_address, source_address, command);
        }
        let n = self.packet_templates.len();
        let mut i: usize = 0;
        while i < n
            invariant
                n == self.packet_templates@.len(),
                i <= n,
                forall|j: int| 0 <= j < i ==> !packet_template_matches(#[trigger] self.packet_templates@[j], destination_address, source_address, command),
                match first_packet_template(self.packet_templates@, destination_address, source_address, command) {
                    Some(k) => 0 <= k < n && packet_template_matches(self.packet_templates@[k], destination_address, source_address, command) && forall|j: int|
                        0 <= j < k ==> !packet_template_matches(#[trigger] self.packet_templates@[j], destination_address, source_address, command),
                    None => forall|j: int| 0 <= j < n ==> !packet_template_matches(#[trigger] self.packet_templates@[j], destination_address, source_address, command),
                },
            decreases n - i,
        {
            let t = &self.packet_templates[i];
            if destination_address & t.destination_mask == t.destination_address && source_address & t.source_mask == t.source_address && command == t.command {
                return Some(t);
            }
            i = i + 1;
        }
        None
    }

    /// The text at `index` of the text table.
    pub fn text_by_index(&self, index: u32) -> (r: &str)
        requires
            index < self.texts@.len(),
        ensures
            r@ == self.text(index),
    {
        self.texts[index as usize].as_str()
    }

    /// The text at `index` of the localized text table, in `language`.
    pub fn localized_text_by_index(&self, index: u32, language: Language) -> (r: &str)
        requires
            self.valid_localized_index(index),
        ensures
            r@ == self.localized_text(index, language),
    {
        let t = &self.localized_texts[index as usize];
        let text_index = match language {
            Language::En => t.en,
            Language::De => t.de,
            Language::Fr => t.fr,
        };
        self.text_by_index(text_index)
    }

    /// The index of the first unit with identifier `id`.
    pub fn find_unit_index(&self, id: UnitId) -> (r: Option<usize>)
        ensures
            match first_unit(self.units@, id) {
                Some(i) => r matches Some(k) && k as int == i,
                None => r is None,
            },
    {
        proof {
            lemma_first_unit(self.units@, id);
        }
        let n = self.units.len();
        let mut i: usize = 0;
        while i < n
            invariant
                n == self.units@.len(),
                i <= n,
                forall|j: int| 0 <= j < i ==> (#[trigger] self.units@[j]).unit_id != id,
                match first_unit(self.units@, id) {
                    Some(k) => 0 <= k < n && self.units@[k].unit_id == id && forall|j: int|
                        0 <= j < k ==> (#[trigger] self.units@[j]).unit_id != id,
                    None => forall|j: int| 0 <= j < n ==> (#[trigger] self.units@[j]).unit_id != id,
                },
            decreases n - i,
        {
            if self.units[i].unit_id.0 == id.0 {
                return Some(i);
            }
            i = i + 1;
        }
        None
    }

    /// The first unit with identifier `id`.
    pub fn unit_by_id(&self, id: UnitId) -> (r: &Unit)
        requires
            first_unit(self.units@, id) is Some,
        ensures
            *r == self.units@[first_unit(self.units@, id)->0],
    {
        proof {
            lemma_first_unit(self.units@, id);
        }
        let found = self.find_unit_index(id);
        let i = match found {
            Some(i) => i,
            None => 0,
        };
        assert(i as int == first_unit(self.units@, id)->0);
        &self.units[i]
    }

    /// Whether `index` is a valid localized text index.
    fn localized_index_ok(&self, index: u32) -> (r: bool)
        ensures
            r == self.valid_localized_index(index),
    {
        if index as usize >= self.localized_texts.len() {
            return false;
        }
        let t = &self.localized_texts[index as usize];
        let n = self.texts.len();
        (t.en as usize) < n && (t.de as usize) < n && (t.fr as usize) < n
    }

    /// Whether `id` names a unit whose texts are valid indices.
    fn unit_id_ok(&self, id: UnitId) -> (r: bool)
        ensures
            r == self.valid_unit_id(id),
    {
        proof {
            lemma_first_unit(self.units@, id);
        }
        match self.find_unit_index(id) {
            None => false,
            Some(i) => {
                let u = &self.units[i];
                (u.unit_code_text_index as usize) < self.texts.len()
                    && (u.unit_text_text_index as usize) < self.texts.len()
            },
        }
    }

    /// Whether the template field's indices are valid.
    fn field_ok(&self, f: &PacketTemplateField) -> (r: bool)
        ensures
            r == ({
                &&& f.id_text_index < self.texts@.len()
                &&& self.valid_localized_index(f.name_localized_text_index)
                &&& self.valid_unit_id(f.unit_id)
            }),
    {
        (f.id_text_index as usize) < self.texts.len() && self.localized_index_ok(f.name_localized_text_index)
            && self.unit_id_ok(f.unit_id)
    }

    /// Whether every index that the templates hold refers to an entry of its table.
    pub fn is_well_formed(&self) -> (r: bool)
        ensures
            r == self.well_formed(),
    {
        let nd = self.device_templates.len();
        let mut i: usize = 0;
        while i < nd
            invariant
                nd == self.device_templates@.len(),
                i <= nd,
                forall|k: int| 0 <= k < i ==> self.valid_localized_index(
                    (#[trigger] self.device_templates@[k]).name_localized_text_index,
                ),
            decreases nd - i,
        {
            if !self.localized_index_ok(self.device_templates[i].name_localized_text_index) {
                assert(!self.valid_localized_index(self.device_templates@[i as int].name_localized_text_index));
                return false;
            }
            i = i + 1;
        }
        let np = self.packet_templates.len();
        let mut p: usize = 0;
        while p < np
            invariant
                np == self.packet_templates@.len(),
                p <= np,
                forall|k: int| 0 <= k < nd ==> self.valid_localized_index(
                    (#[trigger] self.device_templates@[k]).name_localized_text_index,
                ),
                nd == self.device_templates@.len(),
                forall|a: int, b: int|
                    0 <= a < p && 0 <= b < self.packet_templates@[a].fields@.len() ==> {
                        let f = #[trigger] self.packet_templates@[a].fields@[b];
                        &&& f.id_text_index < self.texts@.len()
                        &&& self.valid_localized_index(f.name_localized_text_index)
                        &&& self.valid_unit_id(f.unit_id)
                    },
            decreases np - p,
        {
            let t = &self.packet_templates[p];
            let nf = t.fields.len();
            let mut j: usize = 0;
            while j < nf
                invariant
                    np == self.packet_templates@.len(),
                    p < np,
                    *t == self.packet_templates@[p as int],
                    nf == t.fields@.len(),
                    j <= nf,
                    forall|b: int|
                        0 <= b < j ==> {
                            let f = #[trigger] self.packet_templates@[p as int].fields@[b];
                            &&& f.id_text_index < self.texts@.len()
                            &&& self.valid_localized_index(f.name_localized_text_index)
                            &&& self.valid_unit_id(f.unit_id)
                        },
                decreases nf - j,
            {
                if !self.field_ok(&t.fields[j]) {
                    let ghost f = self.packet_templates@[p as int].fields@[j as int];
                    assert(f == t.fields@[j as int]);
                    assert(!(f.id_text_index < self.texts@.len() && self.valid_localized_index(f.name_localized_text_index)
                        && self.valid_unit_id(f.unit_id)));
                    return false;
                }
                j = j + 1;
            }
            p = p + 1;
        }
        true
    }
}

} // verus!

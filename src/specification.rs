use vstd::prelude::*;

use std::rc::Rc;

use crate::data::Data;
use crate::decode::raw_value;
use crate::search::{first_index, lemma_first_index, lemma_first_index_push};
use crate::specification_file::{
    first_device_template, first_packet_template, first_unit, Language, PacketTemplateField,
    PacketTemplateFieldPart, SpecificationFile, Type, UnitFamily, UnitId,
};
use crate::text::{dec_text, hex_fixed, push_dec, push_hex, push_str, string_from_chars};

verus! {

/// Information about a field of a packet.
#[derive(Clone, Debug)]
pub struct PacketFieldSpec {
    /// The field identifier.
    pub field_id: String,
    /// The packet identifier and field identifier together.
    pub packet_field_id: String,
    /// The name of the field.
    pub name: String,
    /// The unit of the field.
    pub unit_id: UnitId,
    /// The family of that unit.
    pub unit_family: UnitFamily,
    /// The code of that unit.
    pub unit_code: String,
    /// The text appended to values of that unit.
    pub unit_text: String,
    /// The number of fractional decimal digits of the value.
    pub precision: i32,
    /// How the raw value is read.
    pub typ: Type,
    /// The bytes the raw value is made of.
    pub parts: Vec<PacketTemplateFieldPart>,
}

/// Relies on std's `Rc::clone`: the new pointer refers to the same value.
#[verifier::external_body]
pub(crate) fn share<T>(rc: &Rc<T>) -> (r: Rc<T>)
    ensures
        r == *rc,
{
    Rc::clone(rc)
}

/// Information about a VBus device.
#[derive(Debug)]
pub struct DeviceSpec {
    /// The device identifier.
    pub device_id: String,
    /// The VBus channel the device is attached to.
    pub channel: u8,
    /// The VBus address of the device itself.
    pub self_address: u16,
    /// The VBus address of the device's peer, where the device kind depends on it.
    pub peer_address: Option<u16>,
    /// The name of the device.
    pub name: String,
}

/// A `DeviceSpec` with its texts as character sequences.
pub struct DeviceSpecView {
    pub device_id: Seq<char>,
    pub channel: u8,
    pub self_address: u16,
    pub peer_address: Option<u16>,
    pub name: Seq<char>,
}

impl View for DeviceSpec {
    type V = DeviceSpecView;

    open spec fn view(&self) -> DeviceSpecView {
        DeviceSpecView {
            device_id: self.device_id@,
            channel: self.channel,
            self_address: self.self_address,
            peer_address: self.peer_address,
            name: self.name@,
        }
    }
}

/// `"CC_SSSS"`, or `"CC_SSSS_PPPP"` where a peer is bound.
pub open spec fn device_id_text(channel: u8, self_address: u16, peer_address: Option<u16>) -> Seq<char> {
    hex_fixed(channel as nat, 2) + seq!['_'] + hex_fixed(self_address as nat, 4) + match peer_address {
        Some(p) => seq!['_'] + hex_fixed(p as nat, 4),
        None => Seq::empty(),
    }
}

/// The name of a device that no template describes.
pub open spec fn unknown_device_text(language: Language, self_address: u16) -> Seq<char> {
    match language {
        Language::De => "Unbekanntes Ger\u{e4}t 0x"@ + hex_fixed(self_address as nat, 4),
        _ => "Unknown device 0x"@ + hex_fixed(self_address as nat, 4),
    }
}

/// `"VBus N: "` before a name on a channel other than 0.
pub open spec fn channel_prefix(channel: u8) -> Seq<char> {
    if channel == 0 {
        Seq::empty()
    } else {
        "VBus "@ + dec_text(channel as nat) + ": "@
    }
}

/// The peer binding of a new device entry: the peer where the template that
/// describes the device depends on it.
pub open spec fn bound_peer(file: SpecificationFile, self_address: u16, peer_address: u16) -> Option<u16> {
    match first_device_template(file.device_templates@, self_address, peer_address) {
        Some(i) => if file.device_templates@[i].peer_mask == 0 {
            None
        } else {
            Some(peer_address)
        },
        None => None,
    }
}

/// The device entry created for a lookup that the cache did not answer.
pub open spec fn new_device(file: SpecificationFile, language: Language, channel: u8, self_address: u16, peer_address: u16) -> DeviceSpecView {
    let peer = bound_peer(file, self_address, peer_address);
    let base = match first_device_template(file.device_templates@, self_address, peer_address) {
        Some(i) => file.localized_text(file.device_templates@[i].name_localized_text_index, language),
        None => unknown_device_text(language, self_address),
    };
    DeviceSpecView {
        device_id: device_id_text(channel, self_address, peer),
        channel,
        self_address,
        peer_address: peer,
        name: channel_prefix(channel) + base,
    }
}

/// A cached device entry answers a lookup: same channel and address, and a
/// peer that is unbound or the one asked for.
pub open spec fn device_matches(d: DeviceSpecView, channel: u8, self_address: u16, peer_address: u16) -> bool {
    &&& d.channel == channel
    &&& d.self_address == self_address
    &&& (d.peer_address is None || d.peer_address == Some(peer_address))
}

/// The views of the cached devices.
pub open spec fn device_views(v: Seq<Rc<DeviceSpec>>) -> Seq<DeviceSpecView> {
    v.map_values(|d: Rc<DeviceSpec>| d@)
}

/// A device lookup: the cache after it, and the entry it returns.
pub open spec fn device_step(
    file: SpecificationFile,
    language: Language,
    devices: Seq<DeviceSpecView>,
    channel: u8,
    self_address: u16,
    peer_address: u16,
) -> (Seq<DeviceSpecView>, DeviceSpecView) {
    match first_index(devices, |d: DeviceSpecView| device_matches(d, channel, self_address, peer_address)) {
        Some(i) => (devices, devices[i]),
        None => {
            let d = new_device(file, language, channel, self_address, peer_address);
            (devices.push(d), d)
        },
    }
}

pub fn get_cached_device_spec(devices: &[Rc<DeviceSpec>], channel: u8, self_address: u16, peer_address: u16) -> (r: Option<Rc<DeviceSpec>>)
    ensures
        match first_index(device_views(devices@), |d: DeviceSpecView| device_matches(d, channel, self_address, peer_address)) {
            Some(i) => r == Some(devices@[i]),
            None => r is None,
        },
{
    let ghost pred = |d: DeviceSpecView| device_matches(d, channel, self_address, peer_address);
    proof {
        lemma_first_index(device_views(devices@), pred);
    }
    let n = devices.len();
    let mut i: usize = 0;
    while i < n
        invariant
            n == devices@.len(),
            i <= n,
            pred == (|d: DeviceSpecView| device_matches(d, channel, self_address, peer_address)),
            forall|j: int| 0 <= j < i ==> !pred(#[trigger] device_views(devices@)[j]),
            match first_index(device_views(devices@), pred) {
                Some(k) => 0 <= k < n && pred(device_views(devices@)[k]) && forall|j: int| 0 <= j < k ==> !pred(#[trigger] device_views(devices@)[j]),
                None => forall|j: int| 0 <= j < n ==> !pred(#[trigger] device_views(devices@)[j]),
            },
        decreases n - i,
    {
        let device = &devices[i];
        let matches = device.channel == channel && device.self_address == self_address && match device.peer_address {
            None => true,
            Some(p) => p == peer_address,
        };
        proof {
            assert(device_views(devices@)[i as int] == devices@[i as int]@);
            assert(matches == pred(device_views(devices@)[i as int]));
        }
        if matches {
            return Some(share(device));
        }
        i = i + 1;
    }
    None
}

fn get_or_create_cached_device_spec(
    devices: &mut Vec<Rc<DeviceSpec>>,
    channel: u8,
    self_address: u16,
    peer_address: u16,
    file: &SpecificationFile,
    language: Language,
) -> (r: Rc<DeviceSpec>)
    requires
        file.well_formed(),
    ensures
        device_step(*file, language, device_views(old(devices)@), channel, self_address, peer_address) == (
        device_views(final(devices)@), r@),
{
    if let Some(device) = get_cached_device_spec(devices.as_slice(), channel, self_address, peer_address) {
        proof {
            let pred = |d: DeviceSpecView| device_matches(d, channel, self_address, peer_address);
            lemma_first_index(device_views(devices@), pred);
            let i = first_index(device_views(devices@), pred)->0;
            assert(device_views(devices@)[i] == devices@[i]@);
        }
        return device;
    }
    let template = file.find_device_template(self_address, peer_address);
    proof {
        crate::specification_file::lemma_first_device_template(file.device_templates@, self_address, peer_address);
    }
    let peer_option = match template {
        None => None,
        Some(t) => if t.peer_mask == 0 {
            None
        } else {
            Some(peer_address)
        },
    };
    let mut id: Vec<char> = Vec::new();
    push_hex(&mut id, channel as u64, 2);
    id.push('_');
    push_hex(&mut id, self_address as u64, 4);
    if let Some(p) = peer_option {
        id.push('_');
        push_hex(&mut id, p as u64, 4);
    }
    let mut name: Vec<char> = Vec::new();
    if channel != 0 {
        push_str(&mut name, "VBus ");
        push_dec(&mut name, channel as u64);
        push_str(&mut name, ": ");
    }
    let ghost prefix = name@;
    match template {
        None => {
            match language {
                Language::De => push_str(&mut name, "Unbekanntes Ger\u{e4}t 0x"),
                _ => push_str(&mut name, "Unknown device 0x"),
            }
            push_hex(&mut name, self_address as u64, 4);
        },
        Some(t) => {
            push_str(&mut name, file.localized_text_by_index(t.name_localized_text_index, language));
        },
    }
    let ghost expected = new_device(*file, language, channel, self_address, peer_address);
    proof {
        assert(prefix =~= channel_prefix(channel));
        assert(id@ =~= expected.device_id);
        assert(name@ =~= expected.name);
    }
    let device = DeviceSpec {
        device_id: string_from_chars(&id),
        channel,
        self_address,
        peer_address: peer_option,
        name: string_from_chars(&name),
    };
    assert(device@ == expected);
    let rc = Rc::new(device);
    let r = share(&rc);
    assert(r@ == expected);
    devices.push(rc);
    proof {
        assert(device_views(devices@) =~= device_views(old(devices)@).push(expected));
    }
    r
}


/// A `PacketFieldSpec` with its texts as character sequences.
pub struct PacketFieldSpecView {
    pub field_id: Seq<char>,
    pub packet_field_id: Seq<char>,
    pub name: Seq<char>,
    pub unit_id: UnitId,
    pub unit_family: UnitFamily,
    pub unit_code: Seq<char>,
    pub unit_text: Seq<char>,
    pub precision: i32,
    pub typ: Type,
    pub parts: Seq<PacketTemplateFieldPart>,
}

impl View for PacketFieldSpec {
    type V = PacketFieldSpecView;

    open spec fn view(&self) -> PacketFieldSpecView {
        PacketFieldSpecView {
            field_id: self.field_id@,
            packet_field_id: self.packet_field_id@,
            name: self.name@,
            unit_id: self.unit_id,
            unit_family: self.unit_family,
            unit_code: self.unit_code@,
            unit_text: self.unit_text@,
            precision: self.precision,
            typ: self.typ,
            parts: self.parts@,
        }
    }
}

/// Information about a VBus packet and its fields.
#[derive(Debug)]
pub struct PacketSpec {
    /// The packet identifier.
    pub packet_id: String,
    /// The VBus channel the packet was sent on.
    pub channel: u8,
    /// The VBus address the packet was sent to.
    pub destination_address: u16,
    /// The VBus address the packet was sent from.
    pub source_address: u16,
    /// The command of the packet.
    pub command: u16,
    /// The device the packet was sent to.
    pub destination_device: Rc<DeviceSpec>,
    /// The device the packet was sent from.
    pub source_device: Rc<DeviceSpec>,
    /// The name of the packet.
    pub name: String,
    /// The fields in the payload of the packet.
    pub fields: Vec<PacketFieldSpec>,
}

/// A `PacketSpec` with its texts as character sequences.
pub struct PacketSpecView {
    pub packet_id: Seq<char>,
    pub channel: u8,
    pub destination_address: u16,
    pub source_address: u16,
    pub command: u16,
    pub destination_device: DeviceSpecView,
    pub source_device: DeviceSpecView,
    pub name: Seq<char>,
    pub fields: Seq<PacketFieldSpecView>,
}

/// The views of a list of field specs.
pub open spec fn field_views(v: Seq<PacketFieldSpec>) -> Seq<PacketFieldSpecView> {
    v.map_values(|f: PacketFieldSpec| f@)
}

impl View for PacketSpec {
    type V = PacketSpecView;

    open spec fn view(&self) -> PacketSpecView {
        PacketSpecView {
            packet_id: self.packet_id@,
            channel: self.channel,
            destination_address: self.destination_address,
            source_address: self.source_address,
            command: self.command,
            destination_device: self.destination_device@,
            source_device: self.source_device@,
            name: self.name@,
            fields: field_views(self.fields@),
        }
    }
}

/// `"CC_DDDD_SSSS_10_CCCC"`.
pub open spec fn packet_spec_id_text(channel: u8, destination_address: u16, source_address: u16, command: u16) -> Seq<char> {
    hex_fixed(channel as nat, 2) + seq!['_'] + hex_fixed(destination_address as nat, 4) + seq!['_']
        + hex_fixed(source_address as nat, 4) + seq!['_', '1', '0', '_'] + hex_fixed(command as nat, 4)
}

/// The name of a packet: the source's name alone for the broadcast address
/// 0x0010, else `"source => destination"`.
pub open spec fn packet_name_text(destination_address: u16, destination: DeviceSpecView, source: DeviceSpecView) -> Seq<char> {
    if destination_address == 0x0010 {
        source.name
    } else {
        source.name + " => "@ + destination.name
    }
}

/// The field spec made from a template field of a packet with identifier `packet_id`.
pub open spec fn field_spec_of(file: SpecificationFile, language: Language, packet_id: Seq<char>, field: PacketTemplateField) -> PacketFieldSpecView {
    let unit = file.units@[first_unit(file.units@, field.unit_id)->0];
    PacketFieldSpecView {
        field_id: file.text(field.id_text_index),
        packet_field_id: packet_id + seq!['_'] + file.text(field.id_text_index),
        name: file.localized_text(field.name_localized_text_index, language),
        unit_id: field.unit_id,
        unit_family: unit.unit_family,
        unit_code: file.text(unit.unit_code_text_index),
        unit_text: file.text(unit.unit_text_text_index),
        precision: field.precision,
        typ: field.typ,
        parts: field.parts@,
    }
}

/// The field specs of a packet: one for each field of the first matching
/// template, none where no template matches.
pub open spec fn packet_fields(
    file: SpecificationFile,
    language: Language,
    destination_address: u16,
    source_address: u16,
    command: u16,
    packet_id: Seq<char>,
) -> Seq<PacketFieldSpecView> {
    match first_packet_template(file.packet_templates@, destination_address, source_address, command) {
        Some(i) => {
            let fs = file.packet_templates@[i].fields@;
            Seq::new(fs.len(), |j: int| field_spec_of(file, language, packet_id, fs[j]))
        },
        None => Seq::empty(),
    }
}

/// A cached packet entry answers a lookup with exactly these values.
pub open spec fn packet_matches(p: PacketSpecView, channel: u8, destination_address: u16, source_address: u16, command: u16) -> bool {
    &&& p.channel == channel
    &&& p.destination_address == destination_address
    &&& p.source_address == source_address
    &&& p.command == command
}

/// The views of the cached packets.
pub open spec fn packet_views(v: Seq<Rc<PacketSpec>>) -> Seq<PacketSpecView> {
    v.map_values(|p: Rc<PacketSpec>| p@)
}

/// A packet lookup: the device cache and packet cache after it, and the
/// entry it returns. On a miss the destination device is looked up with the
/// source as its peer, then the source device with the destination as its peer.
pub open spec fn packet_step(
    file: SpecificationFile,
    language: Language,
    devices: Seq<DeviceSpecView>,
    packets: Seq<PacketSpecView>,
    channel: u8,
    destination_address: u16,
    source_address: u16,
    command: u16,
) -> (Seq<DeviceSpecView>, Seq<PacketSpecView>, PacketSpecView) {
    match first_index(
        packets,
        |p: PacketSpecView| packet_matches(p, channel, destination_address, source_address, command),
    ) {
        Some(i) => (devices, packets, packets[i]),
        None => {
            let (devices1, destination) = device_step(file, language, devices, channel, destination_address, source_address);
            let (devices2, source) = device_step(file, language, devices1, channel, source_address, destination_address);
            let packet_id = packet_spec_id_text(channel, destination_address, source_address, command);
            let p = PacketSpecView {
                packet_id,
                channel,
                destination_address,
                source_address,
                command,
                destination_device: destination,
                source_device: source,
                name: packet_name_text(destination_address, destination, source),
                fields: packet_fields(file, language, destination_address, source_address, command, packet_id),
            };
            (devices2, packets.push(p), p)
        },
    }
}

fn get_cached_packet_spec(
    packets: &[Rc<PacketSpec>],
    channel: u8,
    destination_address: u16,
    source_address: u16,
    command: u16,
) -> (r: Option<Rc<PacketSpec>>)
    ensures
        match first_index(
            packet_views(packets@),
            |p: PacketSpecView| packet_matches(p, channel, destination_address, source_address, command),
        ) {
            Some(i) => r == Some(packets@[i]),
            None => r is None,
        },
{
    let ghost pred = |p: PacketSpecView| packet_matches(p, channel, destination_address, source_address, command);
    proof {
        lemma_first_index(packet_views(packets@), pred);
    }
    let n = packets.len();
    let mut i: usize = 0;
    while i < n
        invariant
            n == packets@.len(),
            i <= n,
            pred == (|p: PacketSpecView| packet_matches(p, channel, destination_address, source_address, command)),
            forall|j: int| 0 <= j < i ==> !pred(#[trigger] packet_views(packets@)[j]),
            match first_index(packet_views(packets@), pred) {
                Some(k) => 0 <= k < n && pred(packet_views(packets@)[k]) && forall|j: int| 0 <= j < k ==> !pred(#[trigger] packet_views(packets@)[j]),
                None => forall|j: int| 0 <= j < n ==> !pred(#[trigger] packet_views(packets@)[j]),
            },
        decreases n - i,
    {
        let packet = &packets[i];
        let matches = packet.channel == channel && packet.destination_address == destination_address
            && packet.source_address == source_address && packet.command == command;
        proof {
            assert(packet_views(packets@)[i as int] == packets@[i as int]@);
            assert(matches == pred(packet_views(packets@)[i as int]));
        }
        if matches {
            return Some(share(packet));
        }
        i = i + 1;
    }
    None
}

fn build_field_spec(file: &SpecificationFile, language: Language, packet_id: &str, field: &PacketTemplateField) -> (r: PacketFieldSpec)
    requires
        field.id_text_index < file.texts@.len(),
        file.valid_localized_index(field.name_localized_text_index),
        file.valid_unit_id(field.unit_id),
    ensures
        r@ == field_spec_of(*file, language, packet_id@, *field),
{
    let field_id = file.text_by_index(field.id_text_index);
    let mut packet_field_id: Vec<char> = Vec::new();
    push_str(&mut packet_field_id, packet_id);
    packet_field_id.push('_');
    push_str(&mut packet_field_id, field_id);
    let mut id_chars: Vec<char> = Vec::new();
    push_str(&mut id_chars, field_id);
    let mut name_chars: Vec<char> = Vec::new();
    push_str(&mut name_chars, file.localized_text_by_index(field.name_localized_text_index, language));
    let unit = file.unit_by_id(field.unit_id);
    let mut code_chars: Vec<char> = Vec::new();
    push_str(&mut code_chars, file.text_by_index(unit.unit_code_text_index));
    let mut text_chars: Vec<char> = Vec::new();
    push_str(&mut text_chars, file.text_by_index(unit.unit_text_text_index));
    let mut parts: Vec<PacketTemplateFieldPart> = Vec::new();
    let n = field.parts.len();
    let mut i: usize = 0;
    while i < n
        invariant
            n == field.parts@.len(),
            i <= n,
            parts@ == field.parts@.subrange(0, i as int),
        decreases n - i,
    {
        parts.push(field.parts[i]);
        i = i + 1;
        assert(parts@ =~= field.parts@.subrange(0, i as int));
    }
    assert(parts@ =~= field.parts@);
    let ghost expected = field_spec_of(*file, language, packet_id@, *field);
    assert(packet_field_id@ =~= expected.packet_field_id);
    PacketFieldSpec {
        field_id: string_from_chars(&id_chars),
        packet_field_id: string_from_chars(&packet_field_id),
        name: string_from_chars(&name_chars),
        unit_id: field.unit_id,
        unit_family: unit.unit_family,
        unit_code: string_from_chars(&code_chars),
        unit_text: string_from_chars(&text_chars),
        precision: field.precision,
        typ: field.typ,
        parts,
    }
}

fn build_packet_fields(
    file: &SpecificationFile,
    language: Language,
    destination_address: u16,
    source_address: u16,
    command: u16,
    packet_id: &str,
) -> (r: Vec<PacketFieldSpec>)
    requires
        file.well_formed(),
    ensures
        field_views(r@) == packet_fields(*file, language, destination_address, source_address, command, packet_id@),
{
    let mut fields: Vec<PacketFieldSpec> = Vec::new();
    match file.find_packet_template(destination_address, source_address, command) {
        None => {
            assert(field_views(fields@) =~= Seq::<PacketFieldSpecView>::empty());
        },
        Some(t) => {
            let ghost ti = first_packet_template(file.packet_templates@, destination_address, source_address, command)->0;
            proof {
                crate::specification_file::lemma_first_packet_template(file.packet_templates@, destination_address, source_address, command);
            }
            let n = t.fields.len();
            let mut j: usize = 0;
            while j < n
                invariant
                    file.well_formed(),
                    0 <= ti < file.packet_templates@.len(),
                    *t == file.packet_templates@[ti],
                    n == t.fields@.len(),
                    j <= n,
                    field_views(fields@) =~= Seq::new(j as nat, |k: int| field_spec_of(*file, language, packet_id@, t.fields@[k])),
                decreases n - j,
            {
                proof {
                    assert(file.packet_templates@[ti].fields@[j as int] == t.fields@[j as int]);
                }
                let f = build_field_spec(file, language, packet_id, &t.fields[j]);
                let ghost before = fields@;
                let ghost gf = f;
                let ghost fv = f@;
                fields.push(f);
                proof {
                    assert(field_views(before).len() == before.len());
                    assert(before.len() == j);
                    assert(fields@ == before.push(gf));
                    let target = Seq::new((j + 1) as nat, |k: int| field_spec_of(*file, language, packet_id@, t.fields@[k]));
                    assert forall|k: int| 0 <= k < j + 1 implies field_views(fields@)[k] == target[k] by {
                        if k < j {
                            assert(fields@[k] == before[k]);
                            assert(field_views(before)[k] == target[k]);
                        } else {
                            assert(fields@[k]@ == fv);
                        }
                    }
                    assert(field_views(fields@) =~= target);
                }
                j = j + 1;
            }
        },
    }
    fields
}

fn get_or_create_cached_packet_spec(
    packets: &mut Vec<Rc<PacketSpec>>,
    channel: u8,
    destination_address: u16,
    source_address: u16,
    command: u16,
    devices: &mut Vec<Rc<DeviceSpec>>,
    file: &SpecificationFile,
    language: Language,
) -> (r: Rc<PacketSpec>)
    requires
        file.well_formed(),
    ensures
        packet_step(*file, language, device_views(old(devices)@), packet_views(old(packets)@), channel, destination_address, source_address, command)
            == (device_views(final(devices)@), packet_views(final(packets)@), r@),
{
    if let Some(packet) = get_cached_packet_spec(packets.as_slice(), channel, destination_address, source_address, command) {
        proof {
            let pred = |p: PacketSpecView| packet_matches(p, channel, destination_address, source_address, command);
            lemma_first_index(packet_views(packets@), pred);
            let i = first_index(packet_views(packets@), pred)->0;
            assert(packet_views(packets@)[i] == packets@[i]@);
        }
        return packet;
    }
    let destination_device = get_or_create_cached_device_spec(devices, channel, destination_address, source_address, file, language);
    let source_device = get_or_create_cached_device_spec(devices, channel, source_address, destination_address, file, language);
    let mut id: Vec<char> = Vec::new();
    push_hex(&mut id, channel as u64, 2);
    id.push('_');
    push_hex(&mut id, destination_address as u64, 4);
    id.push('_');
    push_hex(&mut id, source_address as u64, 4);
    id.push('_');
    id.push('1');
    id.push('0');
    id.push('_');
    push_hex(&mut id, command as u64, 4);
    let packet_id = string_from_chars(&id);
    let mut name: Vec<char> = Vec::new();
    push_str(&mut name, source_device.name.as_str());
    if destination_address != 0x0010 {
        push_str(&mut name, " => ");
        push_str(&mut name, destination_device.name.as_str());
    }
    let fields = build_packet_fields(file, language, destination_address, source_address, command, packet_id.as_str());
    let ghost expected = packet_step(*file, language, device_views(old(devices)@), packet_views(old(packets)@), channel, destination_address, source_address, command).2;
    proof {
        assert(packet_id@ =~= expected.packet_id);
        assert(name@ =~= expected.name);
    }
    let packet = PacketSpec {
        packet_id,
        channel,
        destination_address,
        source_address,
        command,
        destination_device,
        source_device,
        name: string_from_chars(&name),
        fields,
    };
    assert(packet@ == expected);
    let rc = Rc::new(packet);
    let r = share(&rc);
    packets.push(rc);
    proof {
        assert(packet_views(packets@) =~= packet_views(old(packets)@).push(expected));
    }
    r
}


impl PacketSpec {
    /// The first field spec with identifier `id`.
    pub fn get_field_spec(&self, id: &str) -> (r: Option<&PacketFieldSpec>)
        ensures
            match first_index(field_views(self.fields@), |f: PacketFieldSpecView| f.field_id == id@) {
                Some(i) => r == Some(&self.fields@[i]),
                None => r is None,
            },
    {
        let ghost pred = |f: PacketFieldSpecView| f.field_id == id@;
        proof {
            lemma_first_index(field_views(self.fields@), pred);
        }
        let n = self.fields.len();
        let mut i: usize = 0;
        while i < n
            invariant
                n == self.fields@.len(),
                i <= n,
                pred == (|f: PacketFieldSpecView| f.field_id == id@),
                forall|j: int| 0 <= j < i ==> !pred(#[trigger] field_views(self.fields@)[j]),
                match first_index(field_views(self.fields@), pred) {
                    Some(k) => 0 <= k < n && pred(field_views(self.fields@)[k]) && forall|j: int| 0 <= j < k ==> !pred(#[trigger] field_views(self.fields@)[j]),
                    None => forall|j: int| 0 <= j < n ==> !pred(#[trigger] field_views(self.fields@)[j]),
                },
            decreases n - i,
        {
            let field = &self.fields[i];
            let same = str_eq(field.field_id.as_str(), id);
            proof {
                assert(field_views(self.fields@)[i as int] == self.fields@[i as int]@);
            }
            if same {
                return Some(field);
            }
            i = i + 1;
        }
        None
    }
}

/// Whether two strings hold the same characters.
fn str_eq(a: &str, b: &str) -> (r: bool)
    ensures
        r == (a@ == b@),
{
    let n = a.unicode_len();
    let m = b.unicode_len();
    if n != m {
        return false;
    }
    let mut i: usize = 0;
    while i < n
        invariant
            n == a@.len(),
            m == b@.len(),
            n == m,
            i <= n,
            a@.subrange(0, i as int) == b@.subrange(0, i as int),
        decreases n - i,
    {
        if a.get_char(i) != b.get_char(i) {
            assert(a@[i as int] != b@[i as int]);
            return false;
        }
        assert(a@.subrange(0, i + 1) =~= a@.subrange(0, i as int).push(a@[i as int]));
        assert(b@.subrange(0, i + 1) =~= b@.subrange(0, i as int).push(b@[i as int]));
        i = i + 1;
    }
    assert(a@ =~= a@.subrange(0, n as int));
    assert(b@ =~= b@.subrange(0, n as int));
    true
}

/// Information about known devices and packets, and caches of the specs
/// looked up so far.
#[derive(Debug)]
pub struct Specification {
    file: SpecificationFile,
    language: Language,
    devices: Vec<Rc<DeviceSpec>>,
    packets: Vec<Rc<PacketSpec>>,
}

/// One field of one packet of a data set.
pub struct FieldView {
    /// The index of the packet in the data set.
    pub data_index: int,
    /// The spec of the packet.
    pub packet: PacketSpecView,
    /// The index of the field in the packet spec.
    pub field_index: int,
    /// The raw value of the field in the packet's payload.
    pub raw_value: Option<i64>,
}

/// Each packet's payload fits its frame data.
pub open spec fn packets_well_formed(data: Seq<Data>) -> bool {
    forall|i: int| 0 <= i < data.len() ==> match #[trigger] data[i] {
        Data::Packet(p) => p.frame_count <= 127,
        _ => true,
    }
}

/// The fields of the packets of `data` in order, with the caches after the
/// packet lookups they take: one lookup for each packet; datagrams and
/// telegrams are passed over.
pub open spec fn fields_walk(
    file: SpecificationFile,
    language: Language,
    devices: Seq<DeviceSpecView>,
    packets: Seq<PacketSpecView>,
    data: Seq<Data>,
) -> (Seq<DeviceSpecView>, Seq<PacketSpecView>, Seq<FieldView>)
    decreases data.len(),
{
    if data.len() == 0 {
        (devices, packets, Seq::empty())
    } else {
        let (devices1, packets1, items) = fields_walk(file, language, devices, packets, data.drop_last());
        match data.last() {
            Data::Packet(p) => {
                let (devices2, packets2, spec) = packet_step(
                    file,
                    language,
                    devices1,
                    packets1,
                    p.header.channel,
                    p.header.destination_address,
                    p.header.source_address,
                    p.command,
                );
                let new_items = Seq::new(
                    spec.fields.len(),
                    |j: int|
                        FieldView {
                            data_index: data.len() - 1,
                            packet: spec,
                            field_index: j,
                            raw_value: raw_value(spec.fields[j].parts, p.payload()),
                        },
                );
                (devices2, packets2, items + new_items)
            },
            _ => (devices1, packets1, items),
        }
    }
}

/// A field of a packet in a data set, with its raw value.
#[derive(Debug)]
pub struct DataSetPacketField<'a> {
    data_set: &'a [Data],
    data_index: usize,
    packet_spec: Rc<PacketSpec>,
    field_index: usize,
    raw_value: Option<i64>,
}

impl<'a> DataSetPacketField<'a> {
    /// The field as a `FieldView`.
    pub closed spec fn view_field(&self) -> FieldView {
        FieldView {
            data_index: self.data_index as int,
            packet: self.packet_spec@,
            field_index: self.field_index as int,
            raw_value: self.raw_value,
        }
    }

    /// The data set the field was found in.
    pub closed spec fn spec_data_set(&self) -> Seq<Data> {
        self.data_set@
    }

    /// The indices refer to a member of the data set and a field of the spec.
    pub closed spec fn well_formed(&self) -> bool {
        &&& self.data_index < self.data_set@.len()
        &&& self.field_index < self.packet_spec.fields@.len()
    }

    /// Returns the data set the field was found in.
    pub fn data_set(&self) -> (r: &[Data])
        ensures
            r@ == self.spec_data_set(),
    {
        self.data_set
    }

    /// Returns the index of the packet in the data set.
    pub fn data_index(&self) -> (r: usize)
        ensures
            r == self.view_field().data_index,
    {
        self.data_index
    }

    /// Returns the packet the field belongs to.
    pub fn data(&self) -> (r: &Data)
        requires
            self.well_formed(),
        ensures
            *r == self.spec_data_set()[self.view_field().data_index],
    {
        &self.data_set[self.data_index]
    }

    /// Returns the spec of the packet.
    pub fn packet_spec(&self) -> (r: &PacketSpec)
        ensures
            r@ == self.view_field().packet,
    {
        &self.packet_spec
    }

    /// Returns the index of the field in the packet spec.
    pub fn field_index(&self) -> (r: usize)
        ensures
            r == self.view_field().field_index,
    {
        self.field_index
    }

    /// Returns the spec of the field.
    pub fn field_spec(&self) -> (r: &PacketFieldSpec)
        requires
            self.well_formed(),
        ensures
            r@ == self.view_field().packet.fields[self.view_field().field_index],
    {
        &self.packet_spec.fields[self.field_index]
    }

    /// Returns the raw value of the field.
    pub fn raw_value(&self) -> (r: Option<i64>)
        ensures
            r == self.view_field().raw_value,
    {
        self.raw_value
    }
}

/// The views of a list of data set fields.
pub open spec fn item_views<'a>(v: Seq<DataSetPacketField<'a>>) -> Seq<FieldView> {
    v.map_values(|f: DataSetPacketField<'a>| f.view_field())
}

impl Specification {
    /// The specification file.
    pub closed spec fn spec_file(&self) -> SpecificationFile {
        self.file
    }

    /// The language of the names.
    pub closed spec fn spec_language(&self) -> Language {
        self.language
    }

    /// The cached device specs, in order of creation.
    pub closed spec fn device_cache(&self) -> Seq<DeviceSpecView> {
        device_views(self.devices@)
    }

    /// The cached packet specs, in order of creation.
    pub closed spec fn packet_cache(&self) -> Seq<PacketSpecView> {
        packet_views(self.packets@)
    }

    /// The specification file is well formed.
    pub closed spec fn well_formed(&self) -> bool {
        self.file.well_formed()
    }

    /// A specification over `file` naming things in `language`, with empty caches.
    pub fn from_file(file: SpecificationFile, language: Language) -> (r: Specification)
        requires
            file.well_formed(),
        ensures
            r.spec_file() == file,
            r.spec_language() == language,
            r.device_cache() == Seq::<DeviceSpecView>::empty(),
            r.packet_cache() == Seq::<PacketSpecView>::empty(),
            r.well_formed(),
    {
        let r = Specification { file, language, devices: Vec::new(), packets: Vec::new() };
        assert(r.device_cache() =~= Seq::<DeviceSpecView>::empty());
        assert(r.packet_cache() =~= Seq::<PacketSpecView>::empty());
        r
    }

    /// The number of cached device specs.
    pub fn device_count(&self) -> (r: usize)
        ensures
            r == self.device_cache().len(),
    {
        self.devices.len()
    }

    /// The number of cached packet specs.
    pub fn packet_count(&self) -> (r: usize)
        ensures
            r == self.packet_cache().len(),
    {
        self.packets.len()
    }

    /// The device spec for the device at `self_address` on `channel` talking
    /// to `peer_address`, from the cache or newly made and cached.
    pub fn get_device_spec(&mut self, channel: u8, self_address: u16, peer_address: u16) -> (r: Rc<DeviceSpec>)
        requires
            old(self).well_formed(),
        ensures
            device_step(old(self).spec_file(), old(self).spec_language(), old(self).device_cache(), channel, self_address, peer_address)
                == (final(self).device_cache(), r@),
            final(self).packet_cache() == old(self).packet_cache(),
            final(self).spec_file() == old(self).spec_file(),
            final(self).spec_language() == old(self).spec_language(),
            final(self).well_formed(),
    {
        get_or_create_cached_device_spec(&mut self.devices, channel, self_address, peer_address, &self.file, self.language)
    }

    /// The packet spec for packets on `channel` from `source_address` to
    /// `destination_address` with `command`, from the cache or newly made and
    /// cached (looking up both devices).
    pub fn get_packet_spec(&mut self, channel: u8, destination_address: u16, source_address: u16, command: u16) -> (r: Rc<PacketSpec>)
        requires
            old(self).well_formed(),
        ensures
            packet_step(
                old(self).spec_file(),
                old(self).spec_language(),
                old(self).device_cache(),
                old(self).packet_cache(),
                channel,
                destination_address,
                source_address,
                command,
            ) == (final(self).device_cache(), final(self).packet_cache(), r@),
            final(self).spec_file() == old(self).spec_file(),
            final(self).spec_language() == old(self).spec_language(),
            final(self).well_formed(),
    {
        get_or_create_cached_packet_spec(
            &mut self.packets,
            channel,
            destination_address,
            source_address,
            command,
            &mut self.devices,
            &self.file,
            self.language,
        )
    }

    /// Each field of each packet in `data_set`, in order, with its raw value
    /// read from the packet's payload.
    pub fn fields_in_data_set<'a>(&mut self, data_set: &'a [Data]) -> (r: Vec<DataSetPacketField<'a>>)
        requires
            old(self).well_formed(),
            packets_well_formed(data_set@),
        ensures
            fields_walk(old(self).spec_file(), old(self).spec_language(), old(self).device_cache(), old(self).packet_cache(), data_set@)
                == (final(self).device_cache(), final(self).packet_cache(), item_views(r@)),
            forall|k: int| 0 <= k < r@.len() ==> (#[trigger] r@[k]).well_formed() && r@[k].spec_data_set() == data_set@,
            final(self).spec_file() == old(self).spec_file(),
            final(self).spec_language() == old(self).spec_language(),
            final(self).well_formed(),
    {
        let ghost file = self.spec_file();
        let ghost language = self.spec_language();
        let mut items: Vec<DataSetPacketField<'a>> = Vec::new();
        let n = data_set.len();
        let mut i: usize = 0;
        while i < n
            invariant
                n == data_set@.len(),
                i <= n,
                self.well_formed(),
                self.spec_file() == file,
                self.spec_language() == language,
                packets_well_formed(data_set@),
                fields_walk(file, language, old(self).device_cache(), old(self).packet_cache(), data_set@.subrange(0, i as int))
                    == (self.device_cache(), self.packet_cache(), item_views(items@)),
                forall|k: int| 0 <= k < items@.len() ==> (#[trigger] items@[k]).well_formed() && items@[k].spec_data_set() == data_set@,
            decreases n - i,
        {
            let ghost prefix = data_set@.subrange(0, i as int);
            let ghost next = data_set@.subrange(0, i + 1);
            proof {
                assert(next.drop_last() =~= prefix);
                assert(next.last() == data_set@[i as int]);
            }
            if let Data::Packet(packet) = &data_set[i] {
                let spec = self.get_packet_spec(
                    packet.header.channel,
                    packet.header.destination_address,
                    packet.header.source_address,
                    packet.command,
                );
                proof {
                    assert(packet.frame_count <= 127);
                }
                let frame_data = vstd::slice::slice_subrange(packet.frame_data.as_slice(), 0, packet.frame_count as usize * 4);
                let ghost base = items@;
                let m = spec.fields.len();
                let mut j: usize = 0;
                while j < m
                    invariant
                        m == spec.fields@.len(),
                        j <= m,
                        i < n,
                        n == data_set@.len(),
                        frame_data@ == packet.payload(),
                        data_set@[i as int] == Data::Packet(*packet),
                        item_views(items@) =~= item_views(base) + Seq::new(
                            j as nat,
                            |k: int|
                                FieldView {
                                    data_index: i as int,
                                    packet: spec@,
                                    field_index: k,
                                    raw_value: raw_value(spec@.fields[k].parts, packet.payload()),
                                },
                        ),
                        forall|k: int| 0 <= k < items@.len() ==> (#[trigger] items@[k]).well_formed() && items@[k].spec_data_set() == data_set@,
                    decreases m - j,
                {
                    let raw = spec.fields[j].get_raw_value_i64(frame_data);
                    proof {
                        assert(field_views(spec.fields@)[j as int] == spec.fields@[j as int]@);
                    }
                    let item = DataSetPacketField {
                        data_set,
                        data_index: i,
                        packet_spec: share(&spec),
                        field_index: j,
                        raw_value: raw,
                    };
                    let ghost before = items@;
                    let ghost gi = item;
                    items.push(item);
                    proof {
                        assert(items@ == before.push(gi));
                        assert(item_views(items@) =~= item_views(before).push(gi.view_field()));
                    }
                    j = j + 1;
                }
            }
            i = i + 1;
        }
        proof {
            assert(data_set@.subrange(0, n as int) =~= data_set@);
        }
        items
    }
}


/// Looking a device up twice in a row returns the same entry both times, and
/// the second lookup leaves the cache as the first left it.
pub proof fn lemma_device_lookup_idempotent(
    file: SpecificationFile,
    language: Language,
    devices: Seq<DeviceSpecView>,
    channel: u8,
    self_address: u16,
    peer_address: u16,
)
    ensures
        ({
            let (devices1, first) = device_step(file, language, devices, channel, self_address, peer_address);
            let (devices2, second) = device_step(file, language, devices1, channel, self_address, peer_address);
            devices2 == devices1 && second == first
        }),
{
    let pred = |d: DeviceSpecView| device_matches(d, channel, self_address, peer_address);
    if first_index(devices, pred) is None {
        let d = new_device(file, language, channel, self_address, peer_address);
        lemma_first_index_push(devices, d, pred);
    }
}

/// Looking a packet up twice in a row returns the same entry both times, and
/// the second lookup leaves both caches as the first left them.
pub proof fn lemma_packet_lookup_idempotent(
    file: SpecificationFile,
    language: Language,
    devices: Seq<DeviceSpecView>,
    packets: Seq<PacketSpecView>,
    channel: u8,
    destination_address: u16,
    source_address: u16,
    command: u16,
)
    ensures
        ({
            let (devices1, packets1, first) = packet_step(
                file, language, devices, packets, channel, destination_address, source_address, command);
            let (devices2, packets2, second) = packet_step(
                file, language, devices1, packets1, channel, destination_address, source_address, command);
            devices2 == devices1 && packets2 == packets1 && second == first
        }),
{
    let pred = |p: PacketSpecView| packet_matches(p, channel, destination_address, source_address, command);
    if first_index(packets, pred) is None {
        let (devices1, packets1, p) = packet_step(
            file, language, devices, packets, channel, destination_address, source_address, command);
        lemma_first_index_push(packets, p, pred);
    }
}

} // verus!

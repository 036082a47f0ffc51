use resol_vbus::{
    power_of_ten_i64, Data, Datagram, DeviceTemplate, Header, Language, LocalizedText, Packet,
    PacketFieldSpec, PacketTemplate, PacketTemplateField, PacketTemplateFieldPart, Specification,
    SpecificationFile, Timestamp, Type, Unit, UnitFamily, UnitId,
};

const TEXTS: [&str; 20] = [
    "DeltaSol MX [WMZ #1]", // 0
    "DFA",                  // 1
    "000_4_0",              // 2
    "Heat quantity",        // 3
    "WattHours",            // 4
    " Wh",                  // 5
    "008_4_0",              // 6
    "012_4_0",              // 7
    "020_4_0",              // 8
    "016_4_0",              // 9
    "024_4_0",              // 10
    "028_4_0",              // 11
    "004_4_0",              // 12
    "Liters",               // 13
    " l",                   // 14
    "Volume",               // 15
    "Value",                // 16
    "W\u{e4}rmemenge",      // 17
    "032_4_0",              // 18
    "None",                 // 19
];

fn part(offset: i32, is_signed: bool, factor: i64) -> PacketTemplateFieldPart {
    PacketTemplateFieldPart { offset, bit_pos: 0, mask: 0xFF, is_signed, factor }
}

fn four_byte_parts(offset: i32) -> Vec<PacketTemplateFieldPart> {
    vec![
        part(offset, false, 1),
        part(offset + 1, false, 256),
        part(offset + 2, false, 65536),
        part(offset + 3, true, 16777216),
    ]
}

fn field(id: u32, name: u32, unit: i32, precision: i32, parts: Vec<PacketTemplateFieldPart>) -> PacketTemplateField {
    PacketTemplateField {
        id_text_index: id,
        name_localized_text_index: name,
        unit_id: UnitId(unit),
        precision,
        typ: Type::Number,
        parts,
    }
}

fn spec_file() -> SpecificationFile {
    let mut heat_parts = four_byte_parts(0);
    heat_parts.extend(four_byte_parts(4).into_iter().map(|p| PacketTemplateFieldPart { factor: p.factor * 1000, ..p }));
    let wmz_fields = vec![
        field(2, 2, 18, 0, heat_parts),
        field(6, 3, 18, 0, four_byte_parts(8)),
        field(7, 3, 18, 0, four_byte_parts(12)),
        field(8, 3, 18, 0, four_byte_parts(20)),
        field(9, 4, 28, 0, four_byte_parts(16)),
        field(10, 4, 28, 0, four_byte_parts(24)),
        field(11, 4, 28, 0, four_byte_parts(28)),
        field(18, 4, 28, 0, four_byte_parts(32)),
    ];
    let value_fields = vec![
        field(2, 5, 0, 0, four_byte_parts(0)),
        field(12, 5, 0, 1, four_byte_parts(4)),
        field(6, 5, 0, 1, four_byte_parts(8)),
    ];
    SpecificationFile {
        texts: TEXTS.iter().map(|t| t.to_string()).collect(),
        localized_texts: vec![
            LocalizedText { en: 0, de: 0, fr: 0 },
            LocalizedText { en: 1, de: 1, fr: 1 },
            LocalizedText { en: 3, de: 17, fr: 3 },
            LocalizedText { en: 3, de: 17, fr: 3 },
            LocalizedText { en: 15, de: 15, fr: 15 },
            LocalizedText { en: 16, de: 16, fr: 16 },
        ],
        units: vec![
            Unit { unit_id: UnitId(0), unit_family: UnitFamily::Unitless, unit_code_text_index: 19, unit_text_text_index: 19 },
            Unit { unit_id: UnitId(18), unit_family: UnitFamily::Energy, unit_code_text_index: 4, unit_text_text_index: 5 },
            Unit { unit_id: UnitId(28), unit_family: UnitFamily::Volume, unit_code_text_index: 13, unit_text_text_index: 14 },
        ],
        device_templates: vec![
            DeviceTemplate { self_address: 0x7E31, self_mask: 0xFFFF, peer_address: 0, peer_mask: 0, name_localized_text_index: 0 },
            DeviceTemplate { self_address: 0x0010, self_mask: 0xFFF0, peer_address: 0, peer_mask: 0, name_localized_text_index: 1 },
            DeviceTemplate { self_address: 0x7F61, self_mask: 0xFFFF, peer_address: 0x0010, peer_mask: 0xFFFF, name_localized_text_index: 5 },
        ],
        packet_templates: vec![
            PacketTemplate {
                destination_address: 0x0010,
                destination_mask: 0xFFFF,
                source_address: 0x7E31,
                source_mask: 0xFFFF,
                command: 0x0100,
                fields: wmz_fields,
            },
            PacketTemplate {
                destination_address: 0x0010,
                destination_mask: 0xFFFF,
                source_address: 0x7F61,
                source_mask: 0xFFFF,
                command: 0x0100,
                fields: value_fields,
            },
        ],
    }
}

const BUF: [u8; 12] = [0x78, 0x56, 0x34, 0x12, 0xB8, 0x22, 0x00, 0x00, 0x48, 0xDD, 0xFF, 0xFF];

fn fake_field_spec(precision: i32, typ: Type, unit_text: &str) -> PacketFieldSpec {
    PacketFieldSpec {
        field_id: "".to_string(),
        packet_field_id: "".to_string(),
        name: "".to_string(),
        unit_id: UnitId(0),
        unit_family: UnitFamily::Unitless,
        unit_code: "unit code".to_string(),
        unit_text: unit_text.to_string(),
        precision,
        typ,
        parts: Vec::new(),
    }
}

fn fmt(field_spec: &PacketFieldSpec, raw_value: i64, append_unit: bool) -> String {
    field_spec.fmt_raw_value(Some(raw_value), append_unit).to_string()
}

#[test]
fn test_power_of_ten_i64() {
    for n in 0..19 {
        assert_eq!(10i64.pow(n), power_of_ten_i64(n));
    }
}

#[test]
fn test_from_file() {
    let spec = Specification::from_file(spec_file(), Language::En);
    assert_eq!(0, spec.device_count());
    assert_eq!(0, spec.packet_count());
}

#[test]
fn test_get_device_spec() {
    let mut spec = Specification::from_file(spec_file(), Language::En);
    assert_eq!(0, spec.device_count());

    let device_spec = spec.get_device_spec(0x01, 0x7E31, 0x0010);
    assert_eq!(1, spec.device_count());
    assert_eq!("01_7E31", device_spec.device_id);
    assert_eq!(0x01, device_spec.channel);
    assert_eq!(0x7E31, device_spec.self_address);
    assert_eq!(None, device_spec.peer_address);
    assert_eq!("VBus 1: DeltaSol MX [WMZ #1]", device_spec.name);

    let device_spec = spec.get_device_spec(0x01, 0x7E31, 0x0010);
    assert_eq!(1, spec.device_count());
    assert_eq!("01_7E31", device_spec.device_id);

    let device_spec = spec.get_device_spec(0x00, 0x7E31, 0x0010);
    assert_eq!(2, spec.device_count());
    assert_eq!("00_7E31", device_spec.device_id);
    assert_eq!(0x00, device_spec.channel);
    assert_eq!(0x7E31, device_spec.self_address);
    assert_eq!(None, device_spec.peer_address);
    assert_eq!("DeltaSol MX [WMZ #1]", device_spec.name);

    let device_spec = spec.get_device_spec(0x00, 0x7E11, 0x0010);
    assert_eq!(3, spec.device_count());
    assert_eq!("00_7E11", device_spec.device_id);
    assert_eq!(0x00, device_spec.channel);
    assert_eq!(0x7E11, device_spec.self_address);
    assert_eq!(None, device_spec.peer_address);
    assert_eq!("Unknown device 0x7E11", device_spec.name);
}

#[test]
fn test_get_packet_spec() {
    let mut spec = Specification::from_file(spec_file(), Language::En);
    assert_eq!(0, spec.packet_count());

    let packet_spec = spec.get_packet_spec(0x01, 0x0010, 0x7E31, 0x0100);
    assert_eq!(1, spec.packet_count());
    assert_eq!("01_0010_7E31_10_0100", packet_spec.packet_id);
    assert_eq!(0x01, packet_spec.channel);
    assert_eq!(0x0010, packet_spec.destination_address);
    assert_eq!(0x7E31, packet_spec.source_address);
    assert_eq!(0x0100, packet_spec.command);
    assert_eq!("VBus 1: DFA", packet_spec.destination_device.name);
    assert_eq!("VBus 1: DeltaSol MX [WMZ #1]", packet_spec.source_device.name);
    assert_eq!("VBus 1: DeltaSol MX [WMZ #1]", packet_spec.name);
    assert_eq!(8, packet_spec.fields.len());

    let field_spec = &packet_spec.fields[0];
    assert_eq!("000_4_0", field_spec.field_id);
    assert_eq!("01_0010_7E31_10_0100_000_4_0", field_spec.packet_field_id);
    assert_eq!("Heat quantity", field_spec.name);
    assert_eq!(18, field_spec.unit_id.0);
    assert_eq!(UnitFamily::Energy, field_spec.unit_family);
    assert_eq!("WattHours", field_spec.unit_code);
    assert_eq!(" Wh", field_spec.unit_text);
    assert_eq!(0, field_spec.precision);
    assert_eq!(Type::Number, field_spec.typ);
    assert_eq!(8, field_spec.parts.len());

    let packet_spec = spec.get_packet_spec(0x01, 0x0010, 0x7E31, 0x0100);
    assert_eq!(1, spec.packet_count());
    assert_eq!("01_0010_7E31_10_0100", packet_spec.packet_id);

    let packet_spec = spec.get_packet_spec(0x00, 0x0010, 0x7E31, 0x0100);
    assert_eq!(2, spec.packet_count());
    assert_eq!("00_0010_7E31_10_0100", packet_spec.packet_id);
    assert_eq!(0x00, packet_spec.channel);
    assert_eq!(0x0010, packet_spec.destination_address);
    assert_eq!(0x7E31, packet_spec.source_address);
    assert_eq!(0x0100, packet_spec.command);
    assert_eq!("DFA", packet_spec.destination_device.name);
    assert_eq!("DeltaSol MX [WMZ #1]", packet_spec.source_device.name);
    assert_eq!("DeltaSol MX [WMZ #1]", packet_spec.name);
    assert_eq!(8, packet_spec.fields.len());

    let packet_spec = spec.get_packet_spec(0x00, 0x0010, 0x7E11, 0x0100);
    assert_eq!(3, spec.packet_count());
    assert_eq!("00_0010_7E11_10_0100", packet_spec.packet_id);
    assert_eq!(0x00, packet_spec.channel);
    assert_eq!(0x0010, packet_spec.destination_address);
    assert_eq!(0x7E11, packet_spec.source_address);
    assert_eq!(0x0100, packet_spec.command);
    assert_eq!("DFA", packet_spec.destination_device.name);
    assert_eq!("Unknown device 0x7E11", packet_spec.source_device.name);
    assert_eq!("Unknown device 0x7E11", packet_spec.name);
    assert_eq!(0, packet_spec.fields.len());
}

#[test]
fn test_get_field_spec() {
    let mut spec = Specification::from_file(spec_file(), Language::En);
    assert_eq!(0, spec.packet_count());

    let packet_spec = spec.get_packet_spec(0x01, 0x0010, 0x7E31, 0x0100);
    let field_spec = packet_spec.get_field_spec("000_4_0").unwrap();
    assert_eq!("000_4_0", field_spec.field_id);
    assert_eq!("01_0010_7E31_10_0100_000_4_0", field_spec.packet_field_id);
    assert_eq!("Heat quantity", field_spec.name);
    assert_eq!(18, field_spec.unit_id.0);
    assert_eq!(UnitFamily::Energy, field_spec.unit_family);
    assert_eq!("WattHours", field_spec.unit_code);
    assert_eq!(" Wh", field_spec.unit_text);
    assert_eq!(0, field_spec.precision);
    assert_eq!(Type::Number, field_spec.typ);
    assert_eq!(8, field_spec.parts.len());

    assert!(packet_spec.get_field_spec("000_2_0").is_none());
}

#[test]
fn test_get_raw_value_i64() {
    let mut spec = Specification::from_file(spec_file(), Language::En);
    assert_eq!(0, spec.packet_count());

    let packet_spec = spec.get_packet_spec(0x01, 0x0010, 0x7F61, 0x0100);
    let buf = &BUF[..];

    assert_eq!(Some(0x12345678), packet_spec.get_field_spec("000_4_0").unwrap().get_raw_value_i64(buf));
    assert_eq!(Some(8888), packet_spec.get_field_spec("004_4_0").unwrap().get_raw_value_i64(buf));
    assert_eq!(Some(-8888), packet_spec.get_field_spec("008_4_0").unwrap().get_raw_value_i64(buf));
    assert_eq!(Some(0x345678), packet_spec.get_field_spec("000_4_0").unwrap().get_raw_value_i64(&buf[0..3]));
    assert_eq!(Some(0x5678), packet_spec.get_field_spec("000_4_0").unwrap().get_raw_value_i64(&buf[0..2]));
    assert_eq!(Some(0x78), packet_spec.get_field_spec("000_4_0").unwrap().get_raw_value_i64(&buf[0..1]));
    assert_eq!(None, packet_spec.get_field_spec("000_4_0").unwrap().get_raw_value_i64(&buf[0..0]));
}

#[test]
fn test_fmt_raw_value() {
    let field_spec = fake_field_spec(0, Type::Number, "don't append unit");
    assert_eq!("12346", fmt(&field_spec, 12346, false));

    let field_spec = fake_field_spec(0, Type::Number, " unit");
    assert_eq!("12346 unit", fmt(&field_spec, 12346, true));

    let field_spec = fake_field_spec(1, Type::Number, "don't append unit");
    assert_eq!("12345.7", fmt(&field_spec, 123457, false));

    let field_spec = fake_field_spec(2, Type::Number, "don't append unit");
    assert_eq!("12345.68", fmt(&field_spec, 1234568, false));

    let field_spec = fake_field_spec(3, Type::Number, "don't append unit");
    assert_eq!("12345.679", fmt(&field_spec, 12345679, false));

    let field_spec = fake_field_spec(4, Type::Number, "don't append unit");
    assert_eq!("12345.6789", fmt(&field_spec, 123456789, false));

    let field_spec = fake_field_spec(10, Type::Number, "don't append unit");
    assert_eq!("1.2345678900", fmt(&field_spec, 12345678900, false));

    let field_spec = fake_field_spec(0, Type::Time, "don't append unit");
    assert_eq!("12:01", fmt(&field_spec, 721, true));

    let field_spec = fake_field_spec(0, Type::WeekTime, "don't append unit");
    assert_eq!("Thu,12:01", fmt(&field_spec, 3 * 1440 + 721, true));

    let field_spec = fake_field_spec(0, Type::DateTime, "don't append unit");
    assert_eq!("2013-12-22 15:17:42", fmt(&field_spec, 409418262, true));
}

#[test]
fn test_fields_in_data_set() {
    let header = |dst: u16, src: u16, pv: u8| Header {
        timestamp: Timestamp::from_secs(1485688933),
        channel: 0x00,
        destination_address: dst,
        source_address: src,
        protocol_version: pv,
    };
    let data_set = vec![
        Data::Datagram(Datagram { header: header(0x0000, 0x7E11, 0x20), command: 0x0500, param16: 0, param32: 0 }),
        Data::Packet(Packet { header: header(0x0010, 0x7E31, 0x10), command: 0x0100, frame_count: 9, frame_data: [0u8; 508] }),
    ];

    let mut spec = Specification::from_file(spec_file(), Language::En);
    let fields = spec.fields_in_data_set(&data_set);
    assert_eq!(8, fields.len());

    let expected = [
        ("000_4_0", "0 Wh"),
        ("008_4_0", "0 Wh"),
        ("012_4_0", "0 Wh"),
        ("020_4_0", "0 Wh"),
        ("016_4_0", "0 l"),
        ("024_4_0", "0 l"),
        ("028_4_0", "0 l"),
    ];
    for (index, (field_id, with_unit)) in expected.iter().enumerate() {
        let field = &fields[index];
        assert_eq!(1, field.data_index());
        assert!(&data_set[1] == field.data());
        assert_eq!(2, field.data_set().len());
        assert_eq!("00_0010_7E31_10_0100", field.packet_spec().packet_id);
        assert_eq!(index, field.field_index());
        assert_eq!(*field_id, field.field_spec().field_id);
        assert_eq!(Some(0), field.raw_value());
        assert_eq!("0", field.fmt_raw_value(false).to_string());
        assert_eq!(*with_unit, field.fmt_raw_value(true).to_string());
    }
    // Frame count 9 covers bytes 0..36: the last field reads bytes 32..36.
    assert_eq!(Some(0), fields[7].raw_value());
}

#[test]
fn unknown_device_names_by_language() {
    let mut spec = Specification::from_file(spec_file(), Language::De);
    assert_eq!("Unbekanntes Ger\u{e4}t 0x7E11", spec.get_device_spec(0x00, 0x7E11, 0x0010).name);
    let mut spec = Specification::from_file(spec_file(), Language::Fr);
    assert_eq!("Unknown device 0x7E11", spec.get_device_spec(0x00, 0x7E11, 0x0010).name);
}

#[test]
fn localized_field_names_follow_the_language() {
    let mut spec = Specification::from_file(spec_file(), Language::De);
    let packet_spec = spec.get_packet_spec(0x00, 0x0010, 0x7E31, 0x0100);
    assert_eq!("W\u{e4}rmemenge", packet_spec.fields[1].name);
}

#[test]
fn peer_bound_device_ids_and_lookup() {
    let mut spec = Specification::from_file(spec_file(), Language::En);
    let device = spec.get_device_spec(0x00, 0x7F61, 0x0010);
    assert_eq!("00_7F61_0010", device.device_id);
    assert_eq!(Some(0x0010), device.peer_address);
    assert_eq!("Value", device.name);
    let again = spec.get_device_spec(0x00, 0x7F61, 0x0010);
    assert_eq!("00_7F61_0010", again.device_id);
    assert_eq!(1, spec.device_count());
    let other_peer = spec.get_device_spec(0x00, 0x7F61, 0x0020);
    assert_eq!("00_7F61", other_peer.device_id);
    assert_eq!(None, other_peer.peer_address);
    assert_eq!("Unknown device 0x7F61", other_peer.name);
    assert_eq!(2, spec.device_count());
}

#[test]
fn masked_device_template_matches_a_range() {
    let mut spec = Specification::from_file(spec_file(), Language::En);
    assert_eq!("DFA", spec.get_device_spec(0x00, 0x0015, 0x7E11).name);
}

#[test]
fn packet_name_between_two_devices() {
    let mut spec = Specification::from_file(spec_file(), Language::En);
    let packet_spec = spec.get_packet_spec(0x02, 0x7E31, 0x0010, 0x0200);
    assert_eq!("02_7E31_0010_10_0200", packet_spec.packet_id);
    assert_eq!("VBus 2: DFA => VBus 2: DeltaSol MX [WMZ #1]", packet_spec.name);
    assert_eq!(0, packet_spec.fields.len());
    assert_eq!(2, spec.device_count());
}

#[test]
fn repeated_lookups_return_the_same_descriptor() {
    let mut spec = Specification::from_file(spec_file(), Language::En);
    let first = spec.get_packet_spec(0x01, 0x0010, 0x7E31, 0x0100);
    let devices = spec.device_count();
    let second = spec.get_packet_spec(0x01, 0x0010, 0x7E31, 0x0100);
    assert!(std::rc::Rc::ptr_eq(&first, &second));
    assert_eq!(devices, spec.device_count());
    assert_eq!(1, spec.packet_count());
    let d1 = spec.get_device_spec(0x01, 0x7E31, 0x0010);
    let d2 = spec.get_device_spec(0x01, 0x7E31, 0x0010);
    assert!(std::rc::Rc::ptr_eq(&d1, &d2));
}

#[test]
fn field_decode_at_precision_one() {
    let mut spec = Specification::from_file(spec_file(), Language::En);
    let packet_spec = spec.get_packet_spec(0x01, 0x0010, 0x7F61, 0x0100);
    let field = packet_spec.get_field_spec("004_4_0").unwrap();
    let raw = field.get_raw_value_i64(&BUF);
    assert_eq!(Some(8888), raw);
    assert_eq!("888.8", field.fmt_raw_value(raw, false).to_string());
    let field = packet_spec.get_field_spec("008_4_0").unwrap();
    let raw = field.get_raw_value_i64(&BUF);
    assert_eq!(Some(-8888), raw);
    assert_eq!("-888.8", field.fmt_raw_value(raw, false).to_string());
}

#[test]
fn little_endian_parts_read_the_unsigned_value() {
    let mut f = fake_field_spec(0, Type::Number, "");
    f.parts = vec![part(0, false, 1), part(1, false, 256), part(2, false, 65536), part(3, false, 16777216)];
    assert_eq!(Some(0xFFFFDD48), f.get_raw_value_i64(&BUF[8..12]));
    assert_eq!(Some(0x12345678), f.get_raw_value_i64(&BUF[0..4]));
}

#[test]
fn signed_byte_all_ones_contributes_negative_factor() {
    let mut f = fake_field_spec(0, Type::Number, "");
    f.parts = vec![part(0, true, 1000)];
    assert_eq!(Some(-1000), f.get_raw_value_i64(&[0xFF]));
    f.parts = vec![PacketTemplateFieldPart { offset: 0, bit_pos: 0, mask: 0x0F, is_signed: true, factor: 1 }];
    assert_eq!(Some(15), f.get_raw_value_i64(&[0xFF]));
}

#[test]
fn masks_and_shifts_select_bits() {
    let mut f = fake_field_spec(0, Type::Number, "");
    f.parts = vec![PacketTemplateFieldPart { offset: 0, bit_pos: 4, mask: 0xF0, is_signed: false, factor: 1 }];
    assert_eq!(Some(0xA), f.get_raw_value_i64(&[0xAB]));
    f.parts = vec![PacketTemplateFieldPart { offset: 5, bit_pos: 0, mask: 0xFF, is_signed: false, factor: 1 }];
    assert_eq!(None, f.get_raw_value_i64(&[0xAB]));
    f.parts = vec![PacketTemplateFieldPart { offset: -1, bit_pos: 0, mask: 0xFF, is_signed: false, factor: 1 }];
    assert_eq!(None, f.get_raw_value_i64(&[0xAB]));
}

#[test]
fn formatter_rounds_times_and_handles_absent_values() {
    let f = fake_field_spec(1, Type::Time, "");
    assert_eq!("12:01", fmt(&f, 7205, false));
    assert_eq!("12:00", fmt(&f, 7204, false));
    assert_eq!("", f.fmt_raw_value(None, true).to_string());
    let f = fake_field_spec(0, Type::Time, "");
    assert_eq!("00:05", fmt(&f, 5, false));
    assert_eq!("-1:-5", fmt(&f, -65, false));
    let f = fake_field_spec(-2, Type::Number, " x");
    assert_eq!("1200 x", fmt(&f, 12, true));
    let f = fake_field_spec(3, Type::Number, "");
    assert_eq!("-0.005", fmt(&f, -5, false));
    assert_eq!("0.000", fmt(&f, 0, false));
    let f = fake_field_spec(0, Type::DateTime, "");
    assert_eq!("", fmt(&f, i64::MAX, false));
}

#[test]
fn week_time_starts_on_monday() {
    let f = fake_field_spec(0, Type::WeekTime, "");
    assert_eq!("Mon,00:00", fmt(&f, 0, false));
    assert_eq!("Sun,23:59", fmt(&f, 7 * 1440 - 1, false));
}

#[test]
fn catalog_well_formedness_is_checked() {
    assert!(spec_file().is_well_formed());

    let mut bad_text = spec_file();
    bad_text.device_templates[0].name_localized_text_index = 99;
    assert!(!bad_text.is_well_formed());

    let mut bad_unit = spec_file();
    bad_unit.packet_templates[1].fields[2].unit_id = UnitId(7);
    assert!(!bad_unit.is_well_formed());

    let mut bad_unit_text = spec_file();
    bad_unit_text.units[1].unit_text_text_index = 20;
    assert!(!bad_unit_text.is_well_formed());
}

#[test]
fn catalog_lookups() {
    let file = spec_file();
    assert_eq!(Some(0), file.find_unit_index(UnitId(0)));
    assert_eq!(Some(2), file.find_unit_index(UnitId(28)));
    assert_eq!(None, file.find_unit_index(UnitId(5)));
    assert_eq!(UnitFamily::Energy, file.unit_by_id(UnitId(18)).unit_family);
    assert_eq!("DFA", file.localized_text_by_index(1, Language::De));
    assert_eq!("W\u{e4}rmemenge", file.localized_text_by_index(2, Language::De));
    assert_eq!(" l", file.text_by_index(14));
    assert!(file.find_device_template(0x7E11, 0x0010).is_none());
    assert_eq!(0x0010, file.find_device_template(0x001F, 0x1234).unwrap().self_address);
    assert!(file.find_packet_template(0x0010, 0x7E31, 0x0200).is_none());
    assert_eq!(8, file.find_packet_template(0x0010, 0x7E31, 0x0100).unwrap().fields.len());
}

use modality_can::dbc::{
    Dbc, DbcModel, MessageDefinition, MessageId, MultiplexIndicator, SignalByteOrder,
    SignalDefinition, SignalSign, ValueDescriptionEntry, ValueLabel,
};
use modality_can::frame::{Id, RawFrame};
use modality_can::parser::{CanParser, ParsedCanFrame};
use modality_can::value::{AttrValue, RawVal, ScaleValue};
use modality_can::CommonConfig;

fn sv(x: f64) -> ScaleValue {
    ScaleValue {
        bits: x.to_bits(),
        as_signed: x as i64,
        as_unsigned: x as u64,
        integral: x.fract() == 0.0,
    }
}

fn sig(name: &str, start: u64, size: u64) -> SignalDefinition {
    SignalDefinition {
        name: name.to_owned(),
        multiplexer_indicator: MultiplexIndicator::Plain,
        start_bit: start,
        size,
        byte_order: SignalByteOrder::LittleEndian,
        value_type: SignalSign::Unsigned,
        factor: sv(1.0),
        offset: sv(0.0),
        min: sv(0.0),
        max: sv(0.0),
        unit: String::new(),
    }
}

fn msg(id: MessageId, name: &str, size: u64, signals: Vec<SignalDefinition>) -> MessageDefinition {
    MessageDefinition {
        id,
        name: name.to_owned(),
        size,
        transmitter: None,
        signals,
    }
}

fn model(messages: Vec<MessageDefinition>) -> DbcModel {
    DbcModel {
        messages,
        extended_value_types: vec![],
        value_descriptions: vec![],
        extended_multiplex_ids: vec![],
        version: String::new(),
    }
}

fn config() -> CommonConfig {
    CommonConfig {
        timeline_from_node: None,
        default_timeline: None,
        event_from_message: None,
        dbc: None,
    }
}

fn frame(id: Id, data: Vec<u8>) -> RawFrame {
    RawFrame {
        id,
        remote: false,
        error: false,
        fd: false,
        brs: false,
        esi: false,
        dlc: data.len(),
        data,
    }
}

fn decode(parser: &CanParser, f: &RawFrame) -> ParsedCanFrame {
    parser.parse(f)
}

#[test]
fn frame_level_attributes_always_present() {
    let parser = CanParser::new(&config(), None);
    let pcf = decode(&parser, &frame(Id::Standard(0x18A), vec![1, 2]));
    assert_eq!(pcf.attr("event.frame.id"), Some(&AttrValue::UInteger(0x18A)));
    assert_eq!(pcf.attr("event.frame.dlc"), Some(&AttrValue::UInteger(2)));
    assert_eq!(pcf.attr("event.frame.extended"), None);
    assert_eq!(pcf.attr("event.frame.remote"), None);
    assert_eq!(pcf.event_name(), "394");
}

#[test]
fn flag_attributes_present_only_when_true() {
    let parser = CanParser::new(&config(), None);
    let mut f = frame(Id::Extended(0x18A), vec![]);
    f.remote = true;
    f.dlc = 4;
    let pcf = decode(&parser, &f);
    assert_eq!(
        pcf.attr("event.frame.extended"),
        Some(&AttrValue::Boolean(true))
    );
    assert_eq!(
        pcf.attr("event.frame.remote"),
        Some(&AttrValue::Boolean(true))
    );
    assert_eq!(pcf.attr("event.frame.dlc"), Some(&AttrValue::UInteger(4)));
    assert_eq!(pcf.attr("event.frame.error"), None);
    assert_eq!(pcf.attr("event.frame.brs"), None);
    assert_eq!(pcf.attr("event.frame.esi"), None);
}

#[test]
fn message_attributes_and_event_name() {
    let mut m = msg(MessageId::Standard(0x100), "EngineData", 1, vec![sig("Speed", 0, 8)]);
    m.transmitter = Some("ECU1".to_owned());
    let parser = CanParser::new(&config(), Some(model(vec![m])));
    let pcf = decode(&parser, &frame(Id::Standard(0x100), vec![42]));
    assert_eq!(pcf.event_name(), "EngineData");
    assert_eq!(pcf.transmitter_node, Some("ECU1".to_owned()));
    assert_eq!(
        pcf.attr("event.message.name"),
        Some(&AttrValue::Text("EngineData".to_owned()))
    );
    assert_eq!(pcf.attr("event.message.size"), Some(&AttrValue::UInteger(1)));
    assert_eq!(
        pcf.attr("event.internal.modality_can.message.signal.count"),
        Some(&AttrValue::UInteger(1))
    );
    assert_eq!(
        pcf.attr("event.message.trasmitter"),
        Some(&AttrValue::Text("ECU1".to_owned()))
    );
    assert_eq!(pcf.attr("event.Speed"), Some(&AttrValue::UInteger(42)));
}

#[test]
fn size_mismatch_skips_signal_decoding() {
    let m = msg(MessageId::Standard(0x100), "M", 2, vec![sig("Speed", 0, 8)]);
    let parser = CanParser::new(&config(), Some(model(vec![m])));
    let pcf = decode(&parser, &frame(Id::Standard(0x100), vec![42]));
    // Message attributes stay, signal attributes are skipped.
    assert!(pcf.attr("event.message.name").is_some());
    assert_eq!(pcf.attr("event.Speed"), None);
}

#[test]
fn signed_signal_is_sign_extended() {
    let mut s = sig("Delta", 0, 4);
    s.value_type = SignalSign::Signed;
    let m = msg(MessageId::Standard(0x10), "M", 1, vec![s]);
    let parser = CanParser::new(&config(), Some(model(vec![m])));
    let pcf = decode(&parser, &frame(Id::Standard(0x10), vec![0x0F]));
    assert_eq!(pcf.attr("event.Delta"), Some(&AttrValue::Integer(-1)));
}

#[test]
fn big_endian_signal_reads_motorola_order() {
    let mut s = sig("Word", 7, 16);
    s.byte_order = SignalByteOrder::BigEndian;
    let m = msg(MessageId::Standard(0x10), "M", 2, vec![s]);
    let parser = CanParser::new(&config(), Some(model(vec![m])));
    let pcf = decode(&parser, &frame(Id::Standard(0x10), vec![0xAB, 0xCD]));
    assert_eq!(pcf.attr("event.Word"), Some(&AttrValue::UInteger(0xABCD)));
}

#[test]
fn one_bit_signal_collapses_to_boolean() {
    let m = msg(
        MessageId::Standard(0x10),
        "M",
        1,
        vec![sig("FlagA", 0, 1), sig("FlagB", 1, 1)],
    );
    let parser = CanParser::new(&config(), Some(model(vec![m])));
    let pcf = decode(&parser, &frame(Id::Standard(0x10), vec![0x01]));
    assert_eq!(pcf.attr("event.FlagA"), Some(&AttrValue::Boolean(true)));
    assert_eq!(pcf.attr("event.FlagB"), Some(&AttrValue::Boolean(false)));
}

#[test]
fn clamping_and_sentinel_range() {
    // min=10, max=20, factor=1, offset=0, raw 100 -> clamped to 20.
    let mut s1 = sig("Clamped", 0, 8);
    s1.min = sv(10.0);
    s1.max = sv(20.0);
    // min=0, max=0 is the "unclamped" sentinel: raw 100 stays 100.
    let s2 = sig("Free", 8, 8);
    let m = msg(MessageId::Standard(0x10), "M", 2, vec![s1, s2]);
    let parser = CanParser::new(&config(), Some(model(vec![m])));
    let pcf = decode(&parser, &frame(Id::Standard(0x10), vec![100, 100]));
    assert_eq!(pcf.attr("event.Clamped"), Some(&AttrValue::UInteger(20)));
    assert_eq!(pcf.attr("event.Free"), Some(&AttrValue::UInteger(100)));
}

#[test]
fn overflowing_scaling_drops_the_attribute() {
    let mut s = sig("Huge", 0, 8);
    s.factor = sv(1.0e19);
    let m = msg(MessageId::Standard(0x10), "M", 1, vec![s]);
    let parser = CanParser::new(&config(), Some(model(vec![m])));
    let pcf = decode(&parser, &frame(Id::Standard(0x10), vec![100]));
    assert_eq!(pcf.attr("event.Huge"), None);
}

#[test]
fn fractional_factor_defers_to_float_scaling() {
    let mut s = sig("Ratio", 0, 8);
    s.factor = sv(0.5);
    let m = msg(MessageId::Standard(0x10), "M", 1, vec![s]);
    let parser = CanParser::new(&config(), Some(model(vec![m])));
    let pcf = decode(&parser, &frame(Id::Standard(0x10), vec![9]));
    match pcf.attr("event.Ratio") {
        Some(AttrValue::Float(fs)) => {
            assert_eq!(fs.raw, RawVal::U64(9));
            assert_eq!(fs.factor_bits, 0.5f64.to_bits());
            assert_eq!(fs.offset_bits, 0.0f64.to_bits());
        }
        other => panic!("expected a float scaling, got {other:?}"),
    }
}

#[test]
fn value_description_wins_over_scaling() {
    let s = sig("Gear", 0, 8);
    let m = msg(MessageId::Standard(0x10), "M", 1, vec![s]);
    let mut dm = model(vec![m]);
    dm.value_descriptions = vec![ValueDescriptionEntry {
        message_id: MessageId::Standard(0x10),
        signal_name: "Gear".to_owned(),
        labels: vec![
            ValueLabel {
                value: 0,
                label: "Neutral".to_owned(),
            },
            ValueLabel {
                value: 2,
                label: "Second".to_owned(),
            },
        ],
    }];
    let parser = CanParser::new(&config(), Some(dm));
    let pcf = decode(&parser, &frame(Id::Standard(0x10), vec![2]));
    assert_eq!(
        pcf.attr("event.Gear"),
        Some(&AttrValue::Text("Second".to_owned()))
    );
    let pcf = decode(&parser, &frame(Id::Standard(0x10), vec![7]));
    assert_eq!(pcf.attr("event.Gear"), Some(&AttrValue::UInteger(7)));
}

#[test]
fn unit_attribute_and_name_normalization() {
    let mut s = sig("Engine Speed", 0, 8);
    s.unit = "rpm".to_owned();
    let m = msg(MessageId::Standard(0x10), "M", 1, vec![s]);
    let parser = CanParser::new(&config(), Some(model(vec![m])));
    let pcf = decode(&parser, &frame(Id::Standard(0x10), vec![17]));
    assert_eq!(
        pcf.attr("event.Engine_Speed"),
        Some(&AttrValue::UInteger(17))
    );
    assert_eq!(
        pcf.attr("event.Engine_Speed.unit"),
        Some(&AttrValue::Text("rpm".to_owned()))
    );
}

fn mux_model() -> DbcModel {
    let mut muxer = sig("Mode", 0, 2);
    muxer.multiplexer_indicator = MultiplexIndicator::Multiplexor;
    let mut a = sig("SigA", 2, 2);
    a.multiplexer_indicator = MultiplexIndicator::MultiplexedSignal(0);
    let mut b = sig("SigB", 4, 2);
    b.multiplexer_indicator = MultiplexIndicator::MultiplexedSignal(1);
    model(vec![msg(MessageId::Standard(0x20), "Muxed", 1, vec![muxer, a, b])])
}

#[test]
fn multiplex_gating_emits_exactly_the_selected_signal() {
    let parser = CanParser::new(&config(), Some(mux_model()));
    // Multiplexor decodes to 1: SigB (gated on 1) is emitted, SigA
    // (gated on 0) is not.
    let byte = 0b0011_1001u8; // Mode=1, SigA=2, SigB=3
    let pcf = decode(&parser, &frame(Id::Standard(0x20), vec![byte]));
    assert_eq!(pcf.attr("event.Mode"), Some(&AttrValue::UInteger(1)));
    assert_eq!(pcf.attr("event.SigA"), None);
    assert_eq!(pcf.attr("event.SigB"), Some(&AttrValue::UInteger(3)));

    // Multiplexor decodes to 0: only SigA is emitted.
    let byte = 0b0011_1000u8; // Mode=0, SigA=2, SigB=3
    let pcf = decode(&parser, &frame(Id::Standard(0x20), vec![byte]));
    assert_eq!(pcf.attr("event.SigA"), Some(&AttrValue::UInteger(2)));
    assert_eq!(pcf.attr("event.SigB"), None);
}

#[test]
fn decoding_is_idempotent_across_calls_and_instances() {
    let parser = CanParser::new(&config(), Some(mux_model()));
    let f = frame(Id::Standard(0x20), vec![0b0011_1001]);
    let first = decode(&parser, &f);
    let second = decode(&parser, &f);
    assert_eq!(first.attrs, second.attrs);
    assert_eq!(first.msg_name, second.msg_name);
    assert_eq!(first.transmitter_node, second.transmitter_node);

    let fresh = CanParser::new(&config(), Some(mux_model()));
    let third = decode(&fresh, &f);
    assert_eq!(first.attrs, third.attrs);
}

#[test]
fn duplicate_message_id_later_definition_wins() {
    let m1 = msg(MessageId::Standard(0x30), "First", 1, vec![sig("Old", 0, 8)]);
    let m2 = msg(MessageId::Standard(0x30), "Second", 1, vec![sig("New", 0, 8)]);
    let parser = CanParser::new(&config(), Some(model(vec![m1, m2])));
    let pcf = decode(&parser, &frame(Id::Standard(0x30), vec![5]));
    assert_eq!(pcf.event_name(), "Second");
    assert_eq!(pcf.attr("event.Old"), None);
    assert_eq!(pcf.attr("event.New"), Some(&AttrValue::UInteger(5)));
}

#[test]
fn unknown_id_keeps_only_frame_attributes() {
    let m = msg(MessageId::Standard(0x30), "Known", 1, vec![sig("S", 0, 8)]);
    let parser = CanParser::new(&config(), Some(model(vec![m])));
    let pcf = decode(&parser, &frame(Id::Standard(0x31), vec![5]));
    assert!(pcf.msg_name.is_none());
    assert_eq!(pcf.attr("event.message.name"), None);
    assert_eq!(pcf.event_name(), "49");
}

#[test]
fn out_of_range_signal_is_skipped() {
    // The signal's bit range leaves the declared one-byte payload.
    let m = msg(MessageId::Standard(0x10), "M", 1, vec![sig("Wide", 4, 8)]);
    let parser = CanParser::new(&config(), Some(model(vec![m])));
    let pcf = decode(&parser, &frame(Id::Standard(0x10), vec![0xFF]));
    assert_eq!(pcf.attr("event.Wide"), None);
}

#[test]
fn dbc_identity_hashes_the_content() {
    let d = Dbc::new(Some("test.dbc".to_owned()), b"", model(vec![]));
    assert_eq!(
        d.sha256,
        "e3b0c44298fc1c149afbf4c8996fb92427ae41e4649b934ca495991b7852b855"
    );
    let d = Dbc::new(None, b"abc", model(vec![]));
    assert_eq!(
        d.sha256,
        "ba7816bf8f01cfea414140de5dae2223b00361a396177a9cb410ff61f20015ad"
    );
}

#[test]
fn extended_value_type_overrides_the_declared_kind() {
    let m = msg(
        MessageId::Standard(0x40),
        "M",
        4,
        vec![sig("Temp", 0, 32), sig("Kept", 32, 0)],
    );
    let mut dm = model(vec![m]);
    dm.extended_value_types = vec![
        modality_can::dbc::ExtendedValueTypeEntry {
            message_id: MessageId::Standard(0x40),
            signal_name: "Temp".to_owned(),
            value_type: modality_can::dbc::ExtendedValueType::Float32,
        },
        modality_can::dbc::ExtendedValueTypeEntry {
            message_id: MessageId::Standard(0x40),
            signal_name: "Kept".to_owned(),
            value_type: modality_can::dbc::ExtendedValueType::SignedOrUnsignedInteger,
        },
    ];
    let parser = CanParser::new(&config(), Some(dm));
    let bits = 1.5f32.to_bits();
    let data = bits.to_le_bytes().to_vec();
    let pcf = decode(&parser, &frame(Id::Standard(0x40), data));
    match pcf.attr("event.Temp") {
        Some(AttrValue::Float(fs)) => {
            assert_eq!(fs.raw, RawVal::F32Bits(bits));
        }
        other => panic!("expected a float scaling, got {other:?}"),
    }
    // A zero-width signal can never be extracted; its attribute is
    // dropped rather than panicking.
    assert_eq!(pcf.attr("event.Kept"), None);
}

#[test]
fn gating_depends_on_declaration_order() {
    // The muxer is declared after its dependent signal: the dependent
    // is resolved before any muxer value has been observed this frame,
    // so it is decoded unconditionally.
    let mut a = sig("Late", 2, 2);
    a.multiplexer_indicator = MultiplexIndicator::MultiplexedSignal(0);
    let mut muxer = sig("Mode", 0, 2);
    muxer.multiplexer_indicator = MultiplexIndicator::Multiplexor;
    let m = msg(MessageId::Standard(0x21), "M", 1, vec![a, muxer]);
    let parser = CanParser::new(&config(), Some(model(vec![m])));
    // Mode=1 would gate Late (which needs 0) if it were seen first.
    let pcf = decode(&parser, &frame(Id::Standard(0x21), vec![0b0000_1001]));
    assert_eq!(pcf.attr("event.Late"), Some(&AttrValue::UInteger(2)));
    assert_eq!(pcf.attr("event.Mode"), Some(&AttrValue::UInteger(1)));
}

#[test]
fn signed_multiplexor_is_dropped() {
    let mut muxer = sig("Mode", 0, 2);
    muxer.multiplexer_indicator = MultiplexIndicator::Multiplexor;
    muxer.value_type = SignalSign::Signed;
    let mut b = sig("SigB", 4, 2);
    b.multiplexer_indicator = MultiplexIndicator::MultiplexedSignal(1);
    let m = msg(MessageId::Standard(0x22), "M", 1, vec![muxer, b]);
    let parser = CanParser::new(&config(), Some(model(vec![m])));
    let pcf = decode(&parser, &frame(Id::Standard(0x22), vec![0b0011_0001]));
    // The signed multiplexor's own attribute is dropped, and since it
    // never caches an indicator value, its dependents are not gated.
    assert_eq!(pcf.attr("event.Mode"), None);
    assert_eq!(pcf.attr("event.SigB"), Some(&AttrValue::UInteger(3)));
}

#[test]
fn multiplexor_and_multiplexed_signal_is_gated_but_never_caches() {
    let mut muxer = sig("Mode", 0, 2);
    muxer.multiplexer_indicator = MultiplexIndicator::Multiplexor;
    let mut x = sig("Both", 2, 2);
    x.multiplexer_indicator = MultiplexIndicator::MultiplexorAndMultiplexedSignal(1);
    let m = msg(MessageId::Standard(0x23), "M", 1, vec![muxer, x]);
    let parser = CanParser::new(&config(), Some(model(vec![m])));
    let pcf = decode(&parser, &frame(Id::Standard(0x23), vec![0b0000_1101]));
    // Mode=1 matches Both's gate; Both decodes as an ordinary value.
    assert_eq!(pcf.attr("event.Mode"), Some(&AttrValue::UInteger(1)));
    assert_eq!(pcf.attr("event.Both"), Some(&AttrValue::UInteger(3)));

    let pcf = decode(&parser, &frame(Id::Standard(0x23), vec![0b0000_1100]));
    // Mode=0 does not match Both's gate.
    assert_eq!(pcf.attr("event.Both"), None);
}

#[test]
fn extended_multiplexing_never_emits_multiplexed_signals() {
    // A message using extended multiplexing registers no gates, so its
    // multiplexed signals are never emitted; plain signals still are.
    let mut muxer = sig("Mode", 0, 2);
    muxer.multiplexer_indicator = MultiplexIndicator::Multiplexor;
    let mut a = sig("SigA", 2, 2);
    a.multiplexer_indicator = MultiplexIndicator::MultiplexedSignal(0);
    let plain = sig("Plain", 4, 2);
    let mut dm = model(vec![msg(
        MessageId::Standard(0x24),
        "M",
        1,
        vec![muxer, a, plain],
    )]);
    dm.extended_multiplex_ids = vec![MessageId::Standard(0x24)];
    let parser = CanParser::new(&config(), Some(dm));
    let pcf = decode(&parser, &frame(Id::Standard(0x24), vec![0b0011_0100]));
    assert_eq!(pcf.attr("event.Mode"), Some(&AttrValue::UInteger(0)));
    assert_eq!(pcf.attr("event.SigA"), None);
    assert_eq!(pcf.attr("event.Plain"), Some(&AttrValue::UInteger(3)));
}

use modality_can::convert::TimelineKey;
use modality_can::dbc::{Dbc, DbcModel};
use modality_can::frame::{Id, RawFrame};
use modality_can::parser::CanParser;
use modality_can::value::AttrValue;
use modality_can::CommonConfig;

fn config() -> CommonConfig {
    CommonConfig {
        timeline_from_node: None,
        default_timeline: None,
        event_from_message: None,
        dbc: None,
    }
}

fn empty_model() -> DbcModel {
    DbcModel {
        messages: vec![],
        extended_value_types: vec![],
        value_descriptions: vec![],
        extended_multiplex_ids: vec![],
        version: String::new(),
    }
}

fn decode_plain() -> modality_can::parser::ParsedCanFrame {
    let parser = CanParser::new(&config(), None);
    parser.parse(&RawFrame {
        id: Id::Standard(1),
        remote: false,
        error: false,
        fd: false,
        brs: false,
        esi: false,
        dlc: 0,
        data: vec![],
    })
}

#[test]
fn timeline_name_falls_back_to_default_then_canbus() {
    let pcf = decode_plain();
    let key = TimelineKey::for_parsed_frame(&pcf, &config());
    assert_eq!(key.timeline_name(), "canbus");

    let mut cfg = config();
    cfg.default_timeline = Some("bus7".to_owned());
    let key = TimelineKey::for_parsed_frame(&pcf, &cfg);
    assert_eq!(key.timeline_name(), "bus7");
}

#[test]
fn timeline_node_respects_configuration() {
    let mut pcf = decode_plain();
    pcf.transmitter_node = Some("ECU9".to_owned());

    let key = TimelineKey::for_parsed_frame(&pcf, &config());
    assert_eq!(key.timeline_name(), "ECU9");

    let mut cfg = config();
    cfg.timeline_from_node = Some(false);
    cfg.default_timeline = Some("fallback".to_owned());
    let key = TimelineKey::for_parsed_frame(&pcf, &cfg);
    assert_eq!(key.timeline_name(), "fallback");
}

#[test]
fn timeline_attrs_carry_dbc_identity() {
    let mut pcf = decode_plain();
    pcf.transmitter_node = Some("ECU9".to_owned());
    let key = TimelineKey::for_parsed_frame(&pcf, &config());

    let mut model = empty_model();
    model.version = "1.0".to_owned();
    let dbc = Some(Dbc::new(Some("demo.dbc".to_owned()), b"abc", model));
    let attrs = key.timeline_attrs(&dbc);
    let got: Vec<(&str, &AttrValue)> = attrs.iter().map(|(k, v)| (*k, v)).collect();
    assert_eq!(got.len(), 4);
    assert_eq!(
        got[0],
        ("timeline.transmitter", &AttrValue::Text("ECU9".to_owned()))
    );
    assert_eq!(
        got[1],
        ("timeline.dbc.version", &AttrValue::Text("1.0".to_owned()))
    );
    assert_eq!(
        got[2],
        ("timeline.dbc.file_name", &AttrValue::Text("demo.dbc".to_owned()))
    );
    assert_eq!(
        got[3],
        (
            "timeline.dbc.sha256",
            &AttrValue::Text(
                "ba7816bf8f01cfea414140de5dae2223b00361a396177a9cb410ff61f20015ad".to_owned()
            )
        )
    );

    let attrs = key.timeline_attrs(&None);
    assert_eq!(attrs.len(), 1);
}

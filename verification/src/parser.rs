//! The signal table builder and the frame decoder.
//!
//! `CanParser::new` consumes the externally parsed DBC model once and
//! builds, per message identifier, a compact lookup of signal kinds,
//! value-description labels and multiplex relationships. `CanParser::parse`
//! then turns one raw frame into a decoded frame: frame-level attributes
//! always, message- and signal-level attributes when the table knows the
//! identifier and the payload length matches the declared size.

use vstd::prelude::*;

use crate::attrs::{
    attrs_get, attrs_insert, dec_str, map_of, normalize_name, normalized, prefixed, u32_dec_string,
};
use crate::dbc::{
    DbcModel, ExtendedValueType, ExtendedValueTypeEntry, MessageDefinition, MessageId,
    MultiplexIndicator, SignalByteOrder, SignalDefinition, SignalSign, SignalValueType,
    ValueDescriptionEntry,
};
use crate::extract::{
    be_value, extract_be, extract_le, le_value, lemma_be_value_bound, lemma_le_value_bound,
    sign_extend, to_signed,
};
use crate::frame::{FrameView, RawFrame};
use crate::value::{spec_as_bool, spec_as_scaled_int, AttrValue, AttrView, FloatScaling, RawVal};
use crate::CommonConfig;

verus! {

/// One multiplexed signal's gate: the multiplexor signal it depends on
/// and the indicator value that activates it.
#[derive(Clone, Debug)]
pub struct MuxedSignalInfo {
    /// The parent multiplexor indicator signal.
    pub muxer: String,
    /// The indicator value of the parent multiplexor that flags this
    /// multiplexed signal as active.
    pub indicator: u64,
}

/// One discrete value description, flattened: signal name, raw value,
/// label. A later entry for the same signal and value overrides an
/// earlier one.
#[derive(Clone, Debug)]
pub struct SignalValueLabel {
    pub signal: String,
    pub value: i64,
    pub label: String,
}

/// Per-message lookup state built once from the DBC model; read-only
/// during decoding.
#[derive(Debug)]
pub struct SignalState {
    pub signal_to_type: Vec<(String, SignalValueType)>,
    pub signal_to_values: Vec<SignalValueLabel>,
    pub muxed_to_info: Vec<(String, MuxedSignalInfo)>,
}

#[derive(Debug)]
pub struct DbcMessageInfo {
    pub msg: MessageDefinition,
    pub signal_state: SignalState,
}

/// The frame decoder: per-identifier message information and the event
/// naming policy.
pub struct CanParser {
    pub use_msg_as_event_name: bool,
    pub id_to_msg_info: Vec<(u32, DbcMessageInfo)>,
}

/// A decoded frame: derived event name parts and the attribute map.
pub struct ParsedCanFrame {
    pub id: u32,
    pub msg_name: Option<String>,
    pub transmitter_node: Option<String>,
    pub attrs: Vec<(String, AttrValue)>,
}

/// Last-match lookup in an association list keyed by name; this is the
/// map reading of a list built by repeated insertion.
pub open spec fn assoc_get<V>(s: Seq<(String, V)>, k: Seq<char>) -> Option<V>
    decreases s.len(),
{
    if s.len() == 0 {
        None
    } else if s.last().0@ == k {
        Some(s.last().1)
    } else {
        assoc_get(s.drop_last(), k)
    }
}

fn assoc_find<'a, V>(v: &'a Vec<(String, V)>, key: &String) -> (r: Option<&'a V>)
    ensures
        match r {
            Some(x) => assoc_get(v@, key@) == Some(*x),
            None => assoc_get(v@, key@) is None,
        },
{
    let mut i = v.len();
    proof {
        assert(v@.take(v@.len() as int) =~= v@);
    }
    while i > 0
        invariant
            i <= v.len(),
            assoc_get(v@, key@) == assoc_get(v@.take(i as int), key@),
        decreases i,
    {
        i = i - 1;
        proof {
            assert(v@.take(i + 1).drop_last() =~= v@.take(i as int));
            assert(v@.take(i + 1).last() == v@[i as int]);
        }
        if v[i].0.eq(key) {
            return Some(&v[i].1);
        }
    }
    proof {
        assert(v@.take(0) =~= Seq::<(String, V)>::empty());
    }
    None
}

/// Last-match lookup of a value description label.
pub open spec fn label_get(s: Seq<SignalValueLabel>, name: Seq<char>, v: i64) -> Option<Seq<char>>
    decreases s.len(),
{
    if s.len() == 0 {
        None
    } else if s.last().signal@ == name && s.last().value == v {
        Some(s.last().label@)
    } else {
        label_get(s.drop_last(), name, v)
    }
}

fn label_find<'a>(v: &'a Vec<SignalValueLabel>, name: &String, value: i64) -> (r: Option<
    &'a String,
>)
    ensures
        match r {
            Some(x) => label_get(v@, name@, value) == Some(x@),
            None => label_get(v@, name@, value) is None,
        },
{
    let mut i = v.len();
    proof {
        assert(v@.take(v@.len() as int) =~= v@);
    }
    while i > 0
        invariant
            i <= v.len(),
            label_get(v@, name@, value) == label_get(v@.take(i as int), name@, value),
        decreases i,
    {
        i = i - 1;
        proof {
            assert(v@.take(i + 1).drop_last() =~= v@.take(i as int));
            assert(v@.take(i + 1).last() == v@[i as int]);
        }
        if v[i].signal.eq(name) && v[i].value == value {
            return Some(&v[i].label);
        }
    }
    proof {
        assert(v@.take(0) =~= Seq::<SignalValueLabel>::empty());
    }
    None
}

/// Last-match lookup of a message by raw identifier: with duplicate
/// identifiers in the DBC, the later declaration wins.
pub open spec fn table_get(t: Seq<(u32, DbcMessageInfo)>, id: u32) -> Option<DbcMessageInfo>
    decreases t.len(),
{
    if t.len() == 0 {
        None
    } else if t.last().0 == id {
        Some(t.last().1)
    } else {
        table_get(t.drop_last(), id)
    }
}

fn table_find<'a>(t: &'a Vec<(u32, DbcMessageInfo)>, id: u32) -> (r: Option<&'a DbcMessageInfo>)
    ensures
        match r {
            Some(x) => table_get(t@, id) == Some(*x),
            None => table_get(t@, id) is None,
        },
{
    let mut i = t.len();
    proof {
        assert(t@.take(t@.len() as int) =~= t@);
    }
    while i > 0
        invariant
            i <= t.len(),
            table_get(t@, id) == table_get(t@.take(i as int), id),
        decreases i,
    {
        i = i - 1;
        proof {
            assert(t@.take(i + 1).drop_last() =~= t@.take(i as int));
            assert(t@.take(i + 1).last() == t@[i as int]);
        }
        if t[i].0 == id {
            return Some(&t[i].1);
        }
    }
    proof {
        assert(t@.take(0) =~= Seq::<(u32, DbcMessageInfo)>::empty());
    }
    None
}

/// The default value kind of a signal is its declared signedness.
pub open spec fn default_type_of(s: SignalSign) -> SignalValueType {
    match s {
        SignalSign::Signed => SignalValueType::Signed,
        SignalSign::Unsigned => SignalValueType::Unsigned,
    }
}

/// Default kinds of a message's signals, in declaration order.
pub open spec fn spec_default_types(signals: Seq<SignalDefinition>) -> Seq<
    (String, SignalValueType),
>
    decreases signals.len(),
{
    if signals.len() == 0 {
        Seq::empty()
    } else {
        spec_default_types(signals.drop_last()).push(
            (signals.last().name, default_type_of(signals.last().value_type)),
        )
    }
}

/// Extended-type overrides for one message: float overrides replace the
/// default kind, the signed-or-unsigned marker keeps it.
pub open spec fn spec_override_types(evts: Seq<ExtendedValueTypeEntry>, mid: MessageId) -> Seq<
    (String, SignalValueType),
>
    decreases evts.len(),
{
    if evts.len() == 0 {
        Seq::empty()
    } else {
        let rest = spec_override_types(evts.drop_last(), mid);
        let e = evts.last();
        if e.message_id == mid {
            match e.value_type {
                ExtendedValueType::Float32 => rest.push((e.signal_name, SignalValueType::F32)),
                ExtendedValueType::Float64 => rest.push((e.signal_name, SignalValueType::F64)),
                ExtendedValueType::SignedOrUnsignedInteger => rest,
            }
        } else {
            rest
        }
    }
}

/// The flattened value descriptions of one message, in declaration
/// order.
pub open spec fn spec_value_labels(vds: Seq<ValueDescriptionEntry>, mid: MessageId) -> Seq<
    SignalValueLabel,
>
    decreases vds.len(),
{
    if vds.len() == 0 {
        Seq::empty()
    } else {
        let rest = spec_value_labels(vds.drop_last(), mid);
        let vd = vds.last();
        if vd.message_id == mid {
            rest + vd.labels@.map_values(
                |l: crate::dbc::ValueLabel| SignalValueLabel {
                    signal: vd.signal_name,
                    value: l.value,
                    label: l.label,
                },
            )
        } else {
            rest
        }
    }
}

/// The first signal declared as the plain multiplexor of a message.
pub open spec fn spec_first_muxer(signals: Seq<SignalDefinition>) -> Option<String>
    decreases signals.len(),
{
    if signals.len() == 0 {
        None
    } else if signals.first().multiplexer_indicator == MultiplexIndicator::Multiplexor {
        Some(signals.first().name)
    } else {
        spec_first_muxer(signals.drop_first())
    }
}

/// The multiplexor switch of a message: only "simple" single-multiplexor
/// messages have one; a message using extended multiplexing has none,
/// so its multiplexed signals are never registered.
pub open spec fn spec_mux_switch(
    signals: Seq<SignalDefinition>,
    exts: Seq<MessageId>,
    mid: MessageId,
) -> Option<String> {
    if exts.contains(mid) {
        None
    } else {
        spec_first_muxer(signals)
    }
}

/// The multiplex gates of a message's signals: every signal flagged as
/// multiplexed-by-value (or multiplexor-and-multiplexed) records its
/// required indicator value against the muxer's name.
pub open spec fn spec_muxed_infos(signals: Seq<SignalDefinition>, muxer: String) -> Seq<
    (String, MuxedSignalInfo),
>
    decreases signals.len(),
{
    if signals.len() == 0 {
        Seq::empty()
    } else {
        let rest = spec_muxed_infos(signals.drop_last(), muxer);
        let s = signals.last();
        match s.multiplexer_indicator {
            MultiplexIndicator::MultiplexedSignal(i) => rest.push(
                (s.name, MuxedSignalInfo { muxer, indicator: i }),
            ),
            MultiplexIndicator::MultiplexorAndMultiplexedSignal(i) => rest.push(
                (s.name, MuxedSignalInfo { muxer, indicator: i }),
            ),
            _ => rest,
        }
    }
}

/// What one table entry must hold for its message.
pub open spec fn table_entry_matches(
    m: MessageDefinition,
    evts: Seq<ExtendedValueTypeEntry>,
    vds: Seq<ValueDescriptionEntry>,
    exts: Seq<MessageId>,
    e: (u32, DbcMessageInfo),
) -> bool {
    &&& e.0 == m.id.spec_raw_can_id()
    &&& e.1.msg == m
    &&& e.1.signal_state.signal_to_type@ == spec_default_types(m.signals@) + spec_override_types(
        evts,
        m.id,
    )
    &&& e.1.signal_state.signal_to_values@ == spec_value_labels(vds, m.id)
    &&& (match spec_mux_switch(m.signals@, exts, m.id) {
        Some(mx) => e.1.signal_state.muxed_to_info@ == spec_muxed_infos(m.signals@, mx),
        None => e.1.signal_state.muxed_to_info@ == Seq::<(String, MuxedSignalInfo)>::empty(),
    })
}

/// The signal table holds one entry per declared message, in order;
/// lookups take the last entry for an identifier, so a duplicate
/// identifier resolves to the later declaration.
pub open spec fn table_matches(model: DbcModel, t: Seq<(u32, DbcMessageInfo)>) -> bool {
    &&& t.len() == model.messages@.len()
    &&& forall|i: int|
        0 <= i < t.len() ==> table_entry_matches(
            model.messages@[i],
            model.extended_value_types@,
            model.value_descriptions@,
            model.extended_multiplex_ids@,
            #[trigger] t[i],
        )
}


impl CanParser {
    /// Builds the signal table from the externally parsed DBC model.
    /// With no model, the table is empty and decoding degrades to
    /// frame-level attributes.
    pub fn new(cfg: &CommonConfig, dbc: Option<DbcModel>) -> (r: CanParser)
        ensures
            r.use_msg_as_event_name == (match cfg.event_from_message {
                Some(b) => b,
                None => true,
            }),
            match dbc {
                Some(model) => table_matches(model, r.id_to_msg_info@),
                None => r.id_to_msg_info@.len() == 0,
            },
    {
        let mut id_to_msg_info: Vec<(u32, DbcMessageInfo)> = Vec::new();
        if let Some(model) = dbc {
            let ghost gmodel = model;
            let DbcModel {
                mut messages,
                extended_value_types,
                value_descriptions,
                extended_multiplex_ids,
                version: _,
            } = model;
            let ghost msgs0 = messages@;
            let mut mi: usize = 0;
            let n_msgs = messages.len();
            proof {
                assert(msgs0.len() == n_msgs as int);
                assert(messages@ =~= msgs0.skip(0));
            }
            while messages.len() > 0
                invariant
                    msgs0.len() <= usize::MAX,
                    mi + messages.len() == msgs0.len(),
                    messages@ == msgs0.skip(mi as int),
                    id_to_msg_info@.len() == mi,
                    extended_value_types@ == gmodel.extended_value_types@,
                    value_descriptions@ == gmodel.value_descriptions@,
                    extended_multiplex_ids@ == gmodel.extended_multiplex_ids@,
                    forall|j: int|
                        0 <= j < mi ==> table_entry_matches(
                            msgs0[j],
                            gmodel.extended_value_types@,
                            gmodel.value_descriptions@,
                            gmodel.extended_multiplex_ids@,
                            #[trigger] id_to_msg_info@[j],
                        ),
                decreases messages.len(),
            {
                let msg = messages.remove(0);
                proof {
                    assert(msgs0.skip(mi as int).drop_first() =~= msgs0.skip(mi + 1));
                    assert(msg == msgs0[mi as int]);
                }

                // Default signal value kinds, may get overridden below.
                let mut signal_to_type: Vec<(String, SignalValueType)> = Vec::new();
                let mut si: usize = 0;
                proof {
                    assert(msg.signals@.take(0) =~= Seq::<SignalDefinition>::empty());
                }
                while si < msg.signals.len()
                    invariant
                        si <= msg.signals@.len(),
                        signal_to_type@ == spec_default_types(msg.signals@.take(si as int)),
                    decreases msg.signals@.len() - si,
                {
                    let s = &msg.signals[si];
                    let typ = match s.value_type {
                        SignalSign::Signed => SignalValueType::Signed,
                        SignalSign::Unsigned => SignalValueType::Unsigned,
                    };
                    signal_to_type.push((s.name.clone(), typ));
                    proof {
                        assert(msg.signals@.take(si + 1).drop_last() =~= msg.signals@.take(
                            si as int,
                        ));
                        assert(msg.signals@.take(si + 1).last() == msg.signals@[si as int]);
                    }
                    si = si + 1;
                }
                proof {
                    assert(msg.signals@.take(msg.signals@.len() as int) =~= msg.signals@);
                }

                // Apply extended signal types.
                let mut ei: usize = 0;
                proof {
                    assert(extended_value_types@.take(0) =~= Seq::<
                        ExtendedValueTypeEntry,
                    >::empty());
                }
                while ei < extended_value_types.len()
                    invariant
                        ei <= extended_value_types@.len(),
                        signal_to_type@ == spec_default_types(msg.signals@)
                            + spec_override_types(
                            extended_value_types@.take(ei as int),
                            msg.id,
                        ),
                    decreases extended_value_types@.len() - ei,
                {
                    let e = &extended_value_types[ei];
                    proof {
                        assert(extended_value_types@.take(ei + 1).drop_last()
                            =~= extended_value_types@.take(ei as int));
                        assert(extended_value_types@.take(ei + 1).last()
                            == extended_value_types@[ei as int]);
                    }
                    if e.message_id == msg.id {
                        match e.value_type {
                            ExtendedValueType::Float32 => {
                                signal_to_type.push((e.signal_name.clone(), SignalValueType::F32));
                            },
                            ExtendedValueType::Float64 => {
                                signal_to_type.push((e.signal_name.clone(), SignalValueType::F64));
                            },
                            ExtendedValueType::SignedOrUnsignedInteger => {},
                        }
                    }
                    ei = ei + 1;
                }
                proof {
                    assert(extended_value_types@.take(extended_value_types@.len() as int)
                        =~= extended_value_types@);
                }

                // Flatten the value descriptions of this message.
                let mut signal_to_values: Vec<SignalValueLabel> = Vec::new();
                let mut vi: usize = 0;
                proof {
                    assert(value_descriptions@.take(0) =~= Seq::<ValueDescriptionEntry>::empty());
                }
                while vi < value_descriptions.len()
                    invariant
                        vi <= value_descriptions@.len(),
                        signal_to_values@ == spec_value_labels(
                            value_descriptions@.take(vi as int),
                            msg.id,
                        ),
                    decreases value_descriptions@.len() - vi,
                {
                    let vd = &value_descriptions[vi];
                    proof {
                        assert(value_descriptions@.take(vi + 1).drop_last()
                            =~= value_descriptions@.take(vi as int));
                        assert(value_descriptions@.take(vi + 1).last()
                            == value_descriptions@[vi as int]);
                    }
                    if vd.message_id == msg.id {
                        let ghost before = signal_to_values@;
                        let mut li: usize = 0;
                        proof {
                            assert(vd.labels@.take(0).map_values(
                                |l: crate::dbc::ValueLabel| SignalValueLabel {
                                    signal: vd.signal_name,
                                    value: l.value,
                                    label: l.label,
                                },
                            ) =~= Seq::<SignalValueLabel>::empty());
                            assert(signal_to_values@ =~= before + vd.labels@.take(0).map_values(
                                |l: crate::dbc::ValueLabel| SignalValueLabel {
                                    signal: vd.signal_name,
                                    value: l.value,
                                    label: l.label,
                                },
                            ));
                        }
                        while li < vd.labels.len()
                            invariant
                                li <= vd.labels@.len(),
                                signal_to_values@ == before + vd.labels@.take(
                                    li as int,
                                ).map_values(
                                    |l: crate::dbc::ValueLabel| SignalValueLabel {
                                        signal: vd.signal_name,
                                        value: l.value,
                                        label: l.label,
                                    },
                                ),
                            decreases vd.labels@.len() - li,
                        {
                            let l = &vd.labels[li];
                            signal_to_values.push(
                                SignalValueLabel {
                                    signal: vd.signal_name.clone(),
                                    value: l.value,
                                    label: l.label.clone(),
                                },
                            );
                            proof {
                                assert(vd.labels@.take(li + 1).drop_last() =~= vd.labels@.take(
                                    li as int,
                                ));
                                assert(vd.labels@.take(li + 1).last() == vd.labels@[li as int]);
                                assert(signal_to_values@ =~= before + vd.labels@.take(
                                    li + 1,
                                ).map_values(
                                    |l: crate::dbc::ValueLabel| SignalValueLabel {
                                        signal: vd.signal_name,
                                        value: l.value,
                                        label: l.label,
                                    },
                                ));
                            }
                            li = li + 1;
                        }
                        proof {
                            assert(vd.labels@.take(vd.labels@.len() as int) =~= vd.labels@);
                        }
                    }
                    vi = vi + 1;
                }
                proof {
                    assert(value_descriptions@.take(value_descriptions@.len() as int)
                        =~= value_descriptions@);
                }

                // Set up the multiplexed signal gates, only for simple
                // single-multiplexor messages.
                let mut muxed_to_info: Vec<(String, MuxedSignalInfo)> = Vec::new();
                let mut has_ext_mux = false;
                let mut xi: usize = 0;
                while xi < extended_multiplex_ids.len()
                    invariant
                        xi <= extended_multiplex_ids@.len(),
                        has_ext_mux == extended_multiplex_ids@.take(xi as int).contains(msg.id),
                    decreases extended_multiplex_ids@.len() - xi,
                {
                    proof {
                        assert(extended_multiplex_ids@.take(xi + 1).drop_last()
                            =~= extended_multiplex_ids@.take(xi as int));
                        assert(extended_multiplex_ids@.take(xi + 1).last()
                            == extended_multiplex_ids@[xi as int]);
                    }
                    if extended_multiplex_ids[xi] == msg.id {
                        has_ext_mux = true;
                    }
                    proof {
                        if has_ext_mux {
                            assert(extended_multiplex_ids@.take(xi + 1).contains(msg.id)
                                == extended_multiplex_ids@.take(xi as int).contains(msg.id)
                                || extended_multiplex_ids@[xi as int] == msg.id);
                        }
                    }
                    xi = xi + 1;
                }
                proof {
                    assert(extended_multiplex_ids@.take(extended_multiplex_ids@.len() as int)
                        =~= extended_multiplex_ids@);
                }
                if !has_ext_mux {
                    if let Some(mx) = first_muxer(&msg.signals) {
                        let muxer_name = msg.signals[mx].name.clone();
                        let mut mj: usize = 0;
                        proof {
                            assert(msg.signals@.take(0) =~= Seq::<SignalDefinition>::empty());
                        }
                        while mj < msg.signals.len()
                            invariant
                                mj <= msg.signals@.len(),
                                muxed_to_info@ == spec_muxed_infos(
                                    msg.signals@.take(mj as int),
                                    muxer_name,
                                ),
                            decreases msg.signals@.len() - mj,
                        {
                            let s = &msg.signals[mj];
                            proof {
                                assert(msg.signals@.take(mj + 1).drop_last() =~= msg.signals@.take(
                                    mj as int,
                                ));
                                assert(msg.signals@.take(mj + 1).last() == msg.signals@[
                                    mj as int
                                ]);
                            }
                            match s.multiplexer_indicator {
                                MultiplexIndicator::MultiplexedSignal(ind) => {
                                    muxed_to_info.push(
                                        (
                                            s.name.clone(),
                                            MuxedSignalInfo {
                                                muxer: muxer_name.clone(),
                                                indicator: ind,
                                            },
                                        ),
                                    );
                                },
                                MultiplexIndicator::MultiplexorAndMultiplexedSignal(ind) => {
                                    muxed_to_info.push(
                                        (
                                            s.name.clone(),
                                            MuxedSignalInfo {
                                                muxer: muxer_name.clone(),
                                                indicator: ind,
                                            },
                                        ),
                                    );
                                },
                                _ => {},
                            }
                            mj = mj + 1;
                        }
                        proof {
                            assert(msg.signals@.take(msg.signals@.len() as int)
                                =~= msg.signals@);
                        }
                    }
                }

                let raw = msg.id.raw_can_id();
                let entry = DbcMessageInfo {
                    msg,
                    signal_state: SignalState { signal_to_type, signal_to_values, muxed_to_info },
                };
                id_to_msg_info.push((raw, entry));
                proof {
                    assert(id_to_msg_info@.last() == id_to_msg_info@[mi as int]);
                    assert(table_entry_matches(
                        msgs0[mi as int],
                        gmodel.extended_value_types@,
                        gmodel.value_descriptions@,
                        gmodel.extended_multiplex_ids@,
                        id_to_msg_info@[mi as int],
                    ));
                }
                mi = mi + 1;
            }
        }
        let use_msg_as_event_name = match cfg.event_from_message {
            Some(b) => b,
            None => true,
        };
        CanParser { use_msg_as_event_name, id_to_msg_info }
    }
}

/// Index of the first signal declared as the plain multiplexor.
fn first_muxer(signals: &Vec<SignalDefinition>) -> (r: Option<usize>)
    ensures
        match r {
            Some(ix) => ix < signals@.len() && spec_first_muxer(signals@) == Some(
                signals@[ix as int].name,
            ),
            None => spec_first_muxer(signals@) is None,
        },
{
    let mut i: usize = 0;
    proof {
        assert(signals@.skip(0) =~= signals@);
    }
    while i < signals.len()
        invariant
            i <= signals@.len(),
            spec_first_muxer(signals@) == spec_first_muxer(signals@.skip(i as int)),
        decreases signals@.len() - i,
    {
        proof {
            assert(signals@.skip(i as int).first() == signals@[i as int]);
            assert(signals@.skip(i as int).drop_first() =~= signals@.skip(i + 1));
        }
        let is_mux = match signals[i].multiplexer_indicator {
            MultiplexIndicator::Multiplexor => true,
            _ => false,
        };
        if is_mux {
            return Some(i);
        }
        i = i + 1;
    }
    None
}


/// Every per-event attribute key carries this prefix.
pub open spec fn event_key(k: Seq<char>) -> Seq<char> {
    "event."@ + k
}

/// Internal (non-signal) message attributes carry a longer prefix that
/// marks them as derived by this plugin.
pub open spec fn internal_key(k: Seq<char>) -> Seq<char> {
    "event.internal.modality_can."@ + k
}

/// The frame-level attributes: numeric identifier, data-length code,
/// and one boolean attribute per set flag (a cleared flag is absent,
/// not false).
pub open spec fn spec_frame_attrs(f: FrameView) -> Map<Seq<char>, AttrView> {
    let m = Map::<Seq<char>, AttrView>::empty().insert(
        event_key("frame.id"@),
        AttrView::UInteger(f.id.spec_raw_can_id() as u64),
    ).insert(event_key("frame.dlc"@), AttrView::UInteger(f.dlc as u64));
    let m = if f.id.spec_is_extended() {
        m.insert(event_key("frame.extended"@), AttrView::Boolean(true))
    } else {
        m
    };
    let m = if f.remote {
        m.insert(event_key("frame.remote"@), AttrView::Boolean(true))
    } else {
        m
    };
    let m = if f.error {
        m.insert(event_key("frame.error"@), AttrView::Boolean(true))
    } else {
        m
    };
    let m = if f.brs {
        m.insert(event_key("frame.brs"@), AttrView::Boolean(true))
    } else {
        m
    };
    if f.esi {
        m.insert(event_key("frame.esi"@), AttrView::Boolean(true))
    } else {
        m
    }
}

/// The message-level attributes added on top of the frame-level ones:
/// signal count, declared size, message name, and the transmitter node
/// when one is declared.
pub open spec fn spec_msg_attrs(m: MessageDefinition, base: Map<Seq<char>, AttrView>) -> Map<
    Seq<char>,
    AttrView,
> {
    let m1 = base.insert(
        internal_key("message.signal.count"@),
        AttrView::UInteger(m.signals@.len() as u64),
    ).insert(event_key("message.size"@), AttrView::UInteger(m.size)).insert(
        event_key("message.name"@),
        AttrView::Text(m.name@),
    );
    match m.transmitter {
        Some(node) => m1.insert(event_key("message.trasmitter"@), AttrView::Text(node@)),
        None => m1,
    }
}

/// The bit range of a little-endian signal: width bits starting at the
/// declared start bit.
pub open spec fn spec_le_range(sig: SignalDefinition) -> Option<(int, int)> {
    if sig.start_bit + sig.size > u64::MAX {
        None
    } else {
        Some((sig.start_bit as int, sig.start_bit + sig.size))
    }
}

/// The bit range of a big-endian signal: the DBC numbers bits within
/// each byte from the most significant bit, so the start bit is first
/// reflected within its byte.
pub open spec fn spec_be_range(sig: SignalDefinition) -> Option<(int, int)> {
    let x = (sig.start_bit as int / 8) * 8;
    let y = 7 - (sig.start_bit as int % 8);
    if x + y > u64::MAX {
        None
    } else if x + y + sig.size > u64::MAX {
        None
    } else {
        Some((x + y, x + y + sig.size))
    }
}

/// The checked bit range of a signal within a payload of `len_bytes`
/// bytes: a range that leaves the payload fails.
pub open spec fn spec_raw_range(sig: SignalDefinition, len_bytes: int) -> Option<(int, int)> {
    if len_bytes * 8 > usize::MAX {
        None
    } else {
        let msg_bits = len_bytes * 8;
        let se = match sig.byte_order {
            SignalByteOrder::LittleEndian => spec_le_range(sig),
            SignalByteOrder::BigEndian => spec_be_range(sig),
        };
        match se {
            None => None,
            Some((s, e)) => if s > msg_bits {
                None
            } else if e > msg_bits {
                None
            } else {
                Some((s, e))
            },
        }
    }
}

/// The raw value of a signal in a payload: its bits read in the
/// signal's byte order, as the resolved kind directs. A width of zero,
/// or wider than the kind can hold, fails.
pub open spec fn spec_parse_raw_val(
    sig: SignalDefinition,
    typ: SignalValueType,
    data: Seq<u8>,
) -> Option<RawVal> {
    match spec_raw_range(sig, data.len() as int) {
        None => None,
        Some((s, e)) => {
            let w = e - s;
            let u = match sig.byte_order {
                SignalByteOrder::LittleEndian => le_value(data, s, w),
                SignalByteOrder::BigEndian => be_value(data, s, w),
            };
            match typ {
                SignalValueType::Signed => if 1 <= w <= 64 {
                    Some(RawVal::I64(sign_extend(u, w) as i64))
                } else {
                    None
                },
                SignalValueType::Unsigned => if 1 <= w <= 64 {
                    Some(RawVal::U64(u as u64))
                } else {
                    None
                },
                SignalValueType::F32 => if 1 <= w <= 32 {
                    Some(RawVal::F32Bits(u as u32))
                } else {
                    None
                },
                SignalValueType::F64 => if 1 <= w <= 64 {
                    Some(RawVal::F64Bits(u as u64))
                } else {
                    None
                },
            }
        },
    }
}

/// One signal's decode: the attribute value to emit (or none) and the
/// multiplexor indicator value to cache (or none).
///
/// A multiplexor emits and caches its unsigned raw value; a multiplexor
/// whose raw value is not unsigned is dropped. Otherwise a matching
/// discrete value description wins, then 1-bit signals collapse to
/// booleans, then float-scaled signals defer to IEEE arithmetic, and
/// integer signals are scaled and clamped.
pub open spec fn spec_parse_signal(st: SignalState, sig: SignalDefinition, data: Seq<u8>) -> (
    Option<AttrView>,
    Option<u64>,
) {
    match assoc_get(st.signal_to_type@, sig.name@) {
        None => (None, None),
        Some(typ) => match spec_parse_raw_val(sig, typ, data) {
            None => (None, None),
            Some(raw) => {
                if sig.multiplexer_indicator == MultiplexIndicator::Multiplexor {
                    match raw {
                        RawVal::U64(v) => (Some(AttrView::UInteger(v)), Some(v)),
                        _ => (None, None),
                    }
                } else {
                    let desc = match raw {
                        RawVal::I64(v) => label_get(st.signal_to_values@, sig.name@, v),
                        RawVal::U64(v) => label_get(st.signal_to_values@, sig.name@, v as i64),
                        _ => None,
                    };
                    match desc {
                        Some(lbl) => (Some(AttrView::Text(lbl)), None),
                        None => if sig.size == 1 {
                            (spec_as_bool(raw), None)
                        } else if !sig.factor.integral || !sig.offset.integral || typ
                            == SignalValueType::F32 || typ == SignalValueType::F64 {
                            (
                                Some(
                                    AttrView::Float(
                                        FloatScaling {
                                            raw,
                                            factor_bits: sig.factor.bits,
                                            offset_bits: sig.offset.bits,
                                            min_bits: sig.min.bits,
                                            max_bits: sig.max.bits,
                                        },
                                    ),
                                ),
                                None,
                            )
                        } else {
                            (spec_as_scaled_int(raw, sig.factor, sig.offset, sig.min, sig.max), None)
                        },
                    }
                }
            },
        },
    }
}

pub open spec fn spec_is_muxed(sig: SignalDefinition) -> bool {
    matches!(
        sig.multiplexer_indicator,
        MultiplexIndicator::MultiplexedSignal(_)
            | MultiplexIndicator::MultiplexorAndMultiplexedSignal(_)
    )
}

/// A multiplexed signal is silently skipped when its muxer has already
/// produced a value this frame and that value differs from the
/// signal's gate; a registered gate whose muxer value has not yet been
/// observed does not gate. A multiplexed signal with no registered
/// gate at all (as in a message that uses extended multiplexing) is
/// never emitted.
pub open spec fn spec_gated(
    st: SignalState,
    sig: SignalDefinition,
    mux: Seq<(String, u64)>,
) -> bool {
    spec_is_muxed(sig) && match assoc_get(st.muxed_to_info@, sig.name@) {
        Some(info) => match assoc_get(mux, info.muxer@) {
            Some(mv) => mv != info.indicator,
            None => false,
        },
        None => true,
    }
}

/// One signal's step of the decode loop: gating, decode, cache update,
/// and emission of the value attribute and the optional unit attribute
/// under the normalized signal name.
pub open spec fn spec_signal_step(
    st: SignalState,
    sig: SignalDefinition,
    data: Seq<u8>,
    attrs: Map<Seq<char>, AttrView>,
    mux: Seq<(String, u64)>,
) -> (Map<Seq<char>, AttrView>, Seq<(String, u64)>) {
    if spec_gated(st, sig, mux) {
        (attrs, mux)
    } else {
        let vm = spec_parse_signal(st, sig, data);
        let mux2 = match vm.1 {
            Some(v) => mux.push((sig.name, v)),
            None => mux,
        };
        match vm.0 {
            None => (attrs, mux2),
            Some(v) => {
                let norm = normalized(sig.name@);
                let a1 = if sig.unit@.len() > 0 {
                    attrs.insert(event_key(norm + ".unit"@), AttrView::Text(sig.unit@))
                } else {
                    attrs
                };
                (a1.insert(event_key(norm), v), mux2)
            },
        }
    }
}

/// The decode loop over a message's signals, in declaration order,
/// threading the attribute map and the frame-scoped multiplexor cache.
pub open spec fn spec_signals_fold(
    st: SignalState,
    signals: Seq<SignalDefinition>,
    data: Seq<u8>,
    attrs: Map<Seq<char>, AttrView>,
    mux: Seq<(String, u64)>,
) -> Map<Seq<char>, AttrView>
    decreases signals.len(),
{
    if signals.len() == 0 {
        attrs
    } else {
        let sm = spec_signal_step(st, signals.first(), data, attrs, mux);
        spec_signals_fold(st, signals.drop_first(), data, sm.0, sm.1)
    }
}

/// The whole decode of one frame: frame-level attributes always;
/// message-level attributes and the derived names when the identifier
/// is in the table; signal attributes only when the payload length
/// equals the declared message size. The multiplexor cache starts
/// empty at every frame, so no state leaks between frames.
pub open spec fn spec_decode(use_name: bool, t: Seq<(u32, DbcMessageInfo)>, f: FrameView) -> (
    Option<Seq<char>>,
    Option<Seq<char>>,
    Map<Seq<char>, AttrView>,
) {
    let base = spec_frame_attrs(f);
    match table_get(t, f.id.spec_raw_can_id()) {
        None => (None, None, base),
        Some(info) => {
            let msg_name = if use_name && info.msg.name@.len() > 0 {
                Some(info.msg.name@)
            } else {
                None
            };
            let trans = match info.msg.transmitter {
                Some(n) => Some(n@),
                None => None,
            };
            let m2 = spec_msg_attrs(info.msg, base);
            let attrs = if f.data.len() as int == info.msg.size as int {
                spec_signals_fold(
                    info.signal_state,
                    info.msg.signals@,
                    f.data,
                    m2,
                    Seq::empty(),
                )
            } else {
                m2
            };
            (msg_name, trans, attrs)
        },
    }
}


/// Mirrors `spec_le_range` with checked arithmetic.
fn le_start_end_bit(sig: &SignalDefinition) -> (r: Option<(u64, u64)>)
    ensures
        match r {
            Some((s, e)) => spec_le_range(*sig) == Some((s as int, e as int)),
            None => spec_le_range(*sig) is None,
        },
{
    let start_bit = sig.start_bit;
    match start_bit.checked_add(sig.size) {
        Some(end_bit) => Some((start_bit, end_bit)),
        None => None,
    }
}

/// Mirrors `spec_be_range` with checked arithmetic.
fn be_start_end_bit(sig: &SignalDefinition) -> (r: Option<(u64, u64)>)
    ensures
        match r {
            Some((s, e)) => spec_be_range(*sig) == Some((s as int, e as int)),
            None => spec_be_range(*sig) is None,
        },
{
    let x = (sig.start_bit / 8) * 8;
    let y = 7 - (sig.start_bit % 8);
    let start_bit = match x.checked_add(y) {
        Some(s) => s,
        None => {
            return None;
        },
    };
    let end_bit = match start_bit.checked_add(sig.size) {
        Some(e) => e,
        None => {
            return None;
        },
    };
    Some((start_bit, end_bit))
}

/// The bounds-checked bit range of a signal within a payload of the
/// given byte length.
fn signal_start_end_bit(sig: &SignalDefinition, msg_size_bytes: usize) -> (r: Option<
    (usize, usize),
>)
    ensures
        match r {
            Some((s, e)) => spec_raw_range(*sig, msg_size_bytes as int) == Some(
                (s as int, e as int),
            ) && s <= e <= msg_size_bytes * 8,
            None => spec_raw_range(*sig, msg_size_bytes as int) is None,
        },
{
    let msg_bits = match msg_size_bytes.checked_mul(8) {
        Some(m) => m,
        None => {
            return None;
        },
    };
    let se = match sig.byte_order {
        SignalByteOrder::LittleEndian => le_start_end_bit(sig),
        SignalByteOrder::BigEndian => be_start_end_bit(sig),
    };
    let (bs, be_) = match se {
        Some(x) => x,
        None => {
            return None;
        },
    };
    if bs > msg_bits as u64 {
        return None;
    }
    if be_ > msg_bits as u64 {
        return None;
    }
    Some((bs as usize, be_ as usize))
}

/// Extracts a signal's raw value from the payload: bit range, byte
/// order, and the resolved kind's reading of the bits.
fn parse_raw_val(sig: &SignalDefinition, typ: SignalValueType, data: &[u8]) -> (r: Option<RawVal>)
    ensures
        match r {
            Some(v) => spec_parse_raw_val(*sig, typ, data@) == Some(v),
            None => spec_parse_raw_val(*sig, typ, data@) is None,
        },
{
    let (s, e) = match signal_start_end_bit(sig, data.len()) {
        Some(x) => x,
        None => {
            return None;
        },
    };
    let w = e - s;
    match typ {
        SignalValueType::Signed => {
            if 1 <= w && w <= 64 {
                let u = match sig.byte_order {
                    SignalByteOrder::LittleEndian => {
                        proof {
                            lemma_le_value_bound(data@, s as int, w as int);
                        }
                        extract_le(data, s, w)
                    },
                    SignalByteOrder::BigEndian => {
                        proof {
                            lemma_be_value_bound(data@, s as int, w as int);
                        }
                        extract_be(data, s, w)
                    },
                };
                Some(RawVal::I64(to_signed(u, w)))
            } else {
                None
            }
        },
        SignalValueType::Unsigned => {
            if 1 <= w && w <= 64 {
                let u = match sig.byte_order {
                    SignalByteOrder::LittleEndian => extract_le(data, s, w),
                    SignalByteOrder::BigEndian => extract_be(data, s, w),
                };
                Some(RawVal::U64(u))
            } else {
                None
            }
        },
        SignalValueType::F32 => {
            if 1 <= w && w <= 32 {
                let u = match sig.byte_order {
                    SignalByteOrder::LittleEndian => {
                        proof {
                            lemma_le_value_bound(data@, s as int, w as int);
                        }
                        extract_le(data, s, w)
                    },
                    SignalByteOrder::BigEndian => {
                        proof {
                            lemma_be_value_bound(data@, s as int, w as int);
                        }
                        extract_be(data, s, w)
                    },
                };
                proof {
                    if (w as nat) < 32 {
                        vstd::arithmetic::power2::lemma_pow2_strictly_increases(w as nat, 32);
                    }
                    vstd::arithmetic::power2::lemma2_to64();
                }
                Some(RawVal::F32Bits(u as u32))
            } else {
                None
            }
        },
        SignalValueType::F64 => {
            if 1 <= w && w <= 64 {
                let u = match sig.byte_order {
                    SignalByteOrder::LittleEndian => extract_le(data, s, w),
                    SignalByteOrder::BigEndian => extract_be(data, s, w),
                };
                Some(RawVal::F64Bits(u))
            } else {
                None
            }
        },
    }
}

/// Decodes one signal to an attribute value, caching a multiplexor's
/// indicator value in the frame-scoped cache.
fn parse_signal(
    st: &SignalState,
    sig: &SignalDefinition,
    data: &[u8],
    mux: &mut Vec<(String, u64)>,
) -> (r: Option<AttrValue>)
    ensures
        ({
            let vm = spec_parse_signal(*st, *sig, data@);
            &&& (match r {
                Some(a) => vm.0 == Some(a@),
                None => vm.0 is None,
            })
            &&& final(mux)@ == (match vm.1 {
                Some(x) => old(mux)@.push((sig.name, x)),
                None => old(mux)@,
            })
        }),
{
    let typ = match assoc_find(&st.signal_to_type, &sig.name) {
        Some(t) => *t,
        None => {
            return None;
        },
    };
    let raw = match parse_raw_val(sig, typ, data) {
        Some(v) => v,
        None => {
            return None;
        },
    };
    let is_muxer = matches!(sig.multiplexer_indicator, MultiplexIndicator::Multiplexor);
    if is_muxer {
        match raw {
            RawVal::U64(v) => {
                mux.push((sig.name.clone(), v));
                proof {
                    assert(mux@ =~= old(mux)@.push((sig.name, v)));
                }
                return Some(AttrValue::UInteger(v));
            },
            _ => {
                return None;
            },
        }
    }
    let desc: Option<&String> = match raw {
        RawVal::I64(v) => label_find(&st.signal_to_values, &sig.name, v),
        RawVal::U64(v) => label_find(&st.signal_to_values, &sig.name, v as i64),
        _ => None,
    };
    if let Some(lbl) = desc {
        return Some(AttrValue::Text(lbl.clone()));
    }
    if sig.size == 1 {
        return raw.as_bool();
    }
    let is_float = !sig.factor.integral || !sig.offset.integral || matches!(
        typ,
        SignalValueType::F32 | SignalValueType::F64,
    );
    if is_float {
        return Some(
            AttrValue::Float(
                FloatScaling {
                    raw,
                    factor_bits: sig.factor.bits,
                    offset_bits: sig.offset.bits,
                    min_bits: sig.min.bits,
                    max_bits: sig.max.bits,
                },
            ),
        );
    }
    raw.as_scaled_int(&sig.factor, &sig.offset, &sig.min, &sig.max)
}

impl ParsedCanFrame {
    fn add_attr(&mut self, k: &str, v: AttrValue)
        ensures
            final(self).id == old(self).id,
            final(self).msg_name == old(self).msg_name,
            final(self).transmitter_node == old(self).transmitter_node,
            map_of(final(self).attrs@) == map_of(old(self).attrs@).insert(event_key(k@), v@),
    {
        let key = prefixed("event.", k);
        attrs_insert(&mut self.attrs, key, v);
    }

    fn add_internal_attr(&mut self, k: &str, v: AttrValue)
        ensures
            final(self).id == old(self).id,
            final(self).msg_name == old(self).msg_name,
            final(self).transmitter_node == old(self).transmitter_node,
            map_of(final(self).attrs@) == map_of(old(self).attrs@).insert(internal_key(k@), v@),
    {
        let key = prefixed("event.internal.modality_can.", k);
        attrs_insert(&mut self.attrs, key, v);
    }

    /// The frame-level attributes of a raw frame.
    fn new(frame: &RawFrame) -> (r: ParsedCanFrame)
        ensures
            r.id == frame@.id.spec_raw_can_id(),
            r.msg_name is None,
            r.transmitter_node is None,
            map_of(r.attrs@) == spec_frame_attrs(frame@),
    {
        let mut pcf = ParsedCanFrame {
            id: frame.id.raw_can_id(),
            msg_name: None,
            transmitter_node: None,
            attrs: Vec::new(),
        };
        proof {
            assert(map_of(pcf.attrs@) =~= Map::<Seq<char>, AttrView>::empty());
        }
        pcf.add_attr("frame.id", AttrValue::UInteger(frame.id.raw_can_id() as u64));
        pcf.add_attr("frame.dlc", AttrValue::UInteger(frame.dlc as u64));
        if frame.id.is_extended() {
            pcf.add_attr("frame.extended", AttrValue::Boolean(true));
        }
        if frame.remote {
            pcf.add_attr("frame.remote", AttrValue::Boolean(true));
        }
        if frame.error {
            pcf.add_attr("frame.error", AttrValue::Boolean(true));
        }
        if frame.brs {
            pcf.add_attr("frame.brs", AttrValue::Boolean(true));
        }
        if frame.esi {
            pcf.add_attr("frame.esi", AttrValue::Boolean(true));
        }
        pcf
    }

    /// The message-level attributes, and the transmitter identity when
    /// the message declares a transmitting node.
    fn add_dbc_msg_attrs(&mut self, msg: &MessageDefinition)
        ensures
            final(self).id == old(self).id,
            final(self).msg_name == old(self).msg_name,
            map_of(final(self).attrs@) == spec_msg_attrs(*msg, map_of(old(self).attrs@)),
            final(self).transmitter_node == (if msg.transmitter is Some {
                msg.transmitter
            } else {
                old(self).transmitter_node
            }),
    {
        self.add_internal_attr(
            "message.signal.count",
            AttrValue::UInteger(msg.signals.len() as u64),
        );
        self.add_attr("message.size", AttrValue::UInteger(msg.size));
        self.add_attr("message.name", AttrValue::Text(msg.name.clone()));
        if let Some(node) = &msg.transmitter {
            self.add_attr("message.trasmitter", AttrValue::Text(node.clone()));
            self.transmitter_node = Some(node.clone());
        }
    }

    /// Decodes one signal and emits its attribute (and unit attribute)
    /// under the normalized signal name, honoring multiplex gating.
    fn add_dbc_signal_attrs(
        &mut self,
        st: &SignalState,
        sig: &SignalDefinition,
        data: &[u8],
        mux: &mut Vec<(String, u64)>,
    )
        ensures
            final(self).id == old(self).id,
            final(self).msg_name == old(self).msg_name,
            final(self).transmitter_node == old(self).transmitter_node,
            ({
                let am = spec_signal_step(*st, *sig, data@, map_of(old(self).attrs@), old(mux)@);
                map_of(final(self).attrs@) == am.0 && final(mux)@ == am.1
            }),
    {
        let is_muxed = matches!(
            sig.multiplexer_indicator,
            MultiplexIndicator::MultiplexedSignal(_)
                | MultiplexIndicator::MultiplexorAndMultiplexedSignal(_)
        );
        if is_muxed {
            match assoc_find(&st.muxed_to_info, &sig.name) {
                Some(info) => {
                    let gate = assoc_find(mux, &info.muxer);
                    if let Some(mv) = gate {
                        if *mv != info.indicator {
                            return ;
                        }
                    }
                },
                None => {
                    return ;
                },
            }
        }
        match parse_signal(st, sig, data, mux) {
            Some(val) => {
                let norm = normalize_name(sig.name.as_str());
                if sig.unit.as_str().is_empty() {
                } else {
                    let mut uk = norm.clone();
                    uk.append(".unit");
                    self.add_attr(uk.as_str(), AttrValue::Text(sig.unit.clone()));
                }
                self.add_attr(norm.as_str(), val);
            },
            None => {},
        }
    }

    /// The decoded frame's event name: the resolved message name, else
    /// the numeric identifier rendered in decimal.
    pub fn event_name(&self) -> (r: String)
        ensures
            match self.msg_name {
                Some(m) => r@ == m@,
                None => r@ == dec_str(self.id as int),
            },
    {
        match &self.msg_name {
            Some(m) => m.clone(),
            None => u32_dec_string(self.id),
        }
    }

    /// Looks one attribute up by its full key.
    pub fn attr(&self, key: &str) -> (r: Option<&AttrValue>)
        ensures
            match r {
                Some(v) => map_of(self.attrs@).contains_key(key@) && v@ == map_of(
                    self.attrs@,
                )[key@],
                None => !map_of(self.attrs@).contains_key(key@),
            },
    {
        let k = key.to_owned();
        attrs_get(&self.attrs, &k)
    }
}

impl CanParser {
    /// Decodes one raw frame, best-effort: the result is a pure
    /// function of the signal table and the frame, so decoding the
    /// same frame twice, on this or any equally built decoder, yields
    /// the same result. The multiplexor cache lives only inside this
    /// call.
    pub fn parse(&self, frame: &RawFrame) -> (r: ParsedCanFrame)
        ensures
            ({
                let d = spec_decode(self.use_msg_as_event_name, self.id_to_msg_info@, frame@);
                &&& (match r.msg_name {
                    Some(s) => d.0 == Some(s@),
                    None => d.0 is None,
                })
                &&& (match r.transmitter_node {
                    Some(s) => d.1 == Some(s@),
                    None => d.1 is None,
                })
                &&& map_of(r.attrs@) == d.2
                &&& r.id == frame@.id.spec_raw_can_id()
            }),
    {
        let mut pcf = ParsedCanFrame::new(frame);
        if let Some(info) = table_find(&self.id_to_msg_info, pcf.id) {
            if self.use_msg_as_event_name {
                if !info.msg.name.as_str().is_empty() {
                    pcf.msg_name = Some(info.msg.name.clone());
                }
            }
            pcf.add_dbc_msg_attrs(&info.msg);
            if (frame.data.len() as u64) == info.msg.size {
                let mut mux: Vec<(String, u64)> = Vec::new();
                let mut si: usize = 0;
                let ghost m2 = map_of(pcf.attrs@);
                let ghost gname = pcf.msg_name;
                let ghost gtrans = pcf.transmitter_node;
                let ghost gid = pcf.id;
                proof {
                    assert(info.msg.signals@.skip(0) =~= info.msg.signals@);
                    assert(mux@ =~= Seq::<(String, u64)>::empty());
                }
                while si < info.msg.signals.len()
                    invariant
                        si <= info.msg.signals@.len(),
                        pcf.id == gid,
                        pcf.msg_name == gname,
                        pcf.transmitter_node == gtrans,
                        spec_signals_fold(
                            info.signal_state,
                            info.msg.signals@.skip(si as int),
                            frame@.data,
                            map_of(pcf.attrs@),
                            mux@,
                        ) == spec_signals_fold(
                            info.signal_state,
                            info.msg.signals@,
                            frame@.data,
                            m2,
                            Seq::empty(),
                        ),
                    decreases info.msg.signals@.len() - si,
                {
                    proof {
                        assert(info.msg.signals@.skip(si as int).first() == info.msg.signals@[
                            si as int
                        ]);
                        assert(info.msg.signals@.skip(si as int).drop_first()
                            =~= info.msg.signals@.skip(si + 1));
                    }
                    pcf.add_dbc_signal_attrs(
                        &info.signal_state,
                        &info.msg.signals[si],
                        frame.data.as_slice(),
                        &mut mux,
                    );
                    si = si + 1;
                }
                proof {
                    assert(info.msg.signals@.skip(info.msg.signals@.len() as int) =~= Seq::<
                        SignalDefinition,
                    >::empty());
                }
            }
        }
        pcf
    }
}


proof fn lemma_table_get_last(t: Seq<(u32, DbcMessageInfo)>, j: int, id: u32)
    requires
        0 <= j < t.len(),
        t[j].0 == id,
        forall|k: int| j < k < t.len() ==> (#[trigger] t[k]).0 != id,
    ensures
        table_get(t, id) == Some(t[j].1),
    decreases t.len(),
{
    if j == t.len() - 1 {
    } else {
        assert(t[t.len() - 1].0 != id);
        lemma_table_get_last(t.drop_last(), j, id);
        assert(t.drop_last()[j] == t[j]);
    }
}

/// Duplicate message identifiers in the DBC: the signal table resolves
/// an identifier to the message declared last with it, so the
/// later-declared message's signal set is what gets decoded for that
/// identifier.
pub proof fn lemma_duplicate_id_last_wins(model: DbcModel, t: Seq<(u32, DbcMessageInfo)>, j: int)
    requires
        table_matches(model, t),
        0 <= j < model.messages@.len(),
        forall|k: int|
            j < k < model.messages@.len() ==> (#[trigger] model.messages@[k]).id.spec_raw_can_id()
                != model.messages@[j].id.spec_raw_can_id(),
    ensures
        table_get(t, model.messages@[j].id.spec_raw_can_id()) == Some(t[j].1),
        t[j].1.msg == model.messages@[j],
{
    let id = model.messages@[j].id.spec_raw_can_id();
    assert(table_entry_matches(
        model.messages@[j],
        model.extended_value_types@,
        model.value_descriptions@,
        model.extended_multiplex_ids@,
        t[j],
    ));
    assert forall|k: int| j < k < t.len() implies (#[trigger] t[k]).0 != id by {
        assert(table_entry_matches(
            model.messages@[k],
            model.extended_value_types@,
            model.value_descriptions@,
            model.extended_multiplex_ids@,
            t[k],
        ));
    }
    lemma_table_get_last(t, j, id);
}

proof fn lemma_prefix_injective(p: Seq<char>, x: Seq<char>, y: Seq<char>)
    requires
        x != y,
    ensures
        p + x != p + y,
{
    if p + x == p + y {
        assert((p + x).len() == p.len() + x.len());
        assert((p + y).len() == p.len() + y.len());
        assert forall|i: int| 0 <= i < x.len() implies x[i] == y[i] by {
            assert((p + x)[p.len() + i] == x[i]);
            assert((p + y)[p.len() + i] == y[i]);
        }
        assert(x =~= y);
    }
}

proof fn lemma_event_key_injective(x: Seq<char>, y: Seq<char>)
    requires
        x != y,
    ensures
        event_key(x) != event_key(y),
{
    lemma_prefix_injective("event."@, x, y);
}

/// Multiplex gating: in a message whose first signal is an unsigned
/// multiplexor and whose other two signals are gated on indicator
/// values 0 and 1, a frame whose multiplexor decodes to 1 emits the
/// signal gated on 1 and never the signal gated on 0.
pub proof fn lemma_mux_gating(
    st: SignalState,
    m: SignalDefinition,
    a: SignalDefinition,
    b: SignalDefinition,
    data: Seq<u8>,
    attrs0: Map<Seq<char>, AttrView>,
)
    requires
        m.multiplexer_indicator == MultiplexIndicator::Multiplexor,
        a.multiplexer_indicator == MultiplexIndicator::MultiplexedSignal(0),
        b.multiplexer_indicator == MultiplexIndicator::MultiplexedSignal(1),
        assoc_get(st.signal_to_type@, m.name@) == Some(SignalValueType::Unsigned),
        spec_parse_raw_val(m, SignalValueType::Unsigned, data) == Some(RawVal::U64(1u64)),
        ({
            let ia = assoc_get(st.muxed_to_info@, a.name@);
            ia matches Some(i) && i.muxer@ == m.name@ && i.indicator == 0
        }),
        ({
            let ib = assoc_get(st.muxed_to_info@, b.name@);
            ib matches Some(i) && i.muxer@ == m.name@ && i.indicator == 1
        }),
        spec_parse_signal(st, b, data).0 is Some,
        m.unit@.len() == 0,
        b.unit@.len() == 0,
        !attrs0.contains_key(event_key(normalized(a.name@))),
        normalized(a.name@) != normalized(m.name@),
        normalized(a.name@) != normalized(b.name@),
    ensures
        ({
            let fin = spec_signals_fold(st, seq![m, a, b], data, attrs0, Seq::empty());
            &&& fin.contains_key(event_key(normalized(b.name@)))
            &&& fin[event_key(normalized(b.name@))] == spec_parse_signal(st, b, data).0->0
            &&& !fin.contains_key(event_key(normalized(a.name@)))
        }),
{
    let s0: Seq<SignalDefinition> = seq![m, a, b];
    let mux0: Seq<(String, u64)> = Seq::empty();
    assert(s0.first() == m);
    assert(s0.drop_first() =~= seq![a, b]);
    assert(!spec_is_muxed(m));
    assert(spec_parse_signal(st, m, data) == (
        Some(AttrView::UInteger(1u64)),
        Some(1u64),
    ));
    let mux1 = mux0.push((m.name, 1u64));
    let attrs1 = attrs0.insert(event_key(normalized(m.name@)), AttrView::UInteger(1u64));
    assert(spec_signal_step(st, m, data, attrs0, mux0) == (attrs1, mux1));

    let s1: Seq<SignalDefinition> = seq![a, b];
    assert(s1.first() == a);
    assert(s1.drop_first() =~= seq![b]);
    assert(assoc_get(mux1, m.name@) == Some(1u64));
    assert(spec_gated(st, a, mux1));
    assert(spec_signal_step(st, a, data, attrs1, mux1) == (attrs1, mux1));

    let s2: Seq<SignalDefinition> = seq![b];
    assert(s2.first() == b);
    assert(s2.drop_first() =~= Seq::<SignalDefinition>::empty());
    assert(!spec_gated(st, b, mux1));
    let vb = spec_parse_signal(st, b, data);
    assert(vb.1 is None);
    let attrs2 = attrs1.insert(event_key(normalized(b.name@)), vb.0->0);
    assert(spec_signal_step(st, b, data, attrs1, mux1) == (attrs2, mux1));

    assert(spec_signals_fold(st, s0, data, attrs0, mux0) == spec_signals_fold(
        st,
        s1,
        data,
        attrs1,
        mux1,
    ));
    assert(spec_signals_fold(st, s1, data, attrs1, mux1) == spec_signals_fold(
        st,
        s2,
        data,
        attrs1,
        mux1,
    ));
    assert(spec_signals_fold(st, s2, data, attrs1, mux1) == spec_signals_fold(
        st,
        Seq::<SignalDefinition>::empty(),
        data,
        attrs2,
        mux1,
    ));
    assert(spec_signals_fold(st, s0, data, attrs0, mux0) == attrs2);

    lemma_event_key_injective(normalized(a.name@), normalized(m.name@));
    lemma_event_key_injective(normalized(a.name@), normalized(b.name@));
}

/// Multiplex gating at the decode entry point: when a frame's
/// identifier resolves to a message whose first signal is an unsigned
/// 2-bit-style multiplexor followed by two signals gated on indicator
/// values 0 and 1, the payload length matches the declared size, and
/// the multiplexor's raw value decodes to 1, the decoded frame holds
/// the attribute of the signal gated on 1 and not the attribute of the
/// signal gated on 0: exactly one of the two, never both, never
/// neither. The side conditions ask only that the three signals'
/// normalized names differ and that the skipped signal's key is not
/// already taken by a frame- or message-level attribute.
pub proof fn lemma_mux_gating_decode(
    use_name: bool,
    t: Seq<(u32, DbcMessageInfo)>,
    f: FrameView,
    info: DbcMessageInfo,
    m: SignalDefinition,
    a: SignalDefinition,
    b: SignalDefinition,
)
    requires
        table_get(t, f.id.spec_raw_can_id()) == Some(info),
        info.msg.signals@ == seq![m, a, b],
        f.data.len() as int == info.msg.size as int,
        m.multiplexer_indicator == MultiplexIndicator::Multiplexor,
        a.multiplexer_indicator == MultiplexIndicator::MultiplexedSignal(0),
        b.multiplexer_indicator == MultiplexIndicator::MultiplexedSignal(1),
        assoc_get(info.signal_state.signal_to_type@, m.name@) == Some(SignalValueType::Unsigned),
        spec_parse_raw_val(m, SignalValueType::Unsigned, f.data) == Some(RawVal::U64(1u64)),
        ({
            let ia = assoc_get(info.signal_state.muxed_to_info@, a.name@);
            ia matches Some(i) && i.muxer@ == m.name@ && i.indicator == 0
        }),
        ({
            let ib = assoc_get(info.signal_state.muxed_to_info@, b.name@);
            ib matches Some(i) && i.muxer@ == m.name@ && i.indicator == 1
        }),
        spec_parse_signal(info.signal_state, b, f.data).0 is Some,
        m.unit@.len() == 0,
        b.unit@.len() == 0,
        !spec_msg_attrs(info.msg, spec_frame_attrs(f)).contains_key(
            event_key(normalized(a.name@)),
        ),
        normalized(a.name@) != normalized(m.name@),
        normalized(a.name@) != normalized(b.name@),
    ensures
        ({
            let d = spec_decode(use_name, t, f);
            &&& d.2.contains_key(event_key(normalized(b.name@)))
            &&& d.2[event_key(normalized(b.name@))] == spec_parse_signal(
                info.signal_state,
                b,
                f.data,
            ).0->0
            &&& !d.2.contains_key(event_key(normalized(a.name@)))
        }),
{
    let m2 = spec_msg_attrs(info.msg, spec_frame_attrs(f));
    lemma_mux_gating(info.signal_state, m, a, b, f.data, m2);
    assert(spec_decode(use_name, t, f).2 == spec_signals_fold(
        info.signal_state,
        info.msg.signals@,
        f.data,
        m2,
        Seq::empty(),
    ));
}

} // verus!

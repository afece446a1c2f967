//! Timeline identity of decoded frames: which timeline a frame belongs
//! to, and the timeline-level attributes derived from the DBC.

use vstd::prelude::*;

use crate::dbc::Dbc;
use crate::parser::ParsedCanFrame;
use crate::value::{AttrValue, AttrView};
use crate::CommonConfig;

verus! {

/// The identity of the timeline a decoded frame belongs to.
pub struct TimelineKey {
    pub node_name: Option<String>,
    pub default_name: Option<String>,
}

/// The view of a timeline attribute list: key and value as sequences.
pub open spec fn attr_pairs(s: Seq<(&'static str, AttrValue)>) -> Seq<(Seq<char>, AttrView)> {
    s.map_values(|p: (&'static str, AttrValue)| (p.0@, p.1@))
}

/// The DBC identity attributes: version when non-empty, file name when
/// known, and always the content hash.
pub open spec fn spec_dbc_attrs(d: Dbc) -> Seq<(Seq<char>, AttrView)> {
    let v: Seq<(Seq<char>, AttrView)> = if d.model.version@.len() > 0 {
        seq![("timeline.dbc.version"@, AttrView::Text(d.model.version@))]
    } else {
        Seq::empty()
    };
    let v2: Seq<(Seq<char>, AttrView)> = match d.file_name {
        Some(f) => v.push(("timeline.dbc.file_name"@, AttrView::Text(f@))),
        None => v,
    };
    v2.push(("timeline.dbc.sha256"@, AttrView::Text(d.sha256@)))
}

/// The timeline attributes of a key: the transmitter node when known,
/// then the DBC identity when a DBC is loaded.
pub open spec fn spec_timeline_attrs(key: TimelineKey, dbc: Option<Dbc>) -> Seq<
    (Seq<char>, AttrView),
> {
    let base: Seq<(Seq<char>, AttrView)> = match key.node_name {
        Some(n) => seq![("timeline.transmitter"@, AttrView::Text(n@))],
        None => Seq::empty(),
    };
    match dbc {
        Some(d) => base + spec_dbc_attrs(d),
        None => base,
    }
}

fn gather_dbc_attrs(dbc: &Dbc, attrs: &mut Vec<(&'static str, AttrValue)>)
    ensures
        attr_pairs(final(attrs)@) == attr_pairs(old(attrs)@) + spec_dbc_attrs(*dbc),
{
    let ghost a0 = attrs@;
    if !dbc.model.version.as_str().is_empty() {
        attrs.push(("timeline.dbc.version", AttrValue::Text(dbc.model.version.clone())));
    }
    if let Some(file_name) = &dbc.file_name {
        attrs.push(("timeline.dbc.file_name", AttrValue::Text(file_name.clone())));
    }
    attrs.push(("timeline.dbc.sha256", AttrValue::Text(dbc.sha256.clone())));
    proof {
        assert(attr_pairs(attrs@) =~= attr_pairs(a0) + spec_dbc_attrs(*dbc));
    }
}

impl TimelineKey {
    /// The timeline key of a decoded frame: the transmitter node when
    /// the configuration takes timeline identity from the node
    /// (default true), and the configured default timeline name.
    pub fn for_parsed_frame(pcf: &ParsedCanFrame, config: &CommonConfig) -> (r: TimelineKey)
        ensures
            r.node_name == (if (match config.timeline_from_node {
                Some(b) => b,
                None => true,
            }) {
                pcf.transmitter_node
            } else {
                Option::<String>::None
            }),
            r.default_name == config.default_timeline,
    {
        let take_node = match &config.timeline_from_node {
            Some(b) => *b,
            None => true,
        };
        let node_name = if take_node {
            match &pcf.transmitter_node {
                Some(n) => Some(n.clone()),
                None => None,
            }
        } else {
            None
        };
        let default_name = match &config.default_timeline {
            Some(n) => Some(n.clone()),
            None => None,
        };
        TimelineKey { node_name, default_name }
    }

    /// The timeline name: the transmitting node's name, else the
    /// configured default, else "canbus".
    pub fn timeline_name(&self) -> (r: &str)
        ensures
            r@ == (match self.node_name {
                Some(n) => n@,
                None => match self.default_name {
                    Some(d) => d@,
                    None => "canbus"@,
                },
            }),
    {
        match &self.node_name {
            Some(n) => n.as_str(),
            None => match &self.default_name {
                Some(d) => d.as_str(),
                None => "canbus",
            },
        }
    }

    /// The timeline-level attributes of this key.
    pub fn timeline_attrs(&self, dbc: &Option<Dbc>) -> (r: Vec<(&'static str, AttrValue)>)
        ensures
            attr_pairs(r@) == spec_timeline_attrs(*self, *dbc),
    {
        let mut attrs: Vec<(&'static str, AttrValue)> = Vec::new();
        proof {
            assert(attr_pairs(attrs@) =~= Seq::<(Seq<char>, AttrView)>::empty());
        }
        if let Some(node) = &self.node_name {
            attrs.push(("timeline.transmitter", AttrValue::Text(node.clone())));
        }
        let ghost base = attrs@;
        proof {
            assert(attr_pairs(base) =~= (match self.node_name {
                Some(n) => seq![("timeline.transmitter"@, AttrView::Text(n@))],
                None => Seq::<(Seq<char>, AttrView)>::empty(),
            }));
        }
        if let Some(d) = dbc {
            gather_dbc_attrs(d, &mut attrs);
        }
        proof {
            assert(attr_pairs(attrs@) =~= spec_timeline_attrs(*self, *dbc));
        }
        attrs
    }
}

} // verus!

//! Value interpretation: turning an extracted raw bit pattern into a
//! typed attribute value.
//!
//! Integer scaling is done here, overflow-checked. Float patterns and
//! float scaling parameters are carried as IEEE-754 bit patterns and
//! plain integer projections; the final float arithmetic belongs to the
//! embedding, outside this library.

use vstd::prelude::*;

verus! {

/// A raw bit pattern extracted for one signal, tagged with how it is to
/// be read. Float patterns are carried as bits.
#[derive(Clone, Copy, PartialEq, Eq, Structural, Debug)]
pub enum RawVal {
    I64(i64),
    U64(u64),
    F32Bits(u32),
    F64Bits(u64),
}

/// One scaling parameter (factor, offset, minimum or maximum) as the
/// DBC declares it. The declared number is an IEEE double; this library
/// carries its bit pattern together with its two integer truncations
/// and an integrality flag, which is all the integer scaling path
/// reads. The embedding derives the three integer fields from the
/// declared value when it converts the DBC model.
#[derive(Clone, Copy, PartialEq, Eq, Structural, Debug)]
pub struct ScaleValue {
    /// IEEE-754 bit pattern of the declared value.
    pub bits: u64,
    /// The declared value truncated (saturating `as` cast) to `i64`.
    pub as_signed: i64,
    /// The declared value truncated (saturating `as` cast) to `u64`.
    pub as_unsigned: u64,
    /// Whether the declared value has a zero fractional part.
    pub integral: bool,
}

/// A float-scaled attribute: everything the embedding needs to finish
/// `clamp(raw * factor + offset)` in IEEE double arithmetic, with a
/// minimum and maximum both exactly zero meaning "unclamped".
#[derive(Clone, Copy, PartialEq, Eq, Structural, Debug)]
pub struct FloatScaling {
    pub raw: RawVal,
    pub factor_bits: u64,
    pub offset_bits: u64,
    pub min_bits: u64,
    pub max_bits: u64,
}

/// A decoded attribute value: a 64-bit integer, a boolean, a string, or
/// a deferred float scaling.
#[derive(Clone, PartialEq, Debug)]
pub enum AttrValue {
    Integer(i64),
    UInteger(u64),
    Boolean(bool),
    Text(String),
    Float(FloatScaling),
}

/// Mathematical view of an attribute value; text is a character
/// sequence.
pub ghost enum AttrView {
    Integer(i64),
    UInteger(u64),
    Boolean(bool),
    Text(Seq<char>),
    Float(FloatScaling),
}

impl View for AttrValue {
    type V = AttrView;

    open spec fn view(&self) -> AttrView {
        match self {
            AttrValue::Integer(v) => AttrView::Integer(*v),
            AttrValue::UInteger(v) => AttrView::UInteger(*v),
            AttrValue::Boolean(v) => AttrView::Boolean(*v),
            AttrValue::Text(s) => AttrView::Text(s@),
            AttrValue::Float(f) => AttrView::Float(*f),
        }
    }
}

/// Boolean collapse of a raw value: nonzero means true; float patterns
/// do not collapse.
pub open spec fn spec_as_bool(raw: RawVal) -> Option<AttrView> {
    match raw {
        RawVal::I64(v) => Some(AttrView::Boolean(v != 0)),
        RawVal::U64(v) => Some(AttrView::Boolean(v != 0)),
        _ => None,
    }
}

/// Signed integer scaling: `raw * factor + offset`, overflow-checked;
/// overflow drops the attribute. A minimum and maximum both zero mean
/// "unclamped"; a reversed range also drops the attribute, since a
/// clamp into it is meaningless.
pub open spec fn spec_scaled_i64(v: i64, s: i64, o: i64, mn: i64, mx: i64) -> Option<AttrView> {
    if v * s < i64::MIN || v * s > i64::MAX {
        None
    } else if v * s + o < i64::MIN || v * s + o > i64::MAX {
        None
    } else {
        let n = v * s + o;
        if mn == 0 && mx == 0 {
            Some(AttrView::Integer(n as i64))
        } else if mn > mx {
            None
        } else if n < mn {
            Some(AttrView::Integer(mn))
        } else if n > mx {
            Some(AttrView::Integer(mx))
        } else {
            Some(AttrView::Integer(n as i64))
        }
    }
}

/// Unsigned integer scaling, as the signed case.
pub open spec fn spec_scaled_u64(v: u64, s: u64, o: u64, mn: u64, mx: u64) -> Option<AttrView> {
    if v * s > u64::MAX {
        None
    } else if v * s + o > u64::MAX {
        None
    } else {
        let n = v * s + o;
        if mn == 0 && mx == 0 {
            Some(AttrView::UInteger(n as u64))
        } else if mn > mx {
            None
        } else if n < mn {
            Some(AttrView::UInteger(mn))
        } else if n > mx {
            Some(AttrView::UInteger(mx))
        } else {
            Some(AttrView::UInteger(n as u64))
        }
    }
}

/// Integer scaling of a raw value: the scaling parameters are truncated
/// to the signal's integer kind before the checked arithmetic; float
/// patterns are not integer-scaled.
pub open spec fn spec_as_scaled_int(
    raw: RawVal,
    factor: ScaleValue,
    offset: ScaleValue,
    min: ScaleValue,
    max: ScaleValue,
) -> Option<AttrView> {
    match raw {
        RawVal::I64(v) => spec_scaled_i64(
            v,
            factor.as_signed,
            offset.as_signed,
            min.as_signed,
            max.as_signed,
        ),
        RawVal::U64(v) => spec_scaled_u64(
            v,
            factor.as_unsigned,
            offset.as_unsigned,
            min.as_unsigned,
            max.as_unsigned,
        ),
        _ => None,
    }
}

impl RawVal {
    /// Collapses a 1-bit raw value to a boolean attribute.
    pub fn as_bool(&self) -> (r: Option<AttrValue>)
        ensures
            match r {
                Some(v) => spec_as_bool(*self) == Some(v@),
                None => spec_as_bool(*self) is None,
            },
    {
        match self {
            RawVal::I64(v) => Some(AttrValue::Boolean(*v != 0)),
            RawVal::U64(v) => Some(AttrValue::Boolean(*v != 0)),
            _ => None,
        }
    }

    /// Scales an integer raw value with overflow checks and range
    /// clamping.
    pub fn as_scaled_int(
        &self,
        factor: &ScaleValue,
        offset: &ScaleValue,
        min: &ScaleValue,
        max: &ScaleValue,
    ) -> (r: Option<AttrValue>)
        ensures
            match r {
                Some(v) => spec_as_scaled_int(*self, *factor, *offset, *min, *max) == Some(v@),
                None => spec_as_scaled_int(*self, *factor, *offset, *min, *max) is None,
            },
    {
        match self {
            RawVal::I64(v) => {
                let s = factor.as_signed;
                let o = offset.as_signed;
                let mn = min.as_signed;
                let mx = max.as_signed;
                let n = match v.checked_mul(s) {
                    Some(p) => match p.checked_add(o) {
                        Some(n) => n,
                        None => {
                            return None;
                        },
                    },
                    None => {
                        return None;
                    },
                };
                if mn == 0 && mx == 0 {
                    Some(AttrValue::Integer(n))
                } else if mn > mx {
                    None
                } else if n < mn {
                    Some(AttrValue::Integer(mn))
                } else if n > mx {
                    Some(AttrValue::Integer(mx))
                } else {
                    Some(AttrValue::Integer(n))
                }
            },
            RawVal::U64(v) => {
                let s = factor.as_unsigned;
                let o = offset.as_unsigned;
                let mn = min.as_unsigned;
                let mx = max.as_unsigned;
                let n = match v.checked_mul(s) {
                    Some(p) => match p.checked_add(o) {
                        Some(n) => n,
                        None => {
                            return None;
                        },
                    },
                    None => {
                        return None;
                    },
                };
                if mn == 0 && mx == 0 {
                    Some(AttrValue::UInteger(n))
                } else if mn > mx {
                    None
                } else if n < mn {
                    Some(AttrValue::UInteger(mn))
                } else if n > mx {
                    Some(AttrValue::UInteger(mx))
                } else {
                    Some(AttrValue::UInteger(n))
                }
            },
            _ => None,
        }
    }
}


/// Overflow safety, signed: when the multiplication or the following
/// addition leaves the 64-bit signed range, the attribute is dropped,
/// never wrapped.
pub proof fn lemma_overflow_drops_signed(
    v: i64,
    factor: ScaleValue,
    offset: ScaleValue,
    min: ScaleValue,
    max: ScaleValue,
)
    requires
        v * factor.as_signed > i64::MAX || v * factor.as_signed < i64::MIN || v * factor.as_signed
            + offset.as_signed > i64::MAX || v * factor.as_signed + offset.as_signed < i64::MIN,
    ensures
        spec_as_scaled_int(RawVal::I64(v), factor, offset, min, max) is None,
{
}

/// Overflow safety, unsigned: as the signed case.
pub proof fn lemma_overflow_drops_unsigned(
    v: u64,
    factor: ScaleValue,
    offset: ScaleValue,
    min: ScaleValue,
    max: ScaleValue,
)
    requires
        v * factor.as_unsigned > u64::MAX || v * factor.as_unsigned + offset.as_unsigned
            > u64::MAX,
    ensures
        spec_as_scaled_int(RawVal::U64(v), factor, offset, min, max) is None,
{
}

} // verus!

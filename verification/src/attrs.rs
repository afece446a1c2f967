//! The attribute map of a decoded frame, and the small string
//! operations the decoder needs: key prefixing, signal-name
//! normalization and decimal rendering.

use vstd::prelude::*;
use vstd::std_specs::iter::IteratorSpec;
use vstd::string::StringExecFns;

use crate::value::{AttrValue, AttrView};

verus! {

broadcast use vstd::string::axiom_spec_iter, vstd::string::next_postcondition;

/// View of an attribute list as a map from key to value; a later entry
/// for the same key overrides an earlier one.
pub open spec fn map_of(s: Seq<(String, AttrValue)>) -> Map<Seq<char>, AttrView>
    decreases s.len(),
{
    if s.len() == 0 {
        Map::empty()
    } else {
        map_of(s.drop_last()).insert(s.last().0@, s.last().1@)
    }
}

/// Appends a key-value pair; in the map view this is an insertion.
pub fn attrs_insert(attrs: &mut Vec<(String, AttrValue)>, key: String, value: AttrValue)
    ensures
        map_of(final(attrs)@) == map_of(old(attrs)@).insert(key@, value@),
{
    let ghost gkey = key@;
    let ghost gval = value@;
    attrs.push((key, value));
    proof {
        assert(attrs@.drop_last() =~= old(attrs)@);
        assert(attrs@.last().0@ == gkey);
        assert(attrs@.last().1@ == gval);
    }
}

/// Looks a key up in an attribute list; the last entry for the key
/// wins, as the map view says.
pub fn attrs_get<'a>(attrs: &'a Vec<(String, AttrValue)>, key: &String) -> (r: Option<
    &'a AttrValue,
>)
    ensures
        match r {
            Some(v) => map_of(attrs@).contains_key(key@) && v@ == map_of(attrs@)[key@],
            None => !map_of(attrs@).contains_key(key@),
        },
{
    let mut i = attrs.len();
    proof {
        assert(attrs@.take(attrs@.len() as int) =~= attrs@);
    }
    while i > 0
        invariant
            i <= attrs.len(),
            map_of(attrs@).contains_key(key@) == map_of(attrs@.take(i as int)).contains_key(
                key@,
            ),
            map_of(attrs@).contains_key(key@) ==> map_of(attrs@)[key@] == map_of(
                attrs@.take(i as int),
            )[key@],
        decreases i,
    {
        i = i - 1;
        proof {
            assert(attrs@.take(i + 1).drop_last() =~= attrs@.take(i as int));
            assert(attrs@.take(i + 1).last() == attrs@[i as int]);
        }
        if attrs[i].0.eq(key) {
            return Some(&attrs[i].1);
        }
    }
    proof {
        assert(attrs@.take(0) =~= Seq::<(String, AttrValue)>::empty());
    }
    None
}

/// Relies on String::push: appends the given character to the end of
/// the string.
#[verifier::external_body]
pub(crate) fn push_char(s: &mut String, c: char)
    ensures
        final(s)@ == old(s)@.push(c),
{
    s.push(c);
}

/// Concatenation of a fixed prefix and a key.
pub fn prefixed(prefix: &str, k: &str) -> (r: String)
    ensures
        r@ == prefix@ + k@,
{
    let mut s = prefix.to_owned();
    s.append(k);
    s
}

/// A signal name with every space replaced by an underscore.
pub open spec fn normalized(s: Seq<char>) -> Seq<char> {
    s.map_values(
        |c: char|
            if c == ' ' {
                '_'
            } else {
                c
            },
    )
}

/// Replaces spaces in a signal name with underscores.
pub fn normalize_name(name: &str) -> (r: String)
    ensures
        r@ == normalized(name@),
{
    let mut out = String::new();
    let mut it = name.chars();
    let ghost mut done: Seq<char> = Seq::empty();
    proof {
        assert(out@ =~= normalized(done));
        assert(it.remaining() == name@);
        assert(done + it.remaining() =~= name@);
    }
    loop
        invariant
            done + it.remaining() == name@,
            done.len() <= name@.len(),
            out@ == normalized(done),
        ensures
            out@ == normalized(name@),
        decreases name@.len() - done.len(),
    {
        match it.next() {
            Some(c) => {
                let rep = if c == ' ' {
                    '_'
                } else {
                    c
                };
                push_char(&mut out, rep);
                proof {
                    done = done.push(c);
                    assert(out@ =~= normalized(done));
                    assert(done + it.remaining() =~= name@);
                }
            },
            None => {
                proof {
                    assert(done + it.remaining() =~= done);
                    assert(done =~= name@);
                }
                break ;
            },
        }
    }
    out
}

/// The decimal digit characters.
pub open spec fn digit_char(d: int) -> char {
    if d == 0 {
        '0'
    } else if d == 1 {
        '1'
    } else if d == 2 {
        '2'
    } else if d == 3 {
        '3'
    } else if d == 4 {
        '4'
    } else if d == 5 {
        '5'
    } else if d == 6 {
        '6'
    } else if d == 7 {
        '7'
    } else if d == 8 {
        '8'
    } else {
        '9'
    }
}

/// Decimal rendering of a non-negative number, most significant digit
/// first.
pub open spec fn dec_str(n: int) -> Seq<char>
    decreases n,
{
    if n < 0 {
        Seq::empty()
    } else if n < 10 {
        seq![digit_char(n)]
    } else {
        dec_str(n / 10).push(digit_char(n % 10))
    }
}

fn digit_to_char(d: u8) -> (r: char)
    requires
        d <= 9,
    ensures
        r == digit_char(d as int),
{
    match d {
        0 => '0',
        1 => '1',
        2 => '2',
        3 => '3',
        4 => '4',
        5 => '5',
        6 => '6',
        7 => '7',
        8 => '8',
        _ => '9',
    }
}

/// Renders a frame identifier in decimal, as the event name of a frame
/// with no message definition.
pub fn u32_dec_string(n: u32) -> (r: String)
    ensures
        r@ == dec_str(n as int),
    decreases n,
{
    let d = digit_to_char((n % 10) as u8);
    if n < 10 {
        let mut s = String::new();
        push_char(&mut s, d);
        proof {
            assert(s@ =~= seq![digit_char(n as int)]);
        }
        s
    } else {
        let mut s = u32_dec_string(n / 10);
        push_char(&mut s, d);
        s
    }
}

} // verus!

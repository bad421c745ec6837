//! The reload adapter: replaces a caller's value with the decoding of its
//! file's new content, and keeps the last good value whenever the file cannot
//! be read or decoded.
use vstd::prelude::*;
use crate::session::Watch;

verus! {

/// Declares serde_json::Value, carried through the adapter as an opaque value.
#[verifier::external_type_specification]
#[verifier::external_body]
pub struct ExJsonValue(serde_json::Value);

/// What one follow-changes cycle saw of the file.
pub enum Cycle<T> {
    /// The file did not exist when the cycle began, so no watcher started.
    NoFile,
    /// The file changed; it holds the decoded new content, or nothing when
    /// the content could not be read or decoded.
    Changed(Option<T>),
    /// The file stayed inaccessible past its grace period.
    NotFound,
}

/// Loads a first value: a decoded one replaces the target, and a failed read
/// or decode leaves it as it was.
pub fn reinit<T>(target: &mut T, decoded: Option<T>)
    ensures
        *final(target) == (match decoded {
            Some(v) => v,
            None => *old(target),
        }),
{
    match decoded {
        Some(v) => {
            *target = v;
        },
        None => {},
    }
}

/// Applies one follow-changes cycle to the target. Only a change whose content
/// was decoded replaces the target. The result tells whether the file is still
/// watched: it is after a change, and not when the file was missing from the
/// start or has been declared not found.
pub fn reload<T>(target: &mut T, cycle: Cycle<T>) -> (watching: bool)
    ensures
        watching == cycle is Changed,
        *final(target) == (match cycle {
            Cycle::Changed(Some(v)) => v,
            _ => *old(target),
        }),
{
    match cycle {
        Cycle::Changed(decoded) => {
            reinit(target, decoded);
            true
        },
        _ => false,
    }
}

/// Whether a byte string is accepted as one JSON document.
pub uninterp spec fn json_accepts(text: Seq<u8>) -> bool;

/// The JSON value that a byte string decodes to, when it is accepted.
pub uninterp spec fn json_value_of(text: Seq<u8>) -> serde_json::Value;

/// Relies on serde_json::from_slice to decode a JSON document into a
/// `serde_json::Value`; whether it succeeds, and the value decoded, depend on
/// the bytes alone.
#[verifier::external_body]
fn parse_json(text: &Vec<u8>) -> (r: Option<serde_json::Value>)
    ensures
        r is Some == json_accepts(text@),
        r matches Some(v) ==> v == json_value_of(text@),
{
    serde_json::from_slice(text).ok()
}

/// Decodes the content of a change, when there is one.
fn decode_json_cycle(cycle: Cycle<Vec<u8>>) -> (r: Cycle<serde_json::Value>)
    ensures
        r is NoFile == cycle is NoFile,
        r is NotFound == cycle is NotFound,
        r is Changed == cycle is Changed,
        (r matches Cycle::Changed(Some(_))) == (cycle matches Cycle::Changed(Some(b))
            && json_accepts(b@)),
        cycle matches Cycle::Changed(Some(b)) ==> (r matches Cycle::Changed(Some(v)) ==> v
            == json_value_of(b@)),
{
    match cycle {
        Cycle::NoFile => Cycle::NoFile,
        Cycle::NotFound => Cycle::NotFound,
        Cycle::Changed(None) => Cycle::Changed(None),
        Cycle::Changed(Some(b)) => Cycle::Changed(parse_json(&b)),
    }
}

impl Watch {
    /// Loads a first JSON value from the file's content, when it was read:
    /// the value is replaced by the decoded document only when the content is
    /// a JSON document.
    pub fn json_val_init(&self, content: Option<Vec<u8>>, val: &mut serde_json::Value)
        ensures
            *final(val) == (match content {
                Some(b) => if json_accepts(b@) {
                    json_value_of(b@)
                } else {
                    *old(val)
                },
                None => *old(val),
            }),
    {
        match content {
            Some(b) => reinit(val, parse_json(&b)),
            None => {},
        }
    }

    /// Applies one follow-changes cycle of a JSON file to `val`: the value is
    /// replaced only by the content of a change that is a JSON document. The
    /// result tells whether the file is still watched.
    pub fn json_val(&self, cycle: Cycle<Vec<u8>>, val: &mut serde_json::Value) -> (watching: bool)
        ensures
            watching == cycle is Changed,
            *final(val) == (match cycle {
                Cycle::Changed(Some(b)) => if json_accepts(b@) {
                    json_value_of(b@)
                } else {
                    *old(val)
                },
                _ => *old(val),
            }),
    {
        reload(val, decode_json_cycle(cycle))
    }
}

} // verus!

//! The shapes a scripted store operation replies with, as plain values.
//!
//! The protocol only ever reads three shapes out of a reply: a text datum, an
//! integer, and an array of further values.  Any other shape is carried as an
//! opaque diagnostic and rejected by the readers below, mirroring how the
//! client treats a reply it does not recognize as a protocol-level error.
use vstd::prelude::*;

verus! {

/// One value of a store reply.
#[derive(Debug, PartialEq, Eq)]
pub enum ReplyValue {
    /// A nil reply.
    Nil,
    /// An integer reply.
    Int(i64),
    /// A binary-safe text datum, decoded to a string.
    Data(String),
    /// An array of nested values.
    Bulk(Vec<ReplyValue>),
    /// Any other shape, rendered as a diagnostic.
    Other(String),
}

/// A reply did not have the shape the protocol expects.
#[derive(Debug, PartialEq, Eq)]
pub struct ReplyError {
    pub desc: String,
}

/// The text datum at position `i` of a reply array, if there is one.
pub open spec fn data_elem(values: Seq<ReplyValue>, i: int) -> Option<Seq<char>> {
    if 0 <= i < values.len() && values[i] is Data {
        Some(values[i]->Data_0@)
    } else {
        None
    }
}

/// The integer at position `i` of a reply array, if there is one.
pub open spec fn int_elem(values: Seq<ReplyValue>, i: int) -> Option<i64> {
    if 0 <= i < values.len() && values[i] is Int {
        Some(values[i]->Int_0)
    } else {
        None
    }
}

/// The value at position `i`, if the array reaches that far.
pub fn elem_at<'a>(values: &'a Vec<ReplyValue>, i: usize) -> (r: Option<&'a ReplyValue>)
    ensures
        r is Some <==> (i as int) < values@.len(),
        r matches Some(v) ==> *v == values@[i as int],
{
    if i < values.len() {
        Some(&values[i])
    } else {
        None
    }
}

/// Read the next reply value as a text datum, or reject with `err_desc`.
pub fn read_reply_as_str<'a>(v: Option<&'a ReplyValue>, err_desc: &str) -> (r: Result<
    &'a String,
    ReplyError,
>)
    ensures
        r is Ok <==> (v matches Some(rv) && (*rv) is Data),
        r matches Ok(s) ==> (v matches Some(rv) && (*rv) matches ReplyValue::Data(d) && s == d),
        r matches Err(e) ==> e.desc@ == err_desc@,
{
    match v {
        Some(ReplyValue::Data(d)) => Ok(d),
        _ => Err(ReplyError { desc: err_desc.to_owned() }),
    }
}

/// Read the next reply value as an integer, or reject with `err_desc`.
pub fn read_reply_as_int(v: Option<&ReplyValue>, err_desc: &str) -> (r: Result<i64, ReplyError>)
    ensures
        r is Ok <==> (v matches Some(rv) && (*rv) is Int),
        r matches Ok(i) ==> (v matches Some(rv) && (*rv) matches ReplyValue::Int(j) && i == j),
        r matches Err(e) ==> e.desc@ == err_desc@,
{
    match v {
        Some(ReplyValue::Int(i)) => Ok(*i),
        _ => Err(ReplyError { desc: err_desc.to_owned() }),
    }
}

} // verus!

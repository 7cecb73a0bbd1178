//! The layout of a request on the wire: which keys an object carries, and in
//! which order. Writing the values under these keys is left to the encoder.

use crate::request::{Attribute, AttributeView, DisclosureRequest, DisclosureRequestView};
use vstd::prelude::*;

verus! {

/// The context that every disclosure request written to the wire names.
pub const DISCLOSURE_CONTEXT: &'static str = "https://irma.app/ld/request/disclosure/v2";

/// A key of the object that a disclosure request is written as.
#[derive(Debug, Clone, Copy, PartialEq, Eq, Structural)]
pub enum EnvelopeKey {
    /// The fixed context. Written always; neither asked for nor looked at
    /// when a request is read.
    Context,
    /// The three levels of the request.
    Disclose,
    /// The labels. Left out altogether where the request has none.
    Labels,
}

impl EnvelopeKey {
    /// The key as it stands on the wire.
    pub open spec fn name(self) -> Seq<char> {
        match self {
            EnvelopeKey::Context => "@context"@,
            EnvelopeKey::Disclose => "disclose"@,
            EnvelopeKey::Labels => "labels"@,
        }
    }

    /// The key as it stands on the wire.
    pub fn as_str(&self) -> (s: &'static str)
        ensures
            s@ == self.name(),
    {
        match self {
            EnvelopeKey::Context => "@context",
            EnvelopeKey::Disclose => "disclose",
            EnvelopeKey::Labels => "labels",
        }
    }
}

/// A key of the object that an attribute is written as.
#[derive(Debug, Clone, Copy, PartialEq, Eq, Structural)]
pub enum AttributeKey {
    /// The attribute type.
    Type,
    /// The required value. Left out altogether where none is required.
    Value,
}

impl AttributeKey {
    /// The key as it stands on the wire.
    pub open spec fn name(self) -> Seq<char> {
        match self {
            AttributeKey::Type => "type"@,
            AttributeKey::Value => "value"@,
        }
    }

    /// The key as it stands on the wire.
    pub fn as_str(&self) -> (s: &'static str)
        ensures
            s@ == self.name(),
    {
        match self {
            AttributeKey::Type => "type",
            AttributeKey::Value => "value",
        }
    }
}

impl DisclosureRequestView {
    /// The keys written for this request, in their order.
    pub open spec fn keys(self) -> Seq<EnvelopeKey> {
        if self.labels is Some {
            seq![EnvelopeKey::Context, EnvelopeKey::Disclose, EnvelopeKey::Labels]
        } else {
            seq![EnvelopeKey::Context, EnvelopeKey::Disclose]
        }
    }
}

impl DisclosureRequest {
    /// The keys to write for this request, in their order: the context, the
    /// request, and the labels only where there are any.
    pub fn keys(&self) -> (keys: Vec<EnvelopeKey>)
        ensures
            keys@ == self@.keys(),
    {
        let mut keys: Vec<EnvelopeKey> = Vec::new();
        keys.push(EnvelopeKey::Context);
        keys.push(EnvelopeKey::Disclose);
        if self.labels.is_some() {
            keys.push(EnvelopeKey::Labels);
        }
        keys
    }
}

impl AttributeView {
    /// The keys written for this attribute, in their order.
    pub open spec fn keys(self) -> Seq<AttributeKey> {
        if self.value is Some {
            seq![AttributeKey::Type, AttributeKey::Value]
        } else {
            seq![AttributeKey::Type]
        }
    }
}

impl Attribute {
    /// The keys to write for this attribute, in their order: the type, and
    /// the value only where one is required.
    pub fn keys(&self) -> (keys: Vec<AttributeKey>)
        ensures
            keys@ == self@.keys(),
    {
        let mut keys: Vec<AttributeKey> = Vec::new();
        keys.push(AttributeKey::Type);
        if self.value.is_some() {
            keys.push(AttributeKey::Value);
        }
        keys
    }
}

} // verus!

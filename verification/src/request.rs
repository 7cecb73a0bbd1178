//! Attribute types, attributes, and the nested requests built from them.

use crate::dotted::{all_dot_free, dot_count, joined, segments, split_segments, texts};
use crate::dotted::{lemma_join_segments, lemma_segment_count, lemma_segments_dot_free};
use crate::dotted::lemma_segments_join;
use crate::order::{chains_to, compare_text, mirrored, text_order, tie_broken_by};
use crate::order::{lemma_text_order_chain, lemma_text_order_equal, lemma_text_order_mirror};
use itertools::Itertools;
use std::cmp::Ordering;
use std::collections::BTreeMap;
use vstd::prelude::*;
use vstd::std_specs::cmp::PartialEqSpec;

verus! {

/// Why a value could not be built.
#[derive(Debug)]
pub enum Error {
    /// The text does not have the four dot-separated segments of an attribute
    /// type identifier.
    NotAnAttributeTypeIdentifier,
}

/// What an [`AttributeType`] holds: its four components as texts.
pub struct AttributeTypeView {
    pub scheme: Seq<char>,
    pub issuer: Seq<char>,
    pub credential: Seq<char>,
    pub attribute: Seq<char>,
}

impl AttributeTypeView {
    /// The four components, scheme first.
    pub open spec fn parts(self) -> Seq<Seq<char>> {
        seq![self.scheme, self.issuer, self.credential, self.attribute]
    }

    /// No component holds a dot, so that the identifier reads back as these
    /// four components.
    pub open spec fn well_formed(self) -> bool {
        all_dot_free(self.parts())
    }

    /// The identifier: the four components with a dot between neighbours.
    pub open spec fn identifier(self) -> Seq<char> {
        joined(self.parts())
    }

    /// How `self` stands to `other`: by scheme, then issuer, then credential,
    /// then attribute, each compared as text.
    pub open spec fn order(self, other: AttributeTypeView) -> Ordering {
        tie_broken_by(
            text_order(self.scheme, other.scheme),
            tie_broken_by(
                text_order(self.issuer, other.issuer),
                tie_broken_by(
                    text_order(self.credential, other.credential),
                    text_order(self.attribute, other.attribute),
                ),
            ),
        )
    }
}

/// The attribute type that `s` names: `s` read as exactly four segments, or
/// nothing where it has fewer or more.
pub open spec fn parsed(s: Seq<char>) -> Option<AttributeTypeView> {
    let parts = segments(s);
    if parts.len() == 4 {
        Some(
            AttributeTypeView {
                scheme: parts[0],
                issuer: parts[1],
                credential: parts[2],
                attribute: parts[3],
            },
        )
    } else {
        None
    }
}

/// A text names an attribute type exactly where it holds three dots.
pub proof fn lemma_parsed_by_dots(s: Seq<char>)
    ensures
        parsed(s) is Some <==> dot_count(s) == 3,
{
    lemma_segment_count(s);
}

/// Reading an identifier and joining the components again gives the
/// identifier back, and no component read from it holds a dot.
pub proof fn lemma_parsed_round_trip(s: Seq<char>)
    requires
        segments(s).len() == 4,
    ensures
        parsed(s) matches Some(t) && t.identifier() == s && t.well_formed(),
{
    let t = parsed(s)->0;
    assert(t.parts() == segments(s));
    lemma_join_segments(s);
    lemma_segments_dot_free(s);
}

/// The identifier of a well-formed attribute type reads back as that type:
/// no two such types share an identifier.
pub proof fn lemma_identifier_parsed(t: AttributeTypeView)
    requires
        t.well_formed(),
    ensures
        parsed(t.identifier()) == Some(t),
{
    lemma_segments_join(t.parts());
}

/// An attribute type ties with itself.
pub proof fn lemma_order_reflexive(a: AttributeTypeView)
    ensures
        a.order(a) == Ordering::Equal,
{
    lemma_order_equal(a, a);
}

/// Two attribute types tie exactly when all four components agree.
pub proof fn lemma_order_equal(a: AttributeTypeView, b: AttributeTypeView)
    ensures
        a.order(b) == Ordering::Equal <==> a == b,
{
    lemma_text_order_equal(a.scheme, b.scheme);
    lemma_text_order_equal(a.issuer, b.issuer);
    lemma_text_order_equal(a.credential, b.credential);
    lemma_text_order_equal(a.attribute, b.attribute);
}

/// Comparing the other way round gives the mirrored result.
pub proof fn lemma_order_mirror(a: AttributeTypeView, b: AttributeTypeView)
    ensures
        b.order(a) == mirrored(a.order(b)),
{
    lemma_text_order_mirror(a.scheme, b.scheme);
    lemma_text_order_mirror(a.issuer, b.issuer);
    lemma_text_order_mirror(a.credential, b.credential);
    lemma_text_order_mirror(a.attribute, b.attribute);
}

/// The order is transitive: what holds from `a` to `b` and from `b` to `c`
/// holds from `a` to `c`, and a tie on one side passes the other side on.
pub proof fn lemma_order_transitive(
    a: AttributeTypeView,
    b: AttributeTypeView,
    c: AttributeTypeView,
)
    ensures
        chains_to(a.order(b), b.order(c), a.order(c)),
{
    lemma_text_order_chain(a.scheme, b.scheme, c.scheme);
    lemma_text_order_chain(a.issuer, b.issuer, c.issuer);
    lemma_text_order_chain(a.credential, b.credential, c.credential);
    lemma_text_order_chain(a.attribute, b.attribute, c.attribute);
    lemma_text_order_equal(a.scheme, b.scheme);
    lemma_text_order_equal(b.scheme, c.scheme);
    lemma_text_order_equal(a.issuer, b.issuer);
    lemma_text_order_equal(b.issuer, c.issuer);
    lemma_text_order_equal(a.credential, b.credential);
    lemma_text_order_equal(b.credential, c.credential);
}

/// What an [`Attribute`] holds.
pub struct AttributeView {
    pub atype: AttributeTypeView,
    pub value: Option<Seq<char>>,
}

impl AttributeView {
    /// Attributes are ordered by their type alone; the value plays no part.
    pub open spec fn order(self, other: AttributeView) -> Ordering {
        self.atype.order(other.atype)
    }
}

/// What an [`AttributeRequest`] holds.
pub struct AttributeRequestView {
    pub attribute: AttributeView,
    pub not_null: bool,
}

impl AttributeRequestView {
    /// Requests are ordered as their attributes are; the flag plays no part.
    pub open spec fn order(self, other: AttributeRequestView) -> Ordering {
        self.attribute.order(other.attribute)
    }
}

/// What a [`DisclosureRequest`] holds: the three levels of the request, and
/// the labels by the position of the disjunction they annotate, each a map
/// from locale to text.
pub struct DisclosureRequestView {
    pub disclose: Seq<Seq<Seq<AttributeRequestView>>>,
    pub labels: Option<Map<usize, Map<Seq<char>, Seq<char>>>>,
}

/// The text of an optional string.
pub open spec fn optional_text(s: Option<String>) -> Option<Seq<char>> {
    match s {
        Some(t) => Some(t@),
        None => None,
    }
}

/// Identifies an attribute: scheme, issuer, credential and attribute name.
#[derive(Debug)]
pub struct AttributeType {
    pub scheme: String,
    pub issuer: String,
    pub credential: String,
    pub attribute: String,
}

impl View for AttributeType {
    type V = AttributeTypeView;

    open spec fn view(&self) -> AttributeTypeView {
        AttributeTypeView {
            scheme: self.scheme@,
            issuer: self.issuer@,
            credential: self.credential@,
            attribute: self.attribute@,
        }
    }
}

impl AttributeType {
    /// Compares by scheme, then issuer, then credential, then attribute.
    pub fn cmp(&self, other: &Self) -> (o: Ordering)
        ensures
            o == self@.order(other@),
    {
        match compare_text(self.scheme.as_str(), other.scheme.as_str()) {
            Ordering::Equal => {},
            decided => {
                return decided;
            },
        }
        match compare_text(self.issuer.as_str(), other.issuer.as_str()) {
            Ordering::Equal => {},
            decided => {
                return decided;
            },
        }
        match compare_text(self.credential.as_str(), other.credential.as_str()) {
            Ordering::Equal => {},
            decided => {
                return decided;
            },
        }
        compare_text(self.attribute.as_str(), other.attribute.as_str())
    }
}

impl PartialEq for AttributeType {
    fn eq(&self, other: &Self) -> (r: bool) {
        self.scheme == other.scheme && self.issuer == other.issuer && self.credential
            == other.credential && self.attribute == other.attribute
    }
}

impl vstd::std_specs::cmp::PartialEqSpecImpl for AttributeType {
    open spec fn obeys_eq_spec() -> bool {
        true
    }

    open spec fn eq_spec(&self, other: &Self) -> bool {
        self@ == other@
    }
}

impl Eq for AttributeType {

}

impl PartialOrd for AttributeType {
    fn partial_cmp(&self, other: &Self) -> (r: Option<Ordering>) {
        Some(self.cmp(other))
    }
}

impl vstd::std_specs::cmp::PartialOrdSpecImpl for AttributeType {
    open spec fn obeys_partial_cmp_spec() -> bool {
        true
    }

    open spec fn partial_cmp_spec(&self, other: &Self) -> Option<Ordering> {
        Some(self@.order(other@))
    }
}

/// An attribute type, and the value that it is required to have, if any.
#[derive(Debug)]
pub struct Attribute {
    pub atype: AttributeType,
    pub value: Option<String>,
}

impl View for Attribute {
    type V = AttributeView;

    open spec fn view(&self) -> AttributeView {
        AttributeView { atype: self.atype@, value: optional_text(self.value) }
    }
}

/// Calls `Itertools::collect_tuple` on the strings of `parts`, for a tuple of
/// four. Claimed of it: the result is `Some` exactly where `parts` holds four
/// strings, and the tuple then holds them in their order.
#[verifier::external_body]
fn four_of(parts: Vec<String>) -> (r: Option<(String, String, String, String)>)
    ensures
        r is Some <==> parts@.len() == 4,
        r matches Some(t) ==> t.0@ == parts@[0]@ && t.1@ == parts@[1]@ && t.2@ == parts@[2]@
            && t.3@ == parts@[3]@,
{
    parts.into_iter().collect_tuple()
}

impl Attribute {
    /// Builds an attribute from the identifier of its type and the value
    /// required of it. An identifier of exactly four segments gives the
    /// scheme, issuer, credential and attribute, any of which may be empty;
    /// one of fewer or more segments is refused.
    pub fn new(atype: String, value: Option<String>) -> (r: Result<Attribute, Error>)
        ensures
            r is Ok <==> segments(atype@).len() == 4,
            r matches Ok(a) ==> parsed(atype@) == Some(a.atype@) && a.value == value,
            r matches Ok(a) ==> a.atype@.well_formed() && a.atype@.identifier() == atype@,
            r matches Err(e) ==> e == Error::NotAnAttributeTypeIdentifier,
    {
        let parts = split_segments(atype.as_str());
        proof {
            if segments(atype@).len() == 4 {
                lemma_parsed_round_trip(atype@);
            }
            assert(texts(parts@).len() == parts@.len());
            assert forall|k: int| 0 <= k < parts@.len() implies (#[trigger] parts@[k])@
                == segments(atype@)[k] by {
                assert(texts(parts@)[k] == parts@[k]@);
            }
        }
        match four_of(parts) {
            None => Err(Error::NotAnAttributeTypeIdentifier),
            Some((scheme, issuer, credential, attribute)) => Ok(
                Attribute { atype: AttributeType { scheme, issuer, credential, attribute }, value },
            ),
        }
    }

    /// Compares two attributes by their types; the values are not looked at.
    pub fn cmp(&self, other: &Self) -> (o: Ordering)
        ensures
            o == self@.order(other@),
    {
        self.atype.cmp(&other.atype)
    }
}

impl PartialEq for Attribute {
    fn eq(&self, other: &Self) -> (r: bool) {
        self.atype == other.atype && match (&self.value, &other.value) {
            (Some(a), Some(b)) => *a == *b,
            (None, None) => true,
            _ => false,
        }
    }
}

impl vstd::std_specs::cmp::PartialEqSpecImpl for Attribute {
    open spec fn obeys_eq_spec() -> bool {
        true
    }

    open spec fn eq_spec(&self, other: &Self) -> bool {
        self@ == other@
    }
}

impl Eq for Attribute {

}

impl PartialOrd for Attribute {
    fn partial_cmp(&self, other: &Self) -> (r: Option<Ordering>) {
        Some(self.cmp(other))
    }
}

impl vstd::std_specs::cmp::PartialOrdSpecImpl for Attribute {
    open spec fn obeys_partial_cmp_spec() -> bool {
        true
    }

    open spec fn partial_cmp_spec(&self, other: &Self) -> Option<Ordering> {
        Some(self@.order(other@))
    }
}

/// Two attributes of one type that differ in the required value tie in the
/// order, and are not equal.
pub proof fn lemma_value_ignored_by_order(a: Attribute, b: Attribute)
    requires
        a@.atype == b@.atype,
        a@.value != b@.value,
    ensures
        a@.order(b@) == Ordering::Equal,
        !a.eq_spec(&b),
{
    lemma_order_reflexive(a@.atype);
}

/// Asks for an attribute, and says whether it has to be present and
/// non-empty.
#[derive(Debug)]
pub struct AttributeRequest {
    pub attribute: Attribute,
    pub not_null: bool,
}

impl View for AttributeRequest {
    type V = AttributeRequestView;

    open spec fn view(&self) -> AttributeRequestView {
        AttributeRequestView { attribute: self.attribute@, not_null: self.not_null }
    }
}

impl AttributeRequest {
    /// Compares two requests as their attributes compare.
    pub fn cmp(&self, other: &Self) -> (o: Ordering)
        ensures
            o == self@.order(other@),
    {
        self.attribute.cmp(&other.attribute)
    }
}

impl PartialEq for AttributeRequest {
    fn eq(&self, other: &Self) -> (r: bool) {
        self.attribute == other.attribute && self.not_null == other.not_null
    }
}

impl vstd::std_specs::cmp::PartialEqSpecImpl for AttributeRequest {
    open spec fn obeys_eq_spec() -> bool {
        true
    }

    open spec fn eq_spec(&self, other: &Self) -> bool {
        self@ == other@
    }
}

impl Eq for AttributeRequest {

}

impl PartialOrd for AttributeRequest {
    fn partial_cmp(&self, other: &Self) -> (r: Option<Ordering>) {
        Some(self.cmp(other))
    }
}

impl vstd::std_specs::cmp::PartialOrdSpecImpl for AttributeRequest {
    open spec fn obeys_partial_cmp_spec() -> bool {
        true
    }

    open spec fn partial_cmp_spec(&self, other: &Self) -> Option<Ordering> {
        Some(self@.order(other@))
    }
}

/// A conjunction: satisfied when every request in it is. The requests keep
/// the order in which they were given.
#[derive(Debug)]
pub struct AttributeCon(pub Vec<AttributeRequest>);

impl View for AttributeCon {
    type V = Seq<AttributeRequestView>;

    open spec fn view(&self) -> Seq<AttributeRequestView> {
        self.0@.map_values(|r: AttributeRequest| r@)
    }
}

/// A disjunction of conjunctions: satisfied when at least one of them is.
#[derive(Debug)]
pub struct AttributeDisCon(pub Vec<AttributeCon>);

impl View for AttributeDisCon {
    type V = Seq<Seq<AttributeRequestView>>;

    open spec fn view(&self) -> Seq<Seq<AttributeRequestView>> {
        self.0@.map_values(|c: AttributeCon| c@)
    }
}

/// A conjunction of disjunctions: satisfied when every one of them is.
#[derive(Debug)]
pub struct AttributeConDisCon(pub Vec<AttributeDisCon>);

impl View for AttributeConDisCon {
    type V = Seq<Seq<Seq<AttributeRequestView>>>;

    open spec fn view(&self) -> Seq<Seq<Seq<AttributeRequestView>>> {
        self.0@.map_values(|d: AttributeDisCon| d@)
    }
}

/// A request to disclose attributes, with optional labels for display. A
/// label is found by the position of a disjunction in `disclose`, then by
/// locale; nothing holds the positions to the length of `disclose`.
#[derive(Debug)]
pub struct DisclosureRequest {
    pub disclose: AttributeConDisCon,
    pub labels: Option<BTreeMap<usize, BTreeMap<String, String>>>,
}

impl View for DisclosureRequest {
    type V = DisclosureRequestView;

    open spec fn view(&self) -> DisclosureRequestView {
        DisclosureRequestView {
            disclose: self.disclose@,
            labels: match self.labels {
                Some(by_position) => Some(by_position.deep_view()),
                None => None,
            },
        }
    }
}

} // verus!

use irma_request::request::{Attribute, AttributeRequest, AttributeType, Error};
use std::cmp::Ordering;

fn attribute(identifier: &str) -> Attribute {
    Attribute::new(String::from(identifier), None).unwrap()
}

fn attribute_with(identifier: &str, value: &str) -> Attribute {
    Attribute::new(String::from(identifier), Some(String::from(value))).unwrap()
}

fn attribute_type(scheme: &str, issuer: &str, credential: &str, attribute: &str) -> AttributeType {
    AttributeType {
        scheme: String::from(scheme),
        issuer: String::from(issuer),
        credential: String::from(credential),
        attribute: String::from(attribute),
    }
}

fn identifier_of(t: &AttributeType) -> String {
    format!("{}.{}.{}.{}", t.scheme, t.issuer, t.credential, t.attribute)
}

#[test]
fn test_sort() -> Result<(), Error> {
    let attr1 = Attribute::new(String::from("pbdf.pbdf.email.email"), None)?;
    let attr2 = Attribute::new(String::from("pbdf.pbdf.email.domain"), None)?;
    let attr3 = Attribute::new(String::from("pbdf.pbdf.fmail.email"), None)?;
    let attr4 = Attribute::new(String::from("1.2.3.4.5"), None);

    assert_eq!(attr4.is_err(), true);
    assert_eq!(Ordering::Greater, attr1.cmp(&attr2));
    assert_eq!(Ordering::Equal, attr1.cmp(&attr1));
    assert_eq!(Ordering::Less, attr2.cmp(&attr3));

    Ok(())
}

#[test]
fn new_reads_the_four_components_in_order() {
    let a = attribute("pbdf.sidn-pbdf.email.domain");
    assert_eq!(a.atype.scheme, "pbdf");
    assert_eq!(a.atype.issuer, "sidn-pbdf");
    assert_eq!(a.atype.credential, "email");
    assert_eq!(a.atype.attribute, "domain");
    assert_eq!(a.value, None);
}

#[test]
fn new_keeps_the_required_value() {
    let a = attribute_with("pbdf.pbdf.email.email", "someone@example.com");
    assert_eq!(a.value, Some(String::from("someone@example.com")));
    assert_eq!(a.atype.attribute, "email");
}

#[test]
fn new_round_trips_the_identifier() {
    for identifier in [
        "pbdf.pbdf.email.email",
        "irma-demo.MijnOverheid.ageLower.over18",
        "a.b.c.d",
        "a..c.d",
        "...",
        ".b.c.",
        "sch\u{e9}ma.\u{4e2d}\u{6587}.cr\u{e9}d.\u{1f600}",
    ] {
        let a = attribute(identifier);
        assert_eq!(identifier_of(&a.atype), identifier);
    }
}

#[test]
fn new_accepts_empty_segments() {
    let a = attribute("a..c.d");
    assert_eq!(a.atype.scheme, "a");
    assert_eq!(a.atype.issuer, "");
    assert_eq!(a.atype.credential, "c");
    assert_eq!(a.atype.attribute, "d");

    let b = attribute("...");
    assert_eq!(b.atype.scheme, "");
    assert_eq!(b.atype.issuer, "");
    assert_eq!(b.atype.credential, "");
    assert_eq!(b.atype.attribute, "");
}

#[test]
fn new_rejects_every_other_number_of_segments() {
    for identifier in [
        "",
        "pbdf",
        "pbdf.pbdf",
        "pbdf.pbdf.email",
        "pbdf.pbdf.email.email.extra",
        "1.2.3.4.5",
        "1.2.3.4.5.6",
        ".",
        "..",
        "....",
        "a.b.c.d.",
        ".a.b.c.d",
    ] {
        let r = Attribute::new(String::from(identifier), None);
        assert!(
            matches!(r, Err(Error::NotAnAttributeTypeIdentifier)),
            "{:?} was accepted",
            identifier
        );
    }
}

#[test]
fn new_rejects_whatever_the_value() {
    let r = Attribute::new(String::from("a.b.c"), Some(String::from("v")));
    assert!(matches!(r, Err(Error::NotAnAttributeTypeIdentifier)));
}

#[test]
fn new_splits_on_dots_only() {
    let a = attribute("a b.c,d.e:f.g\u{2024}h");
    assert_eq!(a.atype.scheme, "a b");
    assert_eq!(a.atype.issuer, "c,d");
    assert_eq!(a.atype.credential, "e:f");
    assert_eq!(a.atype.attribute, "g\u{2024}h");
}

#[test]
fn later_attribute_name_is_greater() {
    let email = attribute("pbdf.pbdf.email.email");
    let domain = attribute("pbdf.pbdf.email.domain");
    assert_eq!(email.cmp(&domain), Ordering::Greater);
    assert_eq!(domain.cmp(&email), Ordering::Less);
}

#[test]
fn earlier_credential_is_less_whatever_follows() {
    let domain = attribute("pbdf.pbdf.email.domain");
    let other = attribute("pbdf.pbdf.fmail.email");
    assert_eq!(domain.cmp(&other), Ordering::Less);
    assert_eq!(other.cmp(&domain), Ordering::Greater);
}

#[test]
fn type_order_goes_by_scheme_then_issuer_then_credential_then_attribute() {
    let base = attribute_type("m", "m", "m", "m");
    assert_eq!(attribute_type("a", "z", "z", "z").cmp(&base), Ordering::Less);
    assert_eq!(attribute_type("z", "a", "a", "a").cmp(&base), Ordering::Greater);
    assert_eq!(attribute_type("m", "a", "z", "z").cmp(&base), Ordering::Less);
    assert_eq!(attribute_type("m", "z", "a", "a").cmp(&base), Ordering::Greater);
    assert_eq!(attribute_type("m", "m", "a", "z").cmp(&base), Ordering::Less);
    assert_eq!(attribute_type("m", "m", "z", "a").cmp(&base), Ordering::Greater);
    assert_eq!(attribute_type("m", "m", "m", "a").cmp(&base), Ordering::Less);
    assert_eq!(attribute_type("m", "m", "m", "z").cmp(&base), Ordering::Greater);
    assert_eq!(attribute_type("m", "m", "m", "m").cmp(&base), Ordering::Equal);
}

#[test]
fn type_order_compares_components_and_not_the_joined_text() {
    // Compared as one text, "a.b.c.d" comes after "a-.b.c.d" and after
    // "a!.b.c.d", since '-' and '!' sort before '.'. Compared by components,
    // "a" begins "a-" and "a!", and so comes first.
    let short = attribute_type("a", "b", "c", "d");
    let long = attribute_type("a-", "b", "c", "d");
    assert_eq!(short.cmp(&long), Ordering::Less);
    let bang = attribute_type("a!", "b", "c", "d");
    assert_eq!(short.cmp(&bang), Ordering::Less);
    assert_eq!("a.b.c.d".cmp("a-.b.c.d"), Ordering::Greater);
    assert_eq!("a.b.c.d".cmp("a!.b.c.d"), Ordering::Greater);
}

#[test]
fn order_is_reflexive_mirrored_and_transitive_on_samples() {
    let samples = [
        attribute_type("", "", "", ""),
        attribute_type("a", "", "", ""),
        attribute_type("a", "b", "c", "d"),
        attribute_type("a", "b", "c", "dd"),
        attribute_type("a", "b", "cc", "d"),
        attribute_type("a", "bb", "c", "d"),
        attribute_type("aa", "b", "c", "d"),
        attribute_type("pbdf", "pbdf", "email", "domain"),
        attribute_type("pbdf", "pbdf", "email", "email"),
        attribute_type("pbdf", "pbdf", "fmail", "email"),
        attribute_type("\u{e9}", "b", "c", "d"),
    ];
    for a in samples.iter() {
        assert_eq!(a.cmp(a), Ordering::Equal);
        for b in samples.iter() {
            assert_eq!(b.cmp(a), a.cmp(b).reverse());
            assert_eq!(a.cmp(b) == Ordering::Equal, a == b);
            for c in samples.iter() {
                if a.cmp(b) != Ordering::Greater && b.cmp(c) != Ordering::Greater {
                    assert_ne!(a.cmp(c), Ordering::Greater);
                }
                if a.cmp(b) == Ordering::Less && b.cmp(c) == Ordering::Less {
                    assert_eq!(a.cmp(c), Ordering::Less);
                }
            }
        }
    }
}

#[test]
fn order_agrees_with_the_order_of_tuples_of_strings() {
    let samples = [
        ("a", "b", "c", "d"),
        ("a", "b", "c", ""),
        ("A", "b", "c", "d"),
        ("a", "B", "c", "d"),
        ("ab", "", "c", "d"),
        ("a", "b", "c\u{e9}", "d"),
        ("a", "b", "c\u{10000}", "d"),
        ("a", "b", "c\u{ffff}", "d"),
        ("a", "b", "cz", "d"),
    ];
    for x in samples.iter() {
        for y in samples.iter() {
            let a = attribute_type(x.0, x.1, x.2, x.3);
            let b = attribute_type(y.0, y.1, y.2, y.3);
            assert_eq!(a.cmp(&b), x.cmp(y));
        }
    }
}

#[test]
fn value_is_ignored_by_the_order_but_not_by_equality() {
    let a = attribute_with("pbdf.pbdf.email.email", "a@example.com");
    let b = attribute_with("pbdf.pbdf.email.email", "b@example.com");
    let none = attribute("pbdf.pbdf.email.email");
    assert_eq!(a.cmp(&b), Ordering::Equal);
    assert_eq!(b.cmp(&a), Ordering::Equal);
    assert_eq!(a.cmp(&none), Ordering::Equal);
    assert!(a != b);
    assert!(a != none);
    assert!(!(a == b));
}

#[test]
fn equality_compares_type_and_value() {
    let a = attribute_with("pbdf.pbdf.email.email", "a@example.com");
    let same = attribute_with("pbdf.pbdf.email.email", "a@example.com");
    let other_type = attribute_with("pbdf.pbdf.email.domain", "a@example.com");
    assert!(a == same);
    assert!(a != other_type);
    assert!(attribute("a.b.c.d") == attribute("a.b.c.d"));
    assert!(a.atype == same.atype);
    assert!(a.atype != other_type.atype);
}

#[test]
fn request_order_ignores_the_flag_and_equality_does_not() {
    let must = AttributeRequest { attribute: attribute("pbdf.pbdf.email.email"), not_null: true };
    let may = AttributeRequest { attribute: attribute("pbdf.pbdf.email.email"), not_null: false };
    let domain = AttributeRequest { attribute: attribute("pbdf.pbdf.email.domain"), not_null: true };
    assert_eq!(must.cmp(&may), Ordering::Equal);
    assert_eq!(may.cmp(&must), Ordering::Equal);
    assert!(must != may);
    assert_eq!(must.cmp(&domain), Ordering::Greater);
    assert_eq!(domain.cmp(&may), Ordering::Less);
    let again = AttributeRequest { attribute: attribute("pbdf.pbdf.email.email"), not_null: true };
    assert!(must == again);
}

#[test]
fn comparison_operators_follow_the_order() {
    let email = attribute("pbdf.pbdf.email.email");
    let domain = attribute("pbdf.pbdf.email.domain");
    assert!(domain < email);
    assert!(email > domain);
    assert!(domain <= email);
    assert!(email >= email);
    assert!(domain.atype < email.atype);
    assert_eq!(email.partial_cmp(&domain), Some(Ordering::Greater));
    assert_eq!(email.atype.partial_cmp(&email.atype), Some(Ordering::Equal));

    let valued = attribute_with("pbdf.pbdf.email.email", "x");
    assert!(!(valued < email));
    assert!(!(valued > email));
    assert!(valued <= email && valued >= email);

    let must = AttributeRequest { attribute: attribute("a.b.c.d"), not_null: true };
    let may = AttributeRequest { attribute: attribute("a.b.c.e"), not_null: false };
    assert!(must < may);
    assert_eq!(may.partial_cmp(&must), Some(Ordering::Greater));
}

#[test]
fn sorting_by_the_order_groups_equal_types() {
    let mut list = vec![
        attribute_with("pbdf.pbdf.fmail.email", "1"),
        attribute_with("pbdf.pbdf.email.email", "2"),
        attribute_with("pbdf.pbdf.email.domain", "3"),
        attribute_with("pbdf.pbdf.email.email", "4"),
    ];
    list.sort_by(|a, b| a.cmp(b));
    let values: Vec<&str> = list.iter().map(|a| a.value.as_deref().unwrap()).collect();
    assert_eq!(values, vec!["3", "2", "4", "1"]);
}

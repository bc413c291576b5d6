use osm2rdf::escape::encode_title;
use osm2rdf::str_builder::{
    StringBuf, XsdBoolean, XsdDateTime, XsdElement, XsdInteger, XsdIter, XsdPoint, XsdRaw,
    XsdRelMember, XsdStr, XsdValue, XsdWikipedia,
};
use osm2rdf::utils::{to_utc, Element, ElementInfo, RelMember, RelMemberType};

fn tag_text(key: &str, val: &str) -> String {
    let mut b = StringBuf::new(16);
    b.add_tag(key, val);
    b.buf
}

fn info(user: Option<&str>) -> ElementInfo {
    ElementInfo {
        is_deleted: false,
        version: 3,
        user: user.map(|u| u.to_string()),
        milli_timestamp: 1_600_000_000_000,
        changeset: 77,
    }
}

#[test]
fn plain_value_is_a_string_literal() {
    assert_eq!(tag_text("name", "Cafe"), "osmt:name \"Cafe\";\n");
    assert_eq!(tag_text("addr:street", "Main St"), "osmt:addr:street \"Main St\";\n");
}

#[test]
fn plain_value_escapes_round_trip() {
    let out = tag_text("note", "say \"hi\"\\\n\tx\u{1}");
    assert_eq!(out, "osmt:note \"say \\\"hi\\\"\\\\\\n\\tx\\u0001\";\n");
    let lit = out.trim_start_matches("osmt:note ").trim_end_matches(";\n");
    let mut decoded = String::new();
    let inner: Vec<char> = lit[1..lit.len() - 1].chars().collect();
    let mut i = 0;
    while i < inner.len() {
        if inner[i] == '\\' {
            match inner[i + 1] {
                'n' => decoded.push('\n'),
                't' => decoded.push('\t'),
                '"' => decoded.push('"'),
                '\\' => decoded.push('\\'),
                'u' => {
                    let code: String = inner[i + 2..i + 6].iter().collect();
                    decoded.push(char::from_u32(u32::from_str_radix(&code, 16).unwrap()).unwrap());
                    i += 4;
                }
                other => panic!("unexpected escape {other}"),
            }
            i += 2;
        } else {
            decoded.push(inner[i]);
            i += 1;
        }
    }
    assert_eq!(decoded, "say \"hi\"\\\n\tx\u{1}");
}

#[test]
fn non_ascii_value_is_kept() {
    assert_eq!(tag_text("name", "Café ☕"), "osmt:name \"Café ☕\";\n");
}

#[test]
fn created_by_is_ignored() {
    assert_eq!(tag_text("created_by", "JOSM"), "");
}

#[test]
fn bad_keys_are_recorded() {
    assert_eq!(tag_text("bad key", "x"), "osmm:badkey \"bad key\";\n");
    assert_eq!(tag_text("-lead", "x"), "osmm:badkey \"-lead\";\n");
    assert_eq!(tag_text("trail:", "x"), "osmm:badkey \"trail:\";\n");
    assert_eq!(tag_text("", "x"), "osmm:badkey \"\";\n");
    let long = "a".repeat(61);
    assert_eq!(tag_text(&long, "x"), format!("osmm:badkey \"{long}\";\n"));
    let longest = "a".repeat(60);
    assert_eq!(tag_text(&longest, "x"), format!("osmt:{longest} \"x\";\n"));
    assert_eq!(tag_text("a", "x"), "osmt:a \"x\";\n");
}

#[test]
fn wikidata_single_identifier() {
    assert_eq!(tag_text("wikidata", "Q42"), "osmt:wikidata wd:Q42;\n");
    assert_eq!(tag_text("brand:wikidata", "Q1234567890123456789"), "osmt:brand:wikidata wd:Q1234567890123456789;\n");
}

#[test]
fn wikidata_invalid_identifier_is_a_string() {
    assert_eq!(tag_text("wikidata", "Q0"), "osmt:wikidata \"Q0\";\n");
    assert_eq!(tag_text("wikidata", "Q12345678901234567890"), "osmt:wikidata \"Q12345678901234567890\";\n");
    assert_eq!(tag_text("wikidata", "q42"), "osmt:wikidata \"q42\";\n");
    assert_eq!(tag_text("wikidata", " Q1;Q2"), "osmt:wikidata \" Q1;Q2\";\n");
    assert_eq!(tag_text("wikidata", "Q1;"), "osmt:wikidata \"Q1;\";\n");
}

#[test]
fn wikidata_list_in_order() {
    assert_eq!(tag_text("wikidata", "Q1;Q22;Q333"), "osmt:wikidata wd:Q1,wd:Q22,wd:Q333;\n");
    assert_eq!(tag_text("subject:wikidata", "Q5 ; Q7;  Q9"), "osmt:subject:wikidata wd:Q5,wd:Q7,wd:Q9;\n");
}

#[test]
fn wikipedia_link() {
    let out = tag_text("wikipedia", "en:Some Title");
    assert_eq!(out, "osmt:wikipedia <https://en.wikipedia.org/wiki/Some_Title>;\n");
    assert!(out.contains("en.wikipedia.org/wiki/Some_Title"));
}

#[test]
fn wikipedia_title_is_percent_encoded() {
    assert_eq!(
        tag_text("wikipedia", "de:A/B (c)#d"),
        "osmt:wikipedia <https://de.wikipedia.org/wiki/A%2FB_%28c%29%23d>;\n"
    );
    assert_eq!(tag_text("wikipedia", "fr:Élan"), "osmt:wikipedia <https://fr.wikipedia.org/wiki/%C3%89lan>;\n");
    assert_eq!(tag_text("wikipedia", "en:a:b"), "osmt:wikipedia <https://en.wikipedia.org/wiki/a%3Ab>;\n");
}

#[test]
fn wikipedia_without_language_is_a_string() {
    assert_eq!(tag_text("wikipedia", "Some Title"), "osmt:wikipedia \"Some Title\";\n");
    assert_eq!(tag_text("wikipedia", "EN:Title"), "osmt:wikipedia \"EN:Title\";\n");
    assert_eq!(tag_text("wikipedia", "en:"), "osmt:wikipedia \"en:\";\n");
    assert_eq!(tag_text("wikipedia", "en:a\nb"), "osmt:wikipedia \"en:a\\nb\";\n");
}

#[test]
fn encode_title_changes_its_argument() {
    let t: Vec<char> = "a b;c".chars().collect();
    assert_eq!(encode_title(&t), "a_b%3Bc");
}

#[test]
fn add_tags_keeps_order() {
    let mut b = StringBuf::new(0);
    let tags = vec![
        ("name".to_string(), "X".to_string()),
        ("created_by".to_string(), "Y".to_string()),
        ("amenity".to_string(), "cafe".to_string()),
    ];
    b.add_tags(&tags);
    assert_eq!(b.buf, "osmt:name \"X\";\nosmt:amenity \"cafe\";\n");
    assert!(!b.is_empty());
    assert!(StringBuf::new(5).is_empty());
}

#[test]
fn finalize_with_user() {
    let mut b = StringBuf::new(0);
    b.add_value("osmm:type", &XsdElement(Element::Way));
    let b = b.finalize(&info(Some("alice")));
    assert_eq!(
        b.buf,
        "osmm:type \"w\";\nosmm:version \"3\"^^xsd:integer;\nosmm:user \"alice\";\nosmm:timestamp \"2020-09-13T12:26:40Z\"^^xsd:dateTime;\nosmm:changeset \"77\"^^xsd:integer.\n"
    );
}

#[test]
fn finalize_without_user() {
    let b = StringBuf::new(0).finalize(&info(None));
    assert_eq!(
        b.buf,
        "osmm:version \"3\"^^xsd:integer;\nosmm:timestamp \"2020-09-13T12:26:40Z\"^^xsd:dateTime;\nosmm:changeset \"77\"^^xsd:integer.\n"
    );
}

#[test]
fn typed_literals() {
    assert_eq!(XsdInteger(-42).render(), "\"-42\"^^xsd:integer");
    assert_eq!(XsdInteger(i64::MIN).render(), "\"-9223372036854775808\"^^xsd:integer");
    assert_eq!(XsdBoolean(true).render(), "\"true\"^^xsd:boolean");
    assert_eq!(XsdBoolean(false).render(), "\"false\"^^xsd:boolean");
    assert_eq!(XsdDateTime(0).render(), "\"1970-01-01T00:00:00Z\"^^xsd:dateTime");
    assert_eq!(XsdDateTime(-1).render(), "\"1969-12-31T23:59:59Z\"^^xsd:dateTime");
    assert_eq!(XsdStr("a\"b").render(), "\"a\\\"b\"");
    assert_eq!(XsdRaw("osmt", "name").render(), "osmt:name");
    assert_eq!(XsdElement(Element::Node).render(), "\"n\"");
    assert_eq!(XsdElement(Element::Relation).render(), "\"r\"");
    assert_eq!(
        XsdWikipedia { lang: "en", title: "X_Y" }.render(),
        "<https://en.wikipedia.org/wiki/X_Y>"
    );
}

#[test]
fn point_literal_longitude_first() {
    assert_eq!(
        XsdPoint { lat: 525_000_000, lon: 134_000_000 }.render(),
        "\"Point(13.4 52.5)\"^^geo:wktLiteral"
    );
    assert_eq!(
        XsdPoint { lat: -5_000_000, lon: 130_000_000 }.render(),
        "\"Point(13 -0.5)\"^^geo:wktLiteral"
    );
    assert_eq!(XsdPoint { lat: 1, lon: 0 }.render(), "\"Point(0 0.0000001)\"^^geo:wktLiteral");
    assert_eq!(
        XsdPoint { lat: -900_000_000, lon: 1_799_999_999 }.render(),
        "\"Point(179.9999999 -90)\"^^geo:wktLiteral"
    );
}

#[test]
fn relation_member_and_lists() {
    let m = RelMember { member_id: 77, member_type: RelMemberType::Way, role: "outer".to_string() };
    assert_eq!(XsdRelMember(&m).render(), "osmway:77");
    let n = RelMember { member_id: -3, member_type: RelMemberType::Node, role: String::new() };
    assert_eq!(XsdRelMember(&n).render(), "osmnode:-3");
    let items = [XsdRaw("wd", "Q1"), XsdRaw("wd", "Q2")];
    assert_eq!(XsdIter(&items).render(), "wd:Q1,wd:Q2");
    let none: [XsdRaw; 0] = [];
    assert_eq!(XsdIter(&none).render(), "");
}

#[test]
fn utc_timestamps() {
    assert_eq!(to_utc(1_600_000_000_000).unwrap(), "2020-09-13T12:26:40Z");
    assert_eq!(to_utc(1_600_000_000_999).unwrap(), "2020-09-13T12:26:40Z");
    assert!(to_utc(i64::MAX).is_none());
    assert!(to_utc(8_000_000_000_000_000).is_some());
    assert!(to_utc(-8_000_000_000_000_000).is_some());
}

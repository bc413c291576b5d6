use osm2rdf::parser::Statement;
use osm2rdf::str_builder::StringBuf;
use osm2rdf::utils::Element;
use osm2rdf::writer::{file_name, header, OutputWriter, WriteOp};
use osm2rdf::max_file_bytes;

fn create(id: i64, ts: i64, text: &str) -> Statement {
    Statement::Create { elem: Element::Node, id, ts, val: StringBuf { buf: text.to_string() } }
}

/// Replays the operations into named files.
fn replay(ops: Vec<WriteOp>, files: &mut Vec<(String, String)>, open: &mut bool, reports: &mut Vec<String>) {
    for op in ops {
        match op {
            WriteOp::Open(name) => {
                assert!(!*open);
                files.push((name, String::new()));
                *open = true;
            }
            WriteOp::Write(t) => {
                assert!(*open);
                files.last_mut().unwrap().1.push_str(&t);
            }
            WriteOp::Close => {
                assert!(*open);
                *open = false;
            }
            WriteOp::Report(m) => reports.push(m),
        }
    }
}

fn run(limit: usize, statements: Vec<Statement>) -> (Vec<(String, String)>, Vec<String>) {
    let mut w = OutputWriter::new(limit);
    let mut files = Vec::new();
    let mut open = false;
    let mut reports = Vec::new();
    for s in statements {
        let ops = w.on_statement(s);
        replay(ops, &mut files, &mut open, &mut reports);
    }
    replay(w.finish(), &mut files, &mut open, &mut reports);
    assert!(!open);
    (files, reports)
}

#[test]
fn file_names_are_zero_padded() {
    assert_eq!(file_name(0), "osm-000000.ttl.gz");
    assert_eq!(file_name(42), "osm-000042.ttl.gz");
    assert_eq!(file_name(1_234_567), "osm-1234567.ttl.gz");
}

#[test]
fn header_lists_prefixes() {
    let h = header();
    assert!(h.starts_with("@prefix wd: <http://www.wikidata.org/entity/>.\n"));
    assert!(h.ends_with("@prefix osmm: <https://www.openstreetmap.org/meta/>.\n"));
    assert_eq!(h.lines().count(), 10);
}

#[test]
fn small_threshold_rotates_files() {
    let body = "x".repeat(40);
    let (files, _) = run(60, vec![create(1, 1, &body), create(2, 2, &body), create(3, 3, &body)]);
    // two data files and the trailer
    assert_eq!(files.len(), 3);
    assert_eq!(files[0].0, "osm-000000.ttl.gz");
    assert_eq!(files[1].0, "osm-000001.ttl.gz");
    assert_eq!(files[2].0, "osm-000002.ttl.gz");
    let h = header();
    assert_eq!(files[0].1, format!("{h}\nosmnode:1\n{body}\nosmnode:2\n{body}"));
    assert_eq!(files[1].1, format!("{h}\nosmnode:3\n{body}"));
}

#[test]
fn large_threshold_keeps_one_file() {
    let (files, _) = run(1_000_000, vec![create(1, 1, "a"), create(2, 2, "b")]);
    assert_eq!(files.len(), 2);
    assert!(files[0].1.ends_with("\nosmnode:1\na\nosmnode:2\nb"));
}

#[test]
fn element_larger_than_threshold_closes_at_once() {
    let (files, _) = run(5, vec![create(1, 1, "0123456789"), create(2, 2, "z")]);
    assert_eq!(files.len(), 3);
    assert!(files[0].1.ends_with("\nosmnode:1\n0123456789"));
    assert!(files[1].1.ends_with("\nosmnode:2\nz"));
}

#[test]
fn trailer_records_latest_timestamp() {
    let order_a = vec![create(1, 1_600_000_000_000, "a"), create(2, 0, "b"), create(3, 86_400_000, "c")];
    let order_b = vec![create(3, 86_400_000, "c"), create(1, 1_600_000_000_000, "a"), create(2, 0, "b")];
    for order in [order_a, order_b] {
        let (files, _) = run(1_000_000, order);
        let trailer = &files.last().unwrap().1;
        assert!(trailer.starts_with(&header()));
        assert!(trailer.ends_with(
            "\nosmroot: schema:dateModified \"2020-09-13T12:26:40Z\"^^xsd:dateTime.\n"
        ));
    }
}

#[test]
fn trailer_without_elements_is_the_epoch() {
    let (files, _) = run(10, vec![Statement::Skip]);
    assert_eq!(files.len(), 1);
    assert_eq!(files[0].0, "osm-000000.ttl.gz");
    assert!(files[0].1.ends_with("\"1970-01-01T00:00:00Z\"^^xsd:dateTime.\n"));
}

#[test]
fn deletes_are_reported_not_written() {
    let (files, reports) = run(10, vec![Statement::Delete { elem: Element::Way, id: 12 }, Statement::Skip]);
    assert_eq!(reports, vec!["Delete osmway:12 is not supported".to_string()]);
    assert_eq!(files.len(), 1);
}

#[test]
fn sizes_count_bytes() {
    // "\nosmnode:1\n" is 11 bytes, "é" two more: 13 stays within 13.
    let (files, _) = run(13, vec![create(1, 1, "é"), create(2, 2, "b")]);
    assert_eq!(files.len(), 2);
    let (files, _) = run(12, vec![create(1, 1, "é"), create(2, 2, "b")]);
    assert_eq!(files.len(), 3);
}

#[test]
fn megabytes_to_bytes() {
    assert_eq!(max_file_bytes(100), 104_857_600);
    assert_eq!(max_file_bytes(0), 0);
}

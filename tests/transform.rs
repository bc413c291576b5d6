use osm2rdf::parser::{NodeData, Parser, RelationData, Statement, WayData, WayGeometry};
use osm2rdf::str_builder::XsdPoint;
use osm2rdf::utils::{Element, ElementInfo, RelMember, RelMemberType, Stats};

fn info(deleted: bool, ts: i64) -> ElementInfo {
    ElementInfo { is_deleted: deleted, version: 1, user: None, milli_timestamp: ts, changeset: 5 }
}

fn tags(list: &[(&str, &str)]) -> Vec<(String, String)> {
    list.iter().map(|(k, v)| (k.to_string(), v.to_string())).collect()
}

fn body(s: &Statement) -> String {
    match s {
        Statement::Create { val, .. } => val.buf.clone(),
        other => panic!("expected a created element, got {other:?}"),
    }
}

#[test]
fn node_without_tags_is_skipped() {
    let mut p = Parser::new(10);
    let node = NodeData { id: 1, tags: vec![], info: info(false, 0), lat: 10, lon: 20 };
    let (s, cache) = p.process_node(&node);
    assert!(matches!(s, Statement::Skip));
    assert!(cache);
    assert_eq!(p.stats.skipped_nodes, 1);
    assert_eq!(p.stats.added_nodes, 0);
}

#[test]
fn node_with_only_ignored_tag_is_skipped() {
    let mut p = Parser::new(10);
    let node = NodeData { id: 1, tags: tags(&[("created_by", "x")]), info: info(false, 0), lat: 0, lon: 0 };
    assert!(matches!(p.process_node(&node).0, Statement::Skip));
}

#[test]
fn node_with_tag_is_created() {
    let mut p = Parser::new(10);
    let node = NodeData {
        id: 42,
        tags: tags(&[("name", "Cafe")]),
        info: info(false, 1_600_000_000_000),
        lat: 525_000_000,
        lon: 134_000_000,
    };
    let (s, cache) = p.process_node(&node);
    assert!(cache);
    match &s {
        Statement::Create { elem, id, ts, .. } => {
            assert_eq!(*elem, Element::Node);
            assert_eq!(*id, 42);
            assert_eq!(*ts, 1_600_000_000_000);
        }
        other => panic!("unexpected {other:?}"),
    }
    let b = body(&s);
    assert!(b.contains("osmt:name \"Cafe\""));
    assert!(b.contains("osmm:loc \"Point(13.4 52.5)\"^^geo:wktLiteral"));
    assert!(b.contains("osmm:type \"n\""));
    assert_eq!(
        b,
        "osmt:name \"Cafe\";\nosmm:loc \"Point(13.4 52.5)\"^^geo:wktLiteral;\nosmm:type \"n\";\nosmm:version \"1\"^^xsd:integer;\nosmm:timestamp \"2020-09-13T12:26:40Z\"^^xsd:dateTime;\nosmm:changeset \"5\"^^xsd:integer.\n"
    );
    assert_eq!(p.stats.added_nodes, 1);
}

#[test]
fn deleted_node_is_reported() {
    let mut p = Parser::new(10);
    let node = NodeData { id: 9, tags: tags(&[("name", "A")]), info: info(true, 0), lat: 0, lon: 0 };
    let (s, cache) = p.process_node(&node);
    assert!(matches!(s, Statement::Delete { elem: Element::Node, id: 9 }));
    assert!(!cache);
    assert_eq!(p.stats.deleted_nodes, 1);
}

fn way(refs: Vec<i64>) -> WayData {
    WayData { id: 7, tags: tags(&[("highway", "path")]), info: info(false, 3), refs }
}

#[test]
fn closed_way() {
    let mut p = Parser::new(10);
    let a = XsdPoint { lat: 10, lon: 20 };
    let b = XsdPoint { lat: 30, lon: 40 };
    let g = WayGeometry { coords: vec![a, b, a], centroid: Some(XsdPoint { lat: 20, lon: 30 }) };
    let s = p.on_way(&way(vec![1, 2, 1]), Ok(g));
    let text = body(&s);
    assert!(text.starts_with(
        "osmt:highway \"path\";\nosmm:type \"w\";\nosmm:isClosed \"true\"^^xsd:boolean;\nosmm:loc \"Point(0.000003 0.000002)\"^^geo:wktLiteral;\n"
    ));
    assert_eq!(p.stats.added_ways, 1);
}

#[test]
fn open_way() {
    let mut p = Parser::new(10);
    let g = WayGeometry {
        coords: vec![XsdPoint { lat: 10, lon: 20 }, XsdPoint { lat: 30, lon: 40 }],
        centroid: None,
    };
    let text = body(&p.on_way(&way(vec![1, 2]), Ok(g)));
    assert!(text.contains("osmm:isClosed \"false\"^^xsd:boolean;\n"));
    assert!(!text.contains("osmm:loc"));
}

#[test]
fn way_geometry_error_is_recorded() {
    let mut p = Parser::new(10);
    let text = body(&p.on_way(&way(vec![1]), Err("no coordinates".to_string())));
    assert!(text.contains("osmm:loc:error \"no coordinates\";\n"));
    assert!(!text.contains("isClosed"));
}

#[test]
fn deleted_way() {
    let mut p = Parser::new(10);
    let w = WayData { id: 8, tags: vec![], info: info(true, 0), refs: vec![] };
    assert!(matches!(p.on_way(&w, Err(String::new())), Statement::Delete { elem: Element::Way, id: 8 }));
    assert_eq!(p.stats.deleted_ways, 1);
}

#[test]
fn relation_member_with_role() {
    let mut p = Parser::new(10);
    let rel = RelationData {
        id: 5,
        tags: vec![],
        info: info(false, 0),
        members: vec![RelMember { member_id: 77, member_type: RelMemberType::Way, role: "outer".to_string() }],
    };
    let text = body(&p.on_relation(&rel));
    assert!(text.starts_with("osmm:type \"r\";\nosmm:has osmway:77;\nosmway:77 \"outer\";\nosmm:version"));
    assert_eq!(p.stats.added_rels, 1);
}

#[test]
fn relation_member_without_role() {
    let mut p = Parser::new(10);
    let rel = RelationData {
        id: 5,
        tags: vec![],
        info: info(false, 0),
        members: vec![RelMember { member_id: 77, member_type: RelMemberType::Way, role: String::new() }],
    };
    let text = body(&p.on_relation(&rel));
    assert!(text.starts_with("osmm:type \"r\";\nosmm:has osmway:77;\nosmm:version"));
    assert!(!text.contains("osmway:77 \""));
}

#[test]
fn deleted_relation() {
    let mut p = Parser::new(10);
    let rel = RelationData { id: 6, tags: vec![], info: info(true, 0), members: vec![] };
    assert!(matches!(p.on_relation(&rel), Statement::Delete { elem: Element::Relation, id: 6 }));
    assert_eq!(p.stats.deleted_rels, 1);
}

#[test]
fn batches_leave_past_the_batch_size() {
    let mut p = Parser::new(2);
    assert!(p.enqueue(Statement::Skip).is_none());
    assert!(p.enqueue(Statement::Delete { elem: Element::Node, id: 1 }).is_none());
    let batch = p.enqueue(Statement::Skip).expect("a full batch");
    assert_eq!(batch.len(), 3);
    assert!(matches!(batch[1], Statement::Delete { id: 1, .. }));
    assert!(p.enqueue(Statement::Skip).is_none());
    p.start_block();
    let (rest, stats) = p.finish();
    assert_eq!(rest.expect("the remainder").len(), 1);
    assert_eq!(stats.blocks, 1);
    let (none, _) = Parser::new(2).finish();
    assert!(none.is_none());
}

fn stats(n: u64) -> Stats {
    Stats {
        added_nodes: n,
        added_rels: n + 1,
        added_ways: n + 2,
        skipped_nodes: n + 3,
        deleted_nodes: n + 4,
        deleted_rels: n + 5,
        deleted_ways: n + 6,
        blocks: 1,
    }
}

fn fields(s: &Stats) -> [u64; 8] {
    [
        s.added_nodes,
        s.added_rels,
        s.added_ways,
        s.skipped_nodes,
        s.deleted_nodes,
        s.deleted_rels,
        s.deleted_ways,
        s.blocks,
    ]
}

#[test]
fn combine_sums_fields() {
    let mut a = stats(1);
    a.combine(stats(10));
    assert_eq!(fields(&a), [11, 13, 15, 17, 19, 21, 23, 2]);
    let mut z = Stats::default();
    z.combine(stats(0));
    assert_eq!(fields(&z), fields(&stats(0)));
}

#[test]
fn combine_order_does_not_matter() {
    let parts = [stats(1), stats(20), stats(300)];
    let mut forward = Stats::default();
    for s in parts.iter() {
        forward.combine(*s);
    }
    let mut backward = Stats::default();
    for s in parts.iter().rev() {
        backward.combine(*s);
    }
    let mut nested = Stats::default();
    let mut pair = parts[2];
    pair.combine(parts[0]);
    nested.combine(parts[1]);
    nested.combine(pair);
    assert_eq!(fields(&forward), fields(&backward));
    assert_eq!(fields(&forward), fields(&nested));
    assert_eq!(fields(&forward)[7], 3);
}

//! The transform stage: one worker turns the elements of one group into
//! statements, counts what it did, and hands statements on in batches.
use vstd::prelude::*;
use crate::escape::string_literal;
use crate::str_builder::{
    clause, member_ref, metadata_text, tags_text, tags_view, StringBuf, XsdBoolean, XsdElement,
    XsdPoint, XsdRelMember, XsdStr, XsdValue,
};
pub use crate::utils::Statement;
use crate::utils::{add_counts, Counts, Element, ElementInfo, RelMember, Stats};

verus! {

/// A node as the decoder hands it over; coordinates in units of 1e-7 degrees.
pub struct NodeData {
    pub id: i64,
    pub tags: Vec<(String, String)>,
    pub info: ElementInfo,
    pub lat: i32,
    pub lon: i32,
}

/// A way as the decoder hands it over.
pub struct WayData {
    pub id: i64,
    pub tags: Vec<(String, String)>,
    pub info: ElementInfo,
    pub refs: Vec<i64>,
}

/// A relation as the decoder hands it over.
pub struct RelationData {
    pub id: i64,
    pub tags: Vec<(String, String)>,
    pub info: ElementInfo,
    pub members: Vec<RelMember>,
}

/// The line of a way: the coordinates of its nodes, in order, and a
/// representative point where the line has one.
pub struct WayGeometry {
    pub coords: Vec<XsdPoint>,
    pub centroid: Option<XsdPoint>,
}

/// A line is closed when its first and last points are the same (an empty
/// line counts as closed).
pub open spec fn is_closed(coords: Seq<XsdPoint>) -> bool {
    coords.len() == 0 || (coords[0].lat == coords.last().lat && coords[0].lon == coords.last().lon)
}

/// The text of a node's block after its tags.
pub open spec fn node_rest(node: NodeData) -> Seq<char> {
    clause("osmm:loc"@, XsdPoint { lat: node.lat, lon: node.lon }.text()) + clause(
        "osmm:type"@,
        XsdElement(Element::Node).text(),
    ) + metadata_text(node.info)
}

/// The clauses that describe a way's line, or the failure to compute it.
pub open spec fn geometry_text(g: Result<WayGeometry, String>) -> Seq<char> {
    match g {
        Ok(g) => clause("osmm:isClosed"@, XsdBoolean(is_closed(g.coords@)).text()) + match g.centroid {
            Some(p) => clause("osmm:loc"@, p.text()),
            None => Seq::empty(),
        },
        Err(e) => clause("osmm:loc:error"@, string_literal(e@)),
    }
}

/// The full block of a way.
pub open spec fn way_text(way: WayData, g: Result<WayGeometry, String>) -> Seq<char> {
    tags_text(tags_view(way.tags@)) + clause("osmm:type"@, XsdElement(Element::Way).text())
        + geometry_text(g) + metadata_text(way.info)
}

/// The clauses of one relation member: membership, and its role where it
/// has one.
pub open spec fn member_text(m: RelMember) -> Seq<char> {
    clause("osmm:has"@, member_ref(m)) + if m.role@.len() == 0 {
        Seq::empty()
    } else {
        clause(member_ref(m), string_literal(m.role@))
    }
}

/// The clauses of a relation's members, in order.
pub open spec fn members_text(ms: Seq<RelMember>) -> Seq<char>
    decreases ms.len(),
{
    if ms.len() == 0 {
        Seq::empty()
    } else {
        members_text(ms.drop_last()) + member_text(ms.last())
    }
}

/// The full block of a relation.
pub open spec fn relation_text(rel: RelationData) -> Seq<char> {
    tags_text(tags_view(rel.tags@)) + clause("osmm:type"@, XsdElement(Element::Relation).text())
        + members_text(rel.members@) + metadata_text(rel.info)
}

/// `s` creates element `id` of kind `elem` at time `ts`, with block `text`.
pub open spec fn is_create(s: Statement, elem: Element, id: i64, ts: i64, text: Seq<char>) -> bool {
    s matches Statement::Create { elem: e, id: i, ts: t, val } && e == elem && i == id && t == ts
        && val@ == text
}

/// The statement for a node.
pub open spec fn node_statement_ok(node: NodeData, s: Statement) -> bool {
    if node.info.is_deleted {
        s == (Statement::Delete { elem: Element::Node, id: node.id })
    } else if tags_text(tags_view(node.tags@)).len() == 0 {
        s is Skip
    } else {
        is_create(
            s,
            Element::Node,
            node.id,
            node.info.milli_timestamp,
            tags_text(tags_view(node.tags@)) + node_rest(node),
        )
    }
}

/// A worker for one element group.
pub struct Parser {
    pub stats: Stats,
    pub batch_size: usize,
    pub pending: Vec<Statement>,
}

impl Parser {
    /// No counter is at its largest value.
    pub open spec fn has_room_spec(&self) -> bool {
        &&& self.stats.added_nodes < u64::MAX
        &&& self.stats.added_rels < u64::MAX
        &&& self.stats.added_ways < u64::MAX
        &&& self.stats.skipped_nodes < u64::MAX
        &&& self.stats.deleted_nodes < u64::MAX
        &&& self.stats.deleted_rels < u64::MAX
        &&& self.stats.deleted_ways < u64::MAX
        &&& self.stats.blocks < u64::MAX
    }

    /// A worker with no statements and all counters at zero.
    pub fn new(batch_size: usize) -> (r: Parser)
        ensures
            r.stats.counts() == crate::utils::zero_counts(),
            r.batch_size == batch_size,
            r.pending@.len() == 0,
    {
        Parser { stats: Stats::zero(), batch_size, pending: Vec::new() }
    }

    /// Whether every counter can still be counted up.
    pub fn has_room(&self) -> (r: bool)
        ensures
            r == self.has_room_spec(),
    {
        self.stats.added_nodes < u64::MAX && self.stats.added_rels < u64::MAX
            && self.stats.added_ways < u64::MAX && self.stats.skipped_nodes < u64::MAX
            && self.stats.deleted_nodes < u64::MAX && self.stats.deleted_rels < u64::MAX
            && self.stats.deleted_ways < u64::MAX && self.stats.blocks < u64::MAX
    }

    /// Turns a node into its statement. The flag says whether the node's
    /// coordinates go into the coordinate cache: they do unless it is deleted.
    pub fn process_node(&mut self, node: &NodeData) -> (r: (Statement, bool))
        requires
            old(self).has_room_spec(),
            node.info.wf(),
        ensures
            node_statement_ok(*node, r.0),
            r.1 == !node.info.is_deleted,
            final(self).stats.counts() == add_counts(old(self).stats.counts(), node_delta(*node)),
            final(self).batch_size == old(self).batch_size,
            final(self).pending == old(self).pending,
    {
        if node.info.is_deleted {
            self.stats.deleted_nodes += 1;
            return (Statement::Delete { elem: Element::Node, id: node.id }, false);
        }
        let mut value = StringBuf::new(0);
        value.add_tags(node.tags.as_slice());
        if value.is_empty() {
            self.stats.skipped_nodes += 1;
            return (Statement::Skip, true);
        }
        value.add_value("osmm:loc", &XsdPoint { lat: node.lat, lon: node.lon });
        value.add_value("osmm:type", &XsdElement(Element::Node));
        self.stats.added_nodes += 1;
        let val = value.finalize(&node.info);
        assert(val@ =~= tags_text(tags_view(node.tags@)) + node_rest(*node));
        (Statement::Create { elem: Element::Node, id: node.id, ts: node.info.milli_timestamp, val }, true)
    }

    /// Turns a way into its statement, given its line as the geometry kernel
    /// computed it.
    pub fn on_way(&mut self, way: &WayData, geometry: Result<WayGeometry, String>) -> (r: Statement)
        requires
            old(self).has_room_spec(),
            way.info.wf(),
        ensures
            way.info.is_deleted ==> r == (Statement::Delete { elem: Element::Way, id: way.id }),
            !way.info.is_deleted ==> is_create(
                r,
                Element::Way,
                way.id,
                way.info.milli_timestamp,
                way_text(*way, geometry),
            ),
            final(self).stats.counts() == add_counts(
                old(self).stats.counts(),
                if way.info.is_deleted { (0, 0, 0, 0, 0, 0, 1, 0) } else { (0, 0, 1, 0, 0, 0, 0, 0) },
            ),
            final(self).batch_size == old(self).batch_size,
            final(self).pending == old(self).pending,
    {
        if way.info.is_deleted {
            self.stats.deleted_ways += 1;
            return Statement::Delete { elem: Element::Way, id: way.id };
        }
        let mut value = StringBuf::new(0);
        value.add_tags(way.tags.as_slice());
        value.add_value("osmm:type", &XsdElement(Element::Way));
        let ghost head = value@;
        match &geometry {
            Ok(g) => {
                let n = g.coords.len();
                let closed = n == 0 || (g.coords[0].lat == g.coords[n - 1].lat && g.coords[0].lon
                    == g.coords[n - 1].lon);
                value.add_value("osmm:isClosed", &XsdBoolean(closed));
                match &g.centroid {
                    Some(p) => value.add_value("osmm:loc", p),
                    None => {},
                }
            },
            Err(e) => value.add_value("osmm:loc:error", &XsdStr(e.as_str())),
        }
        self.stats.added_ways += 1;
        assert(value@ =~= head + geometry_text(geometry));
        let val = value.finalize(&way.info);
        assert(val@ =~= way_text(*way, geometry));
        Statement::Create { elem: Element::Way, id: way.id, ts: way.info.milli_timestamp, val }
    }

    /// Turns a relation into its statement.
    pub fn on_relation(&mut self, rel: &RelationData) -> (r: Statement)
        requires
            old(self).has_room_spec(),
            rel.info.wf(),
        ensures
            rel.info.is_deleted ==> r == (Statement::Delete { elem: Element::Relation, id: rel.id }),
            !rel.info.is_deleted ==> is_create(
                r,
                Element::Relation,
                rel.id,
                rel.info.milli_timestamp,
                relation_text(*rel),
            ),
            final(self).stats.counts() == add_counts(
                old(self).stats.counts(),
                if rel.info.is_deleted { (0, 0, 0, 0, 0, 1, 0, 0) } else { (0, 1, 0, 0, 0, 0, 0, 0) },
            ),
            final(self).batch_size == old(self).batch_size,
            final(self).pending == old(self).pending,
    {
        if rel.info.is_deleted {
            self.stats.deleted_rels += 1;
            return Statement::Delete { elem: Element::Relation, id: rel.id };
        }
        let mut value = StringBuf::new(0);
        value.add_tags(rel.tags.as_slice());
        value.add_value("osmm:type", &XsdElement(Element::Relation));
        let ghost start = value@;
        let mut i: usize = 0;
        while i < rel.members.len()
            invariant
                i <= rel.members@.len(),
                value@ == start + members_text(rel.members@.take(i as int)),
            decreases rel.members@.len() - i,
        {
            let m = &rel.members[i];
            value.add_value("osmm:has", &XsdRelMember(m));
            if !m.role.as_str().is_empty() {
                let r = XsdRelMember(m).render();
                value.add_value(r.as_str(), &XsdStr(m.role.as_str()));
            }
            i += 1;
            assert(rel.members@.take(i as int).drop_last() == rel.members@.take(i - 1));
        }
        assert(rel.members@.take(i as int) == rel.members@);
        self.stats.added_rels += 1;
        let val = value.finalize(&rel.info);
        assert(val@ =~= relation_text(*rel));
        Statement::Create { elem: Element::Relation, id: rel.id, ts: rel.info.milli_timestamp, val }
    }

    /// Takes one statement. Once more than `batch_size` statements wait, they
    /// leave together as one batch, in the order they came.
    pub fn enqueue(&mut self, s: Statement) -> (r: Option<Vec<Statement>>)
        ensures
            old(self).pending@.len() + 1 > old(self).batch_size ==> (r matches Some(b) && b@
                == old(self).pending@.push(s) && final(self).pending@.len() == 0),
            old(self).pending@.len() + 1 <= old(self).batch_size ==> (r is None
                && final(self).pending@ == old(self).pending@.push(s)),
            final(self).stats == old(self).stats,
            final(self).batch_size == old(self).batch_size,
    {
        self.pending.push(s);
        if self.pending.len() > self.batch_size {
            let mut full: Vec<Statement> = Vec::new();
            std::mem::swap(&mut full, &mut self.pending);
            Some(full)
        } else {
            None
        }
    }

    /// Counts the start of a new element group.
    pub fn start_block(&mut self)
        requires
            old(self).has_room_spec(),
        ensures
            final(self).stats.counts() == add_counts(
                old(self).stats.counts(),
                (0, 0, 0, 0, 0, 0, 0, 1),
            ),
            final(self).batch_size == old(self).batch_size,
            final(self).pending == old(self).pending,
    {
        self.stats.blocks += 1;
    }

    /// Ends the worker's run: the statements that still wait, if any, and its
    /// counters.
    pub fn finish(self) -> (r: (Option<Vec<Statement>>, Stats))
        ensures
            self.pending@.len() == 0 ==> r.0 is None,
            self.pending@.len() > 0 ==> (r.0 matches Some(b) && b@ == self.pending@),
            r.1 == self.stats,
    {
        let Parser { stats, batch_size: _, pending } = self;
        if pending.len() == 0 {
            (None, stats)
        } else {
            (Some(pending), stats)
        }
    }
}

/// How a node changes the counters.
pub open spec fn node_delta(node: NodeData) -> Counts {
    if node.info.is_deleted {
        (0, 0, 0, 0, 1, 0, 0, 0)
    } else if tags_text(tags_view(node.tags@)).len() == 0 {
        (0, 0, 0, 1, 0, 0, 0, 0)
    } else {
        (1, 0, 0, 0, 0, 0, 0, 0)
    }
}


/// A node without tags is skipped, whatever its coordinates.
pub proof fn lemma_untagged_node_skipped(node: NodeData, s: Statement)
    requires
        node.tags@.len() == 0,
        !node.info.is_deleted,
        node_statement_ok(node, s),
    ensures
        s is Skip,
{
    assert(tags_view(node.tags@).len() == 0);
}

/// A way whose first and last node are the same node has a closed line, when
/// each point of the line is the one looked up for its node; a line whose
/// first and last points differ is open. The way's block says which.
pub proof fn lemma_way_closed(way: WayData, g: WayGeometry)
    requires
        g.coords@.len() == way.refs@.len(),
        forall|i: int, j: int|
            0 <= i < way.refs@.len() && 0 <= j < way.refs@.len() && way.refs@[i] == way.refs@[j]
                ==> #[trigger] g.coords@[i] == #[trigger] g.coords@[j],
    ensures
        way.refs@.len() > 0 && way.refs@[0] == way.refs@.last() ==> is_closed(g.coords@),
        g.coords@.len() > 0 && (g.coords@[0].lat != g.coords@.last().lat || g.coords@[0].lon
            != g.coords@.last().lon) ==> !is_closed(g.coords@),
        geometry_text(Ok(g)) == clause("osmm:isClosed"@, XsdBoolean(is_closed(g.coords@)).text())
            + match g.centroid {
            Some(p) => clause("osmm:loc"@, p.text()),
            None => Seq::empty(),
        },
{
    if way.refs@.len() > 0 && way.refs@[0] == way.refs@.last() {
        let n = way.refs@.len() - 1;
        assert(way.refs@[0] == way.refs@[n]);
        assert(g.coords@[0] == g.coords@[n]);
    }
}

} // verus!

//! The data that flows through the pipeline: element kinds and their
//! revision metadata, the statements that workers hand to the writer, and
//! the run statistics.
use vstd::prelude::*;
use crate::str_builder::StringBuf;

verus! {

/// Timestamps, in milliseconds either side of the epoch, that always have a
/// calendar form.
pub const TIMESTAMP_LIMIT_MS: i64 = 8_000_000_000_000_000;

/// The ISO-8601 UTC form (`YYYY-MM-DDTHH:MM:SSZ`) of a millisecond timestamp.
pub uninterp spec fn utc_text(milli_timestamp: int) -> Seq<char>;

/// Relies on chrono's `DateTime::from_timestamp_millis`, which gives `None`
/// only outside `DateTime::MIN_UTC ..= DateTime::MAX_UTC` (years -262143 to
/// 262142), and on `DateTime::format` of the result with
/// `%Y-%m-%dT%H:%M:%SZ`.
#[verifier::external_body]
pub fn to_utc(milli_timestamp: i64) -> (r: Option<String>)
    ensures
        r matches Some(t) ==> t@ == utc_text(milli_timestamp as int),
        -TIMESTAMP_LIMIT_MS <= milli_timestamp <= TIMESTAMP_LIMIT_MS ==> r is Some,
{
    chrono::DateTime::from_timestamp_millis(milli_timestamp).map(
        |t| t.format("%Y-%m-%dT%H:%M:%SZ").to_string(),
    )
}

/// Counters of one worker, or of the whole run.
#[derive(Clone, Copy, Debug)]
pub struct Stats {
    pub added_nodes: u64,
    pub added_rels: u64,
    pub added_ways: u64,
    pub skipped_nodes: u64,
    pub deleted_nodes: u64,
    pub deleted_rels: u64,
    pub deleted_ways: u64,
    pub blocks: u64,
}

/// The counters of a `Stats`, in field order, as mathematical integers.
pub type Counts = (int, int, int, int, int, int, int, int);

/// Field-by-field sum of two sets of counters.
pub open spec fn add_counts(a: Counts, b: Counts) -> Counts {
    (a.0 + b.0, a.1 + b.1, a.2 + b.2, a.3 + b.3, a.4 + b.4, a.5 + b.5, a.6 + b.6, a.7 + b.7)
}

pub open spec fn zero_counts() -> Counts {
    (0, 0, 0, 0, 0, 0, 0, 0)
}

/// The field-by-field sum of a sequence of counters.
pub open spec fn total(s: Seq<Counts>) -> Counts
    decreases s.len(),
{
    if s.len() == 0 {
        zero_counts()
    } else {
        add_counts(total(s.drop_last()), s.last())
    }
}

impl Stats {
    pub open spec fn counts(&self) -> Counts {
        (
            self.added_nodes as int,
            self.added_rels as int,
            self.added_ways as int,
            self.skipped_nodes as int,
            self.deleted_nodes as int,
            self.deleted_rels as int,
            self.deleted_ways as int,
            self.blocks as int,
        )
    }

    /// Every field of the sum of `self` and `other` fits in a `u64`.
    pub open spec fn can_combine(&self, other: &Stats) -> bool {
        let c = add_counts(self.counts(), other.counts());
        &&& c.0 <= u64::MAX
        &&& c.1 <= u64::MAX
        &&& c.2 <= u64::MAX
        &&& c.3 <= u64::MAX
        &&& c.4 <= u64::MAX
        &&& c.5 <= u64::MAX
        &&& c.6 <= u64::MAX
        &&& c.7 <= u64::MAX
    }

    /// Whether `other` can be added to `self` without a counter overflowing.
    pub fn fits_with(&self, other: &Stats) -> (r: bool)
        ensures
            r == self.can_combine(other),
    {
        self.added_nodes <= u64::MAX - other.added_nodes
            && self.added_rels <= u64::MAX - other.added_rels
            && self.added_ways <= u64::MAX - other.added_ways
            && self.skipped_nodes <= u64::MAX - other.skipped_nodes
            && self.deleted_nodes <= u64::MAX - other.deleted_nodes
            && self.deleted_rels <= u64::MAX - other.deleted_rels
            && self.deleted_ways <= u64::MAX - other.deleted_ways
            && self.blocks <= u64::MAX - other.blocks
    }

    /// All counters at zero.
    pub fn zero() -> (r: Stats)
        ensures
            r.counts() == zero_counts(),
    {
        Stats {
            added_nodes: 0,
            added_rels: 0,
            added_ways: 0,
            skipped_nodes: 0,
            deleted_nodes: 0,
            deleted_rels: 0,
            deleted_ways: 0,
            blocks: 0,
        }
    }

    /// Adds the counters of `other` to those of `self`, field by field.
    pub fn combine(&mut self, other: Stats)
        requires
            old(self).can_combine(&other),
        ensures
            final(self).counts() == add_counts(old(self).counts(), other.counts()),
    {
        self.added_nodes += other.added_nodes;
        self.added_rels += other.added_rels;
        self.added_ways += other.added_ways;
        self.skipped_nodes += other.skipped_nodes;
        self.deleted_nodes += other.deleted_nodes;
        self.deleted_rels += other.deleted_rels;
        self.deleted_ways += other.deleted_ways;
        self.blocks += other.blocks;
    }
}

impl Default for Stats {
    fn default() -> (r: Stats)
        ensures
            r.counts() == zero_counts(),
    {
        Stats::zero()
    }
}

proof fn lemma_total_remove(s: Seq<Counts>, j: int)
    requires
        0 <= j < s.len(),
    ensures
        total(s) == add_counts(total(s.remove(j)), s[j]),
    decreases s.len(),
{
    if j == s.len() - 1 {
        assert(s.remove(j) == s.drop_last());
    } else {
        lemma_total_remove(s.drop_last(), j);
        assert(s.remove(j).drop_last() == s.drop_last().remove(j));
        assert(s.remove(j).last() == s.last());
    }
}

/// Merging counters gives the same totals in whatever order they come:
/// two sequences that hold the same counters, each as often, sum to the
/// same counters field by field.
pub proof fn lemma_merge_order_independent(a: Seq<Counts>, b: Seq<Counts>)
    requires
        a.to_multiset() == b.to_multiset(),
    ensures
        total(a) == total(b),
    decreases a.len(),
{
    broadcast use vstd::seq_lib::group_to_multiset_ensures;

    if a.len() == 0 {
        assert(b.len() == 0) by {
            vstd::seq_lib::to_multiset_len(b);
        }
    } else {
        let x = a.last();
        assert(a.drop_last().push(x) == a);
        vstd::seq_lib::to_multiset_build(a.drop_last(), x);
        assert(b.to_multiset().count(x) > 0);
        vstd::seq_lib::to_multiset_contains(b, x);
        let j = choose|j: int| 0 <= j < b.len() && b[j] == x;
        vstd::seq_lib::to_multiset_remove(b, j);
        assert(a.drop_last().to_multiset() =~= b.remove(j).to_multiset());
        lemma_merge_order_independent(a.drop_last(), b.remove(j));
        lemma_total_remove(b, j);
    }
}

/// What an element turned into, handed from a worker to the writer.
#[derive(Debug)]
pub enum Statement {
    Skip,
    Delete { elem: Element, id: i64 },
    Create { elem: Element, id: i64, ts: i64, val: StringBuf },
}

/// The three kinds of elements.
#[derive(Clone, Copy, Debug, PartialEq, Eq, Structural)]
pub enum Element {
    Node,
    Way,
    Relation,
}

impl Element {
    /// The namespace prefix of elements of this kind.
    pub open spec fn spec_namespace(self) -> Seq<char> {
        match self {
            Element::Node => "osmnode"@,
            Element::Way => "osmway"@,
            Element::Relation => "osmrel"@,
        }
    }

    /// The namespace prefix of elements of this kind.
    pub fn namespace(&self) -> (r: &'static str)
        ensures
            r@ == self.spec_namespace(),
    {
        match self {
            Element::Node => "osmnode",
            Element::Way => "osmway",
            Element::Relation => "osmrel",
        }
    }
}

/// Revision metadata of an element.
#[derive(Debug)]
pub struct ElementInfo {
    pub is_deleted: bool,
    pub version: i32,
    pub user: Option<String>,
    pub milli_timestamp: i64,
    pub changeset: i64,
}

impl ElementInfo {
    /// The timestamp has a calendar form.
    pub open spec fn wf(&self) -> bool {
        -TIMESTAMP_LIMIT_MS <= self.milli_timestamp <= TIMESTAMP_LIMIT_MS
    }
}

/// The kind of element that a relation member refers to.
#[derive(Clone, Copy, Debug, PartialEq, Eq, Structural)]
pub enum RelMemberType {
    Node,
    Way,
    Relation,
}

/// One member of a relation.
#[derive(Debug)]
pub struct RelMember {
    pub member_id: i64,
    pub member_type: RelMemberType,
    pub role: String,
}

} // verus!

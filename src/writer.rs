//! The output writer: a state machine that takes statements one by one and
//! says what to do with the output files, rotating them by size, and at the
//! end writes the file that records the latest timestamp seen.
use vstd::prelude::*;
use crate::parser::Statement;
use crate::str_builder::{StringBuf, XsdDateTime, XsdValue};
use crate::text::{int_text, nat_text, push_char, push_i64, push_str, push_u64};
use crate::utils::{Element, TIMESTAMP_LIMIT_MS};
use vstd::utf8::encode_utf8;

verus! {

/// One thing for the caller to do with the output files.
pub enum WriteOp {
    /// Create a new compressed file of this name; it becomes the current one.
    Open(String),
    /// Append this text to the current file.
    Write(String),
    /// Finish the current file.
    Close,
    /// Tell the operator this message; nothing is written.
    Report(String),
}

/// A `WriteOp` with its texts as character sequences.
pub enum WriteOpView {
    Open(Seq<char>),
    Write(Seq<char>),
    Close,
    Report(Seq<char>),
}

impl View for WriteOp {
    type V = WriteOpView;

    open spec fn view(&self) -> WriteOpView {
        match self {
            WriteOp::Open(s) => WriteOpView::Open(s@),
            WriteOp::Write(s) => WriteOpView::Write(s@),
            WriteOp::Close => WriteOpView::Close,
            WriteOp::Report(s) => WriteOpView::Report(s@),
        }
    }
}

pub open spec fn ops_view(ops: Seq<WriteOp>) -> Seq<WriteOpView> {
    ops.map_values(|o: WriteOp| o@)
}

/// `@prefix ...` and `.` on a line of its own.
pub open spec fn prefix_line(p: Seq<char>) -> Seq<char> {
    seq!['@'] + p + seq!['.', '\n']
}

/// The namespace prefixes that every output file starts with.
pub open spec fn header_text() -> Seq<char> {
    prefix_line("prefix wd: <http://www.wikidata.org/entity/>"@) + prefix_line(
        "prefix xsd: <http://www.w3.org/2001/XMLSchema#>"@,
    ) + prefix_line("prefix geo: <http://www.opengis.net/ont/geosparql#>"@) + prefix_line(
        "prefix schema: <http://schema.org/>"@,
    ) + prefix_line("prefix osmroot: <https://www.openstreetmap.org>"@) + prefix_line(
        "prefix osmnode: <https://www.openstreetmap.org/node/>"@,
    ) + prefix_line("prefix osmway: <https://www.openstreetmap.org/way/>"@) + prefix_line(
        "prefix osmrel: <https://www.openstreetmap.org/relation/>"@,
    ) + prefix_line("prefix osmt: <https://wiki.openstreetmap.org/wiki/Key:>"@) + prefix_line(
        "prefix osmm: <https://www.openstreetmap.org/meta/>"@,
    )
}

fn push_prefix_line(s: &mut String, p: &str)
    ensures
        final(s)@ == old(s)@ + prefix_line(p@),
{
    push_char(s, '@');
    push_str(s, p);
    push_char(s, '.');
    push_char(s, '\n');
}

/// The namespace prefixes that every output file starts with.
pub fn header() -> (r: String)
    ensures
        r@ == header_text(),
{
    let mut s = String::new();
    push_prefix_line(&mut s, "prefix wd: <http://www.wikidata.org/entity/>");
    push_prefix_line(&mut s, "prefix xsd: <http://www.w3.org/2001/XMLSchema#>");
    push_prefix_line(&mut s, "prefix geo: <http://www.opengis.net/ont/geosparql#>");
    push_prefix_line(&mut s, "prefix schema: <http://schema.org/>");
    push_prefix_line(&mut s, "prefix osmroot: <https://www.openstreetmap.org>");
    push_prefix_line(&mut s, "prefix osmnode: <https://www.openstreetmap.org/node/>");
    push_prefix_line(&mut s, "prefix osmway: <https://www.openstreetmap.org/way/>");
    push_prefix_line(&mut s, "prefix osmrel: <https://www.openstreetmap.org/relation/>");
    push_prefix_line(&mut s, "prefix osmt: <https://wiki.openstreetmap.org/wiki/Key:>");
    push_prefix_line(&mut s, "prefix osmm: <https://www.openstreetmap.org/meta/>");
    assert(s@ =~= header_text());
    s
}

/// `s` with zeros in front up to `w` characters.
pub open spec fn zero_padded(s: Seq<char>, w: nat) -> Seq<char> {
    if s.len() >= w {
        s
    } else {
        Seq::new((w - s.len()) as nat, |i: int| '0') + s
    }
}

/// The name of the output file with this index: `osm-NNNNNN.ttl.gz`.
pub open spec fn file_name_text(index: nat) -> Seq<char> {
    "osm-"@ + zero_padded(nat_text(index), 6) + ".ttl.gz"@
}

/// The name of the output file with this index.
pub fn file_name(index: u32) -> (r: String)
    ensures
        r@ == file_name_text(index as nat),
{
    let mut digits = String::new();
    push_u64(&mut digits, index as u64);
    let n = digits.as_str().unicode_len();
    let mut s = String::new();
    push_str(&mut s, "osm-");
    let ghost start = s@;
    let mut k: usize = n;
    while k < 6
        invariant
            n <= k <= 6 || (n > 6 && k == n),
            n == nat_text(index as nat).len(),
            s@ == start + Seq::new((k - n) as nat, |i: int| '0'),
        decreases 6 - k,
    {
        push_char(&mut s, '0');
        k += 1;
        assert(s@ =~= start + Seq::new((k - n) as nat, |i: int| '0'));
    }
    push_str(&mut s, digits.as_str());
    push_str(&mut s, ".ttl.gz");
    assert(s@ =~= file_name_text(index as nat));
    s
}

/// The text written for a created element: a blank line, `namespace:id`,
/// and the element's block.
pub open spec fn element_chunk(elem: Element, id: i64, val: Seq<char>) -> Seq<char> {
    seq!['\n'] + elem.spec_namespace() + seq![':'] + int_text(id as int) + seq!['\n'] + val
}

/// The message for a deletion, which the output cannot express.
pub open spec fn delete_message(elem: Element, id: i64) -> Seq<char> {
    "Delete "@ + elem.spec_namespace() + seq![':'] + int_text(id as int) + " is not supported"@
}

/// The statement written last, recording when the data was last modified.
pub open spec fn trailer_text(ts: i64) -> Seq<char> {
    "\nosmroot: schema:dateModified "@ + XsdDateTime(ts).text() + seq!['.', '\n']
}

/// Number of bytes of the UTF-8 form of `s`.
pub open spec fn byte_len(s: Seq<char>) -> nat {
    encode_utf8(s).len()
}

pub open spec fn sum(s: Seq<nat>) -> nat
    decreases s.len(),
{
    if s.len() == 0 {
        0
    } else {
        sum(s.drop_last()) + s.last()
    }
}

pub open spec fn flatten(s: Seq<Seq<nat>>) -> Seq<nat>
    decreases s.len(),
{
    if s.len() == 0 {
        Seq::empty()
    } else {
        flatten(s.drop_last()) + s.last()
    }
}

/// The largest element of a non-empty sequence.
pub open spec fn max_of(s: Seq<i64>) -> i64
    decreases s.len(),
{
    if s.len() <= 1 {
        s[0]
    } else {
        let m = max_of(s.drop_last());
        if s.last() > m {
            s.last()
        } else {
            m
        }
    }
}

/// The single consumer of statements.
pub struct OutputWriter {
    /// Files are rotated once their elements' bytes exceed this.
    pub max_file_size: usize,
    /// Bytes of element text in the current file.
    pub size: usize,
    /// Whether a data file is open.
    pub open: bool,
    /// Index of the next file to create.
    pub file_index: u32,
    /// Largest timestamp of the created elements seen.
    pub max_ts: Option<i64>,
    /// For each data file so far, the byte size of each element written to it.
    pub files: Ghost<Seq<Seq<nat>>>,
    /// The byte size of each element written, in order.
    pub writes: Ghost<Seq<nat>>,
    /// The timestamp of each created element, in order of arrival.
    pub seen: Ghost<Seq<i64>>,
}

impl OutputWriter {
    pub open spec fn wf(&self) -> bool {
        let files = self.files@;
        &&& self.file_index as nat == files.len()
        &&& flatten(files) == self.writes@
        &&& forall|i: int| 0 <= i < files.len() ==> (#[trigger] files[i]).len() > 0
        &&& forall|i: int| 0 <= i < files.len() ==> sum((#[trigger] files[i]).drop_last()) <= self.max_file_size
        &&& forall|i: int| 0 <= i < files.len() && (i < files.len() - 1 || !self.open)
            ==> sum(#[trigger] files[i]) > self.max_file_size
        &&& self.open ==> files.len() > 0 && self.size == sum(files.last()) && self.size <= self.max_file_size
        &&& !self.open ==> self.size == 0
        &&& forall|i: int| 0 <= i < self.seen@.len() ==> -TIMESTAMP_LIMIT_MS <= #[trigger] self.seen@[i] <= TIMESTAMP_LIMIT_MS
        &&& self.seen@.len() == 0 ==> self.max_ts is None
        &&& self.seen@.len() > 0 ==> self.max_ts == Some(max_of(self.seen@))
    }

    /// A writer that has written nothing yet.
    pub fn new(max_file_size: usize) -> (r: OutputWriter)
        ensures
            r.wf(),
            r.max_file_size == max_file_size,
            r.files@.len() == 0,
            r.seen@.len() == 0,
            !r.open,
    {
        OutputWriter {
            max_file_size,
            size: 0,
            open: false,
            file_index: 0,
            max_ts: None,
            files: Ghost(Seq::empty()),
            writes: Ghost(Seq::empty()),
            seen: Ghost(Seq::empty()),
        }
    }

    /// The operations for a created element: open a file first when none is
    /// open, write the element, and close the file once its elements' bytes
    /// exceed the limit.
    pub open spec fn create_ops(&self, elem: Element, id: i64, val: Seq<char>) -> Seq<WriteOpView> {
        let chunk = element_chunk(elem, id, val);
        let before: nat = if self.open { self.size as nat } else { 0 };
        let opening = if self.open {
            Seq::empty()
        } else {
            seq![WriteOpView::Open(file_name_text(self.file_index as nat)), WriteOpView::Write(header_text())]
        };
        opening + seq![WriteOpView::Write(chunk)] + if before + byte_len(chunk) > self.max_file_size {
            seq![WriteOpView::Close]
        } else {
            Seq::empty()
        }
    }

    /// The timestamp that the last file records: the largest seen, or zero
    /// when no element was created.
    pub open spec fn last_modified(&self) -> i64 {
        if self.seen@.len() == 0 {
            0
        } else {
            max_of(self.seen@)
        }
    }

    /// Takes one statement and says what to do with the files.
    pub fn on_statement(&mut self, s: Statement) -> (r: Vec<WriteOp>)
        requires
            old(self).wf(),
            old(self).file_index < u32::MAX,
            s matches Statement::Create { ts, .. } ==> -TIMESTAMP_LIMIT_MS <= ts <= TIMESTAMP_LIMIT_MS,
        ensures
            final(self).wf(),
            final(self).max_file_size == old(self).max_file_size,
            s is Skip ==> r@.len() == 0 && *final(self) == *old(self),
            s matches Statement::Delete { elem, id } ==> ops_view(r@) == seq![
                WriteOpView::Report(delete_message(elem, id)),
            ] && *final(self) == *old(self),
            s matches Statement::Create { elem, id, ts, val } ==> {
                &&& ops_view(r@) == old(self).create_ops(elem, id, val@)
                &&& final(self).seen@ == old(self).seen@.push(ts)
                &&& final(self).writes@ == old(self).writes@.push(
                    byte_len(element_chunk(elem, id, val@)),
                )
            },
    {
        let mut ops: Vec<WriteOp> = Vec::new();
        match s {
            Statement::Skip => {},
            Statement::Delete { elem, id } => {
                let mut m = String::new();
                push_str(&mut m, "Delete ");
                push_str(&mut m, elem.namespace());
                push_char(&mut m, ':');
                push_i64(&mut m, id);
                push_str(&mut m, " is not supported");
                assert(m@ =~= delete_message(elem, id));
                ops.push(WriteOp::Report(m));
                assert(ops_view(ops@) =~= seq![WriteOpView::Report(delete_message(elem, id))]);
            },
            Statement::Create { elem, id, ts, val } => {
                let ghost old_self = *self;
                self.max_ts = match self.max_ts {
                    Some(m) => Some(if ts > m { ts } else { m }),
                    None => Some(ts),
                };
                self.seen = Ghost(self.seen@.push(ts));
                proof {
                    assert(self.seen@.drop_last() =~= old_self.seen@);
                }
                let was_open = self.open;
                if !self.open {
                    ops.push(WriteOp::Open(file_name(self.file_index)));
                    ops.push(WriteOp::Write(header()));
                    self.file_index += 1;
                    self.open = true;
                }
                let mut chunk = String::new();
                push_char(&mut chunk, '\n');
                push_str(&mut chunk, elem.namespace());
                push_char(&mut chunk, ':');
                push_i64(&mut chunk, id);
                push_char(&mut chunk, '\n');
                push_str(&mut chunk, val.buf.as_str());
                assert(chunk@ =~= element_chunk(elem, id, val@));
                let len = chunk.as_str().as_bytes().len();
                assert(len as nat == byte_len(chunk@));
                let ghost chunk_view = chunk@;
                ops.push(WriteOp::Write(chunk));
                let ghost n = old_self.files@.len();
                let ghost new_files = if was_open {
                    old_self.files@.update(n - 1, old_self.files@[n - 1].push(len as nat))
                } else {
                    old_self.files@.push(seq![len as nat])
                };
                proof {
                    if was_open {
                        assert(new_files.drop_last() =~= old_self.files@.drop_last());
                        assert(old_self.files@ =~= old_self.files@.drop_last().push(old_self.files@[n - 1]));
                        assert(flatten(old_self.files@) == flatten(old_self.files@.drop_last()) + old_self.files@[n - 1]);
                        assert(new_files.last().drop_last() == old_self.files@[n - 1]);
                    } else {
                        assert(new_files.drop_last() =~= old_self.files@);
                        assert(seq![len as nat].drop_last() == Seq::<nat>::empty());
                    }
                    assert(flatten(new_files) =~= old_self.writes@.push(len as nat));
                }
                self.files = Ghost(new_files);
                self.writes = Ghost(old_self.writes@.push(len as nat));
                let before: usize = if was_open { self.size } else { 0 };
                let total: u128 = before as u128 + len as u128;
                if total > self.max_file_size as u128 {
                    ops.push(WriteOp::Close);
                    self.open = false;
                    self.size = 0;
                } else {
                    self.size = total as usize;
                }
                proof {
                    let k = ops@.len() as int;
                    if was_open {
                        assert(ops@[0]@ == WriteOpView::Write(chunk_view));
                    } else {
                        assert(ops@[0]@ == WriteOpView::Open(file_name_text(old_self.file_index as nat)));
                        assert(ops@[1]@ == WriteOpView::Write(header_text()));
                        assert(ops@[2]@ == WriteOpView::Write(chunk_view));
                    }
                    assert(ops_view(ops@) =~= old_self.create_ops(elem, id, val@));
                    let files = self.files@;
                    assert(self.file_index as nat == files.len());
                    assert(flatten(files) == self.writes@);
                    assert(forall|i: int| 0 <= i < files.len() ==> (#[trigger] files[i]).len() > 0);
                    assert(forall|i: int| 0 <= i < files.len() ==> sum((#[trigger] files[i]).drop_last()) <= self.max_file_size);
                    assert(forall|i: int| 0 <= i < files.len() && (i < files.len() - 1 || !self.open)
                        ==> sum(#[trigger] files[i]) > self.max_file_size);
                    assert(self.open ==> files.len() > 0 && self.size == sum(files.last()) && self.size <= self.max_file_size);
                    assert(self.seen@.len() > 0 ==> self.max_ts == Some(max_of(self.seen@)));
                }
            },
        }
        ops
    }

    /// Ends the run: closes the current file, if one is open, and writes a
    /// last file that records the latest timestamp seen.
    pub fn finish(self) -> (r: Vec<WriteOp>)
        requires
            self.wf(),
        ensures
            ops_view(r@) == (if self.open {
                seq![WriteOpView::Close]
            } else {
                Seq::empty()
            }) + seq![
                WriteOpView::Open(file_name_text(self.file_index as nat)),
                WriteOpView::Write(header_text()),
                WriteOpView::Write(trailer_text(self.last_modified())),
                WriteOpView::Close,
            ],
    {
        let mut ops: Vec<WriteOp> = Vec::new();
        if self.open {
            ops.push(WriteOp::Close);
        }
        let ts: i64 = match self.max_ts {
            Some(m) => m,
            None => 0,
        };
        proof {
            if self.seen@.len() > 0 {
                lemma_max_of(self.seen@);
            }
        }
        let mut t = String::new();
        push_str(&mut t, "\nosmroot: schema:dateModified ");
        let d = XsdDateTime(ts).render();
        push_str(&mut t, d.as_str());
        push_char(&mut t, '.');
        push_char(&mut t, '\n');
        assert(t@ =~= trailer_text(self.last_modified()));
        ops.push(WriteOp::Open(file_name(self.file_index)));
        ops.push(WriteOp::Write(header()));
        ops.push(WriteOp::Write(t));
        ops.push(WriteOp::Close);
        proof {
            let k: int = if self.open { 1 } else { 0 };
            assert(ops@[k]@ == WriteOpView::Open(file_name_text(self.file_index as nat)));
            assert(ops@[k + 1]@ == WriteOpView::Write(header_text()));
            assert(ops@[k + 2]@ == WriteOpView::Write(trailer_text(self.last_modified())));
        }
        assert(ops_view(ops@) =~= (if self.open {
            seq![WriteOpView::Close]
        } else {
            Seq::empty()
        }) + seq![
            WriteOpView::Open(file_name_text(self.file_index as nat)),
            WriteOpView::Write(header_text()),
            WriteOpView::Write(trailer_text(self.last_modified())),
            WriteOpView::Close,
        ]);
        ops
    }
}

/// `max_of(s)` is an element of `s`, and no element is larger.
pub proof fn lemma_max_of(s: Seq<i64>)
    requires
        s.len() > 0,
    ensures
        exists|i: int| 0 <= i < s.len() && s[i] == max_of(s),
        forall|i: int| 0 <= i < s.len() ==> s[i] <= max_of(s),
    decreases s.len(),
{
    if s.len() > 1 {
        lemma_max_of(s.drop_last());
        let i = choose|i: int| 0 <= i < s.len() - 1 && s.drop_last()[i] == max_of(s.drop_last());
        assert(s[i] == s.drop_last()[i]);
        assert forall|j: int| 0 <= j < s.len() implies s[j] <= max_of(s) by {
            if j < s.len() - 1 {
                assert(s[j] == s.drop_last()[j]);
            }
        }
    } else {
        assert(s[0] == max_of(s));
    }
}

/// The latest timestamp does not depend on the order in which statements
/// arrive: two arrival orders of the same timestamps give the same maximum.
pub proof fn lemma_last_modified_order_independent(a: Seq<i64>, b: Seq<i64>)
    requires
        a.to_multiset() == b.to_multiset(),
        a.len() > 0,
    ensures
        max_of(a) == max_of(b),
        b.len() > 0,
{
    vstd::seq_lib::to_multiset_len(a);
    vstd::seq_lib::to_multiset_len(b);
    lemma_max_of(a);
    lemma_max_of(b);
    let i = choose|i: int| 0 <= i < a.len() && a[i] == max_of(a);
    let j = choose|j: int| 0 <= j < b.len() && b[j] == max_of(b);
    vstd::seq_lib::to_multiset_contains(a, max_of(a));
    vstd::seq_lib::to_multiset_contains(b, max_of(a));
    vstd::seq_lib::to_multiset_contains(a, max_of(b));
    vstd::seq_lib::to_multiset_contains(b, max_of(b));
    assert(a.contains(max_of(a)));
    assert(b.contains(max_of(b)));
}

/// Files are rotated by size: in every data file, the elements before the
/// last one stay within the limit (only the write that crosses it may go
/// past), and once the elements written before the last one exceed the limit
/// together, there are at least two data files.
pub proof fn lemma_rotation(w: OutputWriter)
    requires
        w.wf(),
    ensures
        forall|i: int| 0 <= i < w.files@.len() ==> sum((#[trigger] w.files@[i]).drop_last()) <= w.max_file_size,
        w.writes@.len() > 0 && sum(w.writes@.drop_last()) > w.max_file_size ==> w.files@.len() >= 2,
{
    let files = w.files@;
    if w.writes@.len() > 0 && sum(w.writes@.drop_last()) > w.max_file_size {
        if files.len() == 0 {
            assert(flatten(files) == Seq::<nat>::empty());
        } else if files.len() == 1 {
            assert(files.drop_last() =~= Seq::<Seq<nat>>::empty());
            assert(flatten(files.drop_last()) =~= Seq::<nat>::empty());
            assert(flatten(files) =~= files[0]);
        }
    }
}

} // verus!

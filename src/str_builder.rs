//! Rendering of one element into the output syntax: typed literals, tag
//! clauses, and the metadata that closes an element's block.
use vstd::prelude::*;
use crate::escape::{
    encode_title, lemma_string_literal_round_trip, parse_string_literal, quote, string_literal,
    title_in_link,
};
use crate::patterns::{
    has_substring, has_substring_exec, is_local_name, is_local_name_exec, is_wikidata_id,
    is_wikidata_id_exec, is_wikidata_list, join_with, lemma_wikidata_list_of_ids,
    wikidata_list_exec, wikidata_list_ids, wikipedia_split, wikipedia_split_exec,
};
use crate::text::{
    chars_of, int_text, push_char, push_i64, push_str, same_chars, string_of,
    string_with_capacity, sub_chars,
};
use crate::utils::{
    to_utc, utc_text, Element, ElementInfo, RelMember, RelMemberType, TIMESTAMP_LIMIT_MS,
};

verus! {

/// `predicate value;` on a line of its own.
pub open spec fn clause(predicate: Seq<char>, value: Seq<char>) -> Seq<char> {
    predicate + seq![' '] + value + seq![';', '\n']
}

/// `prefix:name`
pub open spec fn prefixed(prefix: Seq<char>, name: Seq<char>) -> Seq<char> {
    prefix + seq![':'] + name
}

/// `"text"^^type`
pub open spec fn typed(text: Seq<char>, ty: Seq<char>) -> Seq<char> {
    seq!['"'] + text + seq!['"', '^', '^'] + ty
}

/// The items joined by `,`.
pub open spec fn joined(items: Seq<Seq<char>>) -> Seq<char>
    decreases items.len(),
{
    if items.len() == 0 {
        Seq::empty()
    } else if items.len() == 1 {
        items[0]
    } else {
        joined(items.drop_last()) + seq![','] + items.last()
    }
}

/// The decimal form of a coordinate given in units of 1e-7 degrees, as short
/// as it can be: no trailing zeros after the point, and no point for a whole
/// number of degrees.
pub open spec fn coord_text(v: int) -> Seq<char> {
    let m = if v < 0 { -v } else { v };
    let sign = if v < 0 { seq!['-'] } else { Seq::empty() };
    let whole = crate::text::nat_text((m / 10_000_000) as nat);
    let (f, w) = trimmed_fraction((m % 10_000_000) as nat, 7);
    if w == 0 {
        sign + whole
    } else {
        sign + whole + seq!['.'] + padded(f, w)
    }
}

/// A fraction of `w` decimal digits, with its trailing zeros dropped.
pub open spec fn trimmed_fraction(f: nat, w: nat) -> (nat, nat)
    decreases w,
{
    if w > 0 && f % 10 == 0 {
        trimmed_fraction(f / 10, (w - 1) as nat)
    } else {
        (f, w)
    }
}

/// The last `w` decimal digits of `f`, zeros in front where needed.
pub open spec fn padded(f: nat, w: nat) -> Seq<char>
    decreases w,
{
    if w == 0 {
        Seq::empty()
    } else {
        padded(f / 10, (w - 1) as nat).push(crate::text::digit(f % 10))
    }
}

/// A value that has a form in the output syntax.
pub trait XsdValue {
    /// The value's form in the output syntax.
    spec fn text(&self) -> Seq<char>;

    /// The value can be written.
    spec fn renderable(&self) -> bool;

    /// Writes the value.
    fn render(&self) -> (r: String)
        requires
            self.renderable(),
        ensures
            r@ == self.text(),
    ;
}

/// A point, each coordinate in units of 1e-7 degrees.
#[derive(Clone, Copy, Debug)]
pub struct XsdPoint {
    pub lat: i32,
    pub lon: i32,
}

/// A link to a Wikipedia page; `title` is already in its link form.
pub struct XsdWikipedia<'a> {
    pub lang: &'a str,
    pub title: &'a str,
}

pub struct XsdInteger(pub i64);

pub struct XsdBoolean(pub bool);

/// A millisecond timestamp.
pub struct XsdDateTime(pub i64);

/// A string literal.
pub struct XsdStr<'a>(pub &'a str);

/// A prefixed name.
pub struct XsdRaw<'a>(pub &'a str, pub &'a str);

/// The one-letter marker of an element kind.
pub struct XsdElement(pub Element);

/// A reference to the element that a relation member stands for.
pub struct XsdRelMember<'a>(pub &'a RelMember);

/// Values joined by `,`.
pub struct XsdIter<'a, V>(pub &'a [V]);

/// Appends the decimal form of a coordinate.
fn push_coord(s: &mut String, v: i32)
    ensures
        final(s)@ == old(s)@ + coord_text(v as int),
{
    let m: u32 = if v < 0 { (0 - (v as i64)) as u32 } else { v as u32 };
    if v < 0 {
        push_char(s, '-');
    }
    let ghost sign: Seq<char> = if v < 0 { seq!['-'] } else { Seq::empty() };
    let ghost s0 = old(s)@ + sign;
    assert(s@ == s0);
    crate::text::push_u64(s, (m / 10_000_000) as u64);
    let mut f: u32 = m % 10_000_000;
    let mut w: u32 = 7;
    while w > 0 && f % 10 == 0
        invariant
            w <= 7,
            trimmed_fraction(f as nat, w as nat) == trimmed_fraction(
                (m % 10_000_000) as nat,
                7,
            ),
        decreases w,
    {
        f = f / 10;
        w = w - 1;
    }
    if w > 0 {
        push_char(s, '.');
        push_padded(s, f, w);
    }
}

fn push_padded(s: &mut String, f: u32, w: u32)
    ensures
        final(s)@ == old(s)@ + padded(f as nat, w as nat),
    decreases w,
{
    if w > 0 {
        push_padded(s, f / 10, w - 1);
        let d: u8 = (f % 10) as u8;
        push_char(s, (d + 48) as char);
    }
}

impl XsdValue for XsdPoint {
    open spec fn text(&self) -> Seq<char> {
        seq!['"'] + "Point("@ + coord_text(self.lon as int) + seq![' '] + coord_text(
            self.lat as int,
        ) + seq![')', '"', '^', '^'] + "geo:wktLiteral"@
    }

    open spec fn renderable(&self) -> bool {
        true
    }

    fn render(&self) -> (r: String) {
        let mut s = String::new();
        push_char(&mut s, '"');
        push_str(&mut s, "Point(");
        push_coord(&mut s, self.lon);
        push_char(&mut s, ' ');
        push_coord(&mut s, self.lat);
        push_char(&mut s, ')');
        push_char(&mut s, '"');
        push_char(&mut s, '^');
        push_char(&mut s, '^');
        push_str(&mut s, "geo:wktLiteral");
        s
    }
}

impl<'a> XsdValue for XsdWikipedia<'a> {
    open spec fn text(&self) -> Seq<char> {
        "<https://"@ + self.lang@ + ".wikipedia.org/wiki/"@ + self.title@ + seq!['>']
    }

    open spec fn renderable(&self) -> bool {
        true
    }

    fn render(&self) -> (r: String) {
        let mut s = String::new();
        push_str(&mut s, "<https://");
        push_str(&mut s, self.lang);
        push_str(&mut s, ".wikipedia.org/wiki/");
        push_str(&mut s, self.title);
        push_char(&mut s, '>');
        s
    }
}

impl XsdValue for XsdInteger {
    open spec fn text(&self) -> Seq<char> {
        typed(int_text(self.0 as int), "xsd:integer"@)
    }

    open spec fn renderable(&self) -> bool {
        true
    }

    fn render(&self) -> (r: String) {
        let mut s = String::new();
        push_char(&mut s, '"');
        push_i64(&mut s, self.0);
        push_char(&mut s, '"');
        push_char(&mut s, '^');
        push_char(&mut s, '^');
        push_str(&mut s, "xsd:integer");
        s
    }
}

impl XsdValue for XsdBoolean {
    open spec fn text(&self) -> Seq<char> {
        typed(if self.0 { "true"@ } else { "false"@ }, "xsd:boolean"@)
    }

    open spec fn renderable(&self) -> bool {
        true
    }

    fn render(&self) -> (r: String) {
        let mut s = String::new();
        push_char(&mut s, '"');
        push_str(&mut s, if self.0 { "true" } else { "false" });
        push_char(&mut s, '"');
        push_char(&mut s, '^');
        push_char(&mut s, '^');
        push_str(&mut s, "xsd:boolean");
        s
    }
}

impl XsdValue for XsdDateTime {
    open spec fn text(&self) -> Seq<char> {
        typed(utc_text(self.0 as int), "xsd:dateTime"@)
    }

    open spec fn renderable(&self) -> bool {
        -TIMESTAMP_LIMIT_MS <= self.0 <= TIMESTAMP_LIMIT_MS
    }

    fn render(&self) -> (r: String) {
        let t = to_utc(self.0);
        let mut s = String::new();
        push_char(&mut s, '"');
        match t {
            Some(t) => push_str(&mut s, t.as_str()),
            None => {},
        }
        push_char(&mut s, '"');
        push_char(&mut s, '^');
        push_char(&mut s, '^');
        push_str(&mut s, "xsd:dateTime");
        s
    }
}

impl<'a> XsdValue for XsdStr<'a> {
    open spec fn text(&self) -> Seq<char> {
        string_literal(self.0@)
    }

    open spec fn renderable(&self) -> bool {
        true
    }

    fn render(&self) -> (r: String) {
        quote(self.0)
    }
}

impl<'a> XsdValue for XsdRaw<'a> {
    open spec fn text(&self) -> Seq<char> {
        prefixed(self.0@, self.1@)
    }

    open spec fn renderable(&self) -> bool {
        true
    }

    fn render(&self) -> (r: String) {
        let mut s = String::new();
        push_str(&mut s, self.0);
        push_char(&mut s, ':');
        push_str(&mut s, self.1);
        s
    }
}

/// The one-letter marker of an element kind.
pub open spec fn element_letter(e: Element) -> char {
    match e {
        Element::Node => 'n',
        Element::Way => 'w',
        Element::Relation => 'r',
    }
}

impl XsdValue for XsdElement {
    open spec fn text(&self) -> Seq<char> {
        seq!['"', element_letter(self.0), '"']
    }

    open spec fn renderable(&self) -> bool {
        true
    }

    fn render(&self) -> (r: String) {
        let mut s = String::new();
        push_char(&mut s, '"');
        push_char(
            &mut s,
            match self.0 {
                Element::Node => 'n',
                Element::Way => 'w',
                Element::Relation => 'r',
            },
        );
        push_char(&mut s, '"');
        s
    }
}

/// The namespace of the element that a member refers to.
pub open spec fn member_namespace(t: RelMemberType) -> Seq<char> {
    match t {
        RelMemberType::Node => "osmnode"@,
        RelMemberType::Way => "osmway"@,
        RelMemberType::Relation => "osmrel"@,
    }
}

/// `namespace:id` of a relation member.
pub open spec fn member_ref(m: RelMember) -> Seq<char> {
    prefixed(member_namespace(m.member_type), int_text(m.member_id as int))
}

impl<'a> XsdValue for XsdRelMember<'a> {
    open spec fn text(&self) -> Seq<char> {
        member_ref(*self.0)
    }

    open spec fn renderable(&self) -> bool {
        true
    }

    fn render(&self) -> (r: String) {
        let mut s = String::new();
        push_str(
            &mut s,
            match self.0.member_type {
                RelMemberType::Node => "osmnode",
                RelMemberType::Way => "osmway",
                RelMemberType::Relation => "osmrel",
            },
        );
        push_char(&mut s, ':');
        push_i64(&mut s, self.0.member_id);
        s
    }
}

impl<'a, V: XsdValue> XsdValue for XsdIter<'a, V> {
    open spec fn text(&self) -> Seq<char> {
        joined(self.0@.map_values(|v: V| v.text()))
    }

    open spec fn renderable(&self) -> bool {
        forall|i: int| 0 <= i < self.0@.len() ==> (#[trigger] self.0@[i]).renderable()
    }

    fn render(&self) -> (r: String) {
        let mut s = String::new();
        let mut i: usize = 0;
        while i < self.0.len()
            invariant
                i <= self.0@.len(),
                forall|k: int| 0 <= k < self.0@.len() ==> (#[trigger] self.0@[k]).renderable(),
                s@ == joined(self.0@.take(i as int).map_values(|v: V| v.text())),
            decreases self.0@.len() - i,
        {
            if i > 0 {
                push_char(&mut s, ',');
            }
            let t = self.0[i].render();
            push_str(&mut s, t.as_str());
            i += 1;
            assert(self.0@.take(i as int).map_values(|v: V| v.text()).drop_last()
                == self.0@.take(i - 1).map_values(|v: V| v.text()));
        }
        assert(self.0@.take(i as int) == self.0@);
        s
    }
}


/// How the value of a tag is written, given its key.
pub open spec fn tag_value_text(k: Seq<char>, v: Seq<char>) -> Seq<char> {
    if has_substring(k, "wikidata"@) && is_wikidata_id(v) {
        prefixed("wd"@, v)
    } else if has_substring(k, "wikidata"@) && is_wikidata_list(v) {
        joined(wikidata_list_ids(v).map_values(|id: Seq<char>| prefixed("wd"@, id)))
    } else if !has_substring(k, "wikidata"@) && has_substring(k, "wikipedia"@) && wikipedia_split(
        v,
    ) is Some {
        let i = wikipedia_split(v)->0;
        "<https://"@ + v.take(i) + ".wikipedia.org/wiki/"@ + title_in_link(v.skip(i + 1)) + seq![
            '>',
        ]
    } else {
        string_literal(v)
    }
}

/// The clauses that one tag contributes.
pub open spec fn tag_text(k: Seq<char>, v: Seq<char>) -> Seq<char> {
    if k == "created_by"@ {
        Seq::empty()
    } else if !is_local_name(k) {
        clause("osmm:badkey"@, string_literal(k))
    } else {
        clause(prefixed("osmt"@, k), tag_value_text(k, v))
    }
}

/// The clauses that a list of tags contributes, in order.
pub open spec fn tags_text(tags: Seq<(Seq<char>, Seq<char>)>) -> Seq<char>
    decreases tags.len(),
{
    if tags.len() == 0 {
        Seq::empty()
    } else {
        tags_text(tags.drop_last()) + tag_text(tags.last().0, tags.last().1)
    }
}

/// The views of a list of tags.
pub open spec fn tags_view(tags: Seq<(String, String)>) -> Seq<(Seq<char>, Seq<char>)> {
    tags.map_values(|t: (String, String)| (t.0@, t.1@))
}

/// The clauses that close an element's block: version, user (where there is
/// one), timestamp, and changeset, the last ended by `.` rather than `;`.
pub open spec fn metadata_text(info: ElementInfo) -> Seq<char> {
    clause("osmm:version"@, XsdInteger(info.version as i64).text()) + match info.user {
        Some(u) => clause("osmm:user"@, string_literal(u@)),
        None => Seq::empty(),
    } + clause("osmm:timestamp"@, XsdDateTime(info.milli_timestamp).text()) + "osmm:changeset"@
        + seq![' '] + XsdInteger(info.changeset).text() + seq!['.', '\n']
}

/// An append-only text buffer holding the clauses of one element.
#[derive(Debug)]
pub struct StringBuf {
    pub buf: String,
}

impl View for StringBuf {
    type V = Seq<char>;

    open spec fn view(&self) -> Seq<char> {
        self.buf@
    }
}

impl StringBuf {
    /// An empty buffer with room for `capacity` bytes.
    pub fn new(capacity: usize) -> (r: StringBuf)
        ensures
            r@ == Seq::<char>::empty(),
    {
        StringBuf { buf: string_with_capacity(capacity) }
    }

    pub fn is_empty(&self) -> (r: bool)
        ensures
            r == (self@.len() == 0),
    {
        self.buf.as_str().is_empty()
    }

    /// Appends the clause `predicate value;`.
    pub fn add_value<V: XsdValue>(&mut self, predicate: &str, value: &V)
        requires
            value.renderable(),
        ensures
            final(self)@ == old(self)@ + clause(predicate@, value.text()),
    {
        let v = value.render();
        push_str(&mut self.buf, predicate);
        push_char(&mut self.buf, ' ');
        push_str(&mut self.buf, v.as_str());
        push_char(&mut self.buf, ';');
        push_char(&mut self.buf, '\n');
    }

    /// Appends the clauses of one tag.
    pub fn add_tag(&mut self, key: &str, val: &str)
        ensures
            final(self)@ == old(self)@ + tag_text(key@, val@),
    {
        let kc = chars_of(key);
        if same_chars(kc.as_slice(), chars_of("created_by").as_slice()) {
            return;
        }
        if !is_local_name_exec(kc.as_slice()) {
            self.add_value("osmm:badkey", &XsdStr(key));
            return;
        }
        let pred = XsdRaw("osmt", key).render();
        let vc = chars_of(val);
        let n = vc.len();
        if has_substring_exec(kc.as_slice(), chars_of("wikidata").as_slice()) {
            if is_wikidata_id_exec(vc.as_slice()) {
                self.add_value(pred.as_str(), &XsdRaw("wd", val));
                return;
            }
            match wikidata_list_exec(vc.as_slice()) {
                Some(ids) => {
                    let mut names: Vec<String> = Vec::new();
                    let mut i: usize = 0;
                    while i < ids.len()
                        invariant
                            i <= ids@.len(),
                            names@.len() == i,
                            forall|k: int| 0 <= k < i ==> (#[trigger] names@[k])@ == ids@[k]@,
                        decreases ids@.len() - i,
                    {
                        names.push(string_of(ids[i].as_slice()));
                        i += 1;
                    }
                    let mut raws: Vec<XsdRaw> = Vec::new();
                    let mut j: usize = 0;
                    while j < names.len()
                        invariant
                            j <= names@.len(),
                            raws@.len() == j,
                            forall|k: int| 0 <= k < j ==> (#[trigger] raws@[k]).0@ == "wd"@
                                && raws@[k].1@ == names@[k]@,
                        decreases names@.len() - j,
                    {
                        raws.push(XsdRaw("wd", names[j].as_str()));
                        j += 1;
                    }
                    let it = XsdIter(raws.as_slice());
                    assert(it.0@.map_values(|v: XsdRaw| v.text()) == wikidata_list_ids(
                        vc@,
                    ).map_values(|id: Seq<char>| prefixed("wd"@, id)));
                    self.add_value(pred.as_str(), &it);
                    return;
                },
                None => {},
            }
        } else if has_substring_exec(kc.as_slice(), chars_of("wikipedia").as_slice()) {
            match wikipedia_split_exec(vc.as_slice()) {
                Some(i) => {
                    let lang = string_of(sub_chars(vc.as_slice(), 0, i).as_slice());
                    let title = encode_title(sub_chars(vc.as_slice(), i + 1, n).as_slice());
                    assert(vc@.subrange(0, i as int) == vc@.take(i as int));
                    assert(vc@.subrange(i + 1, n as int) == vc@.skip(i + 1));
                    self.add_value(
                        pred.as_str(),
                        &XsdWikipedia { lang: lang.as_str(), title: title.as_str() },
                    );
                    return;
                },
                None => {},
            }
        }
        self.add_value(pred.as_str(), &XsdStr(val));
    }

    /// Appends the clauses of each tag, in order.
    pub fn add_tags(&mut self, tags: &[(String, String)])
        ensures
            final(self)@ == old(self)@ + tags_text(tags_view(tags@)),
    {
        let ghost start = self@;
        let mut i: usize = 0;
        while i < tags.len()
            invariant
                i <= tags@.len(),
                self@ == start + tags_text(tags_view(tags@.take(i as int))),
            decreases tags@.len() - i,
        {
            let (k, v) = &tags[i];
            self.add_tag(k.as_str(), v.as_str());
            i += 1;
            assert(tags_view(tags@.take(i as int)).drop_last() == tags_view(tags@.take(i - 1)));
        }
        assert(tags@.take(i as int) == tags@);
    }

    /// Closes the block with the element's metadata.
    pub fn finalize(self, info: &ElementInfo) -> (r: StringBuf)
        requires
            info.wf(),
        ensures
            r@ == self@ + metadata_text(*info),
    {
        let mut b = self;
        b.add_value("osmm:version", &XsdInteger(info.version as i64));
        match &info.user {
            Some(user) => b.add_value("osmm:user", &XsdStr(user.as_str())),
            None => {},
        }
        b.add_value("osmm:timestamp", &XsdDateTime(info.milli_timestamp));
        let c = XsdInteger(info.changeset).render();
        push_str(&mut b.buf, "osmm:changeset");
        push_char(&mut b.buf, ' ');
        push_str(&mut b.buf, c.as_str());
        push_char(&mut b.buf, '.');
        push_char(&mut b.buf, '\n');
        b
    }
}


/// A tag with a valid key (other than the ignored `created_by`) and a value
/// that is neither a Wikidata identifier, nor a list of them, nor a
/// Wikipedia reference, is written as `osmt:key "value";`, and the literal
/// reads back as the value.
pub proof fn lemma_plain_tag_round_trip(k: Seq<char>, v: Seq<char>)
    requires
        is_local_name(k),
        k != "created_by"@,
        !is_wikidata_id(v),
        !is_wikidata_list(v),
        wikipedia_split(v) is None,
    ensures
        tag_text(k, v) == clause(prefixed("osmt"@, k), string_literal(v)),
        parse_string_literal(string_literal(v)) == Some(v),
{
    lemma_string_literal_round_trip(v);
}

/// A tag whose key names Wikidata and whose value is two or more Wikidata
/// identifiers joined by `;` is written as one clause holding the list of
/// entity references `wd:Q..`, joined by `,`, in the order of the value.
pub proof fn lemma_wikidata_list_tag(k: Seq<char>, ids: Seq<Seq<char>>)
    requires
        is_local_name(k),
        has_substring(k, "wikidata"@),
        ids.len() >= 2,
        forall|i: int| 0 <= i < ids.len() ==> is_wikidata_id(#[trigger] ids[i]),
    ensures
        tag_text(k, join_with(ids, ';')) == clause(
            prefixed("osmt"@, k),
            joined(ids.map_values(|id: Seq<char>| prefixed("wd"@, id))),
        ),
{
    lemma_wikidata_list_of_ids(ids);
    assert(k != "created_by"@) by {
        if k == "created_by"@ {
            reveal_strlit("created_by");
            reveal_strlit("wikidata");
            let i = choose|i: int| 0 <= i <= k.len() - 8 && #[trigger] k.subrange(i, i + 8) == "wikidata"@;
            assert(k.subrange(i, i + 8)[0] == 'w');
        }
    }
}

} // verus!

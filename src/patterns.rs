//! Recognisers for the textual shapes that tag keys and values can take:
//! simple local names, Wikidata identifiers and lists of them, and
//! `language:title` Wikipedia references.
use vstd::prelude::*;

verus! {

/// `[0-9a-zA-Z_]`
pub open spec fn is_word_char(c: char) -> bool {
    ('0' <= c && c <= '9') || ('a' <= c && c <= 'z') || ('A' <= c && c <= 'Z') || c == '_'
}

/// A word character, `-` or `:`: what may stand inside a local name.
pub open spec fn is_inner_name_char(c: char) -> bool {
    is_word_char(c) || c == '-' || c == ':'
}

/// A local name: 1 to 60 characters, word characters at both ends, and
/// word characters, `-` or `:` in between.
pub open spec fn is_local_name(k: Seq<char>) -> bool {
    &&& 1 <= k.len() <= 60
    &&& is_word_char(k[0])
    &&& is_word_char(k.last())
    &&& forall|i: int| 0 < i < k.len() - 1 ==> is_inner_name_char(#[trigger] k[i])
}

pub open spec fn is_digit(c: char) -> bool {
    '0' <= c && c <= '9'
}

/// A Wikidata entity identifier: `Q`, a digit other than zero, then up to 18
/// more digits.
pub open spec fn is_wikidata_id(v: Seq<char>) -> bool {
    &&& 2 <= v.len() <= 20
    &&& v[0] == 'Q'
    &&& '1' <= v[1] && v[1] <= '9'
    &&& forall|i: int| 2 <= i < v.len() ==> is_digit(#[trigger] v[i])
}

/// Unicode white space, as `char::is_whitespace` and the `\s` class see it.
pub open spec fn is_ws(c: char) -> bool {
    ||| ('\t' <= c && c <= '\r')
    ||| c == ' '
    ||| c == '\u{85}'
    ||| c == '\u{a0}'
    ||| c == '\u{1680}'
    ||| ('\u{2000}' <= c && c <= '\u{200a}')
    ||| c == '\u{2028}'
    ||| c == '\u{2029}'
    ||| c == '\u{202f}'
    ||| c == '\u{205f}'
    ||| c == '\u{3000}'
}

/// Number of white-space characters that `s` starts with.
pub open spec fn lead_ws(s: Seq<char>) -> nat
    decreases s.len(),
{
    if s.len() > 0 && is_ws(s[0]) {
        1 + lead_ws(s.drop_first())
    } else {
        0
    }
}

/// Number of white-space characters that `s` ends with.
pub open spec fn trail_ws(s: Seq<char>) -> nat
    decreases s.len(),
{
    if s.len() > 0 && is_ws(s.last()) {
        1 + trail_ws(s.drop_last())
    } else {
        0
    }
}

/// `s` without white space at either end.
pub open spec fn trim_ws(s: Seq<char>) -> Seq<char> {
    let t = s.skip(lead_ws(s) as int);
    t.take(t.len() - trail_ws(t))
}

/// The pieces of `s` between the occurrences of `sep`; one more piece than
/// there are separators.
pub open spec fn split_on(s: Seq<char>, sep: char) -> Seq<Seq<char>>
    decreases s.len(),
{
    if s.len() == 0 {
        seq![Seq::empty()]
    } else {
        let prev = split_on(s.drop_last(), sep);
        if s.last() == sep {
            prev.push(Seq::empty())
        } else {
            prev.update(prev.len() - 1, prev.last().push(s.last()))
        }
    }
}

/// A list of at least two Wikidata identifiers separated by `;`, with white
/// space allowed around each separator and nowhere else.
pub open spec fn is_wikidata_list(v: Seq<char>) -> bool {
    let parts = split_on(v, ';');
    &&& parts.len() >= 2
    &&& forall|i: int| 0 <= i < parts.len() ==> is_wikidata_id(trim_ws(#[trigger] parts[i]))
    &&& !is_ws(v[0])
    &&& !is_ws(v.last())
}

/// The identifiers of a Wikidata list, in order.
pub open spec fn wikidata_list_ids(v: Seq<char>) -> Seq<Seq<char>> {
    split_on(v, ';').map_values(|p: Seq<char>| trim_ws(p))
}

/// `a-z` or `-`: what a Wikipedia language code is made of.
pub open spec fn is_lang_char(c: char) -> bool {
    ('a' <= c && c <= 'z') || c == '-'
}

/// Whether `s` holds the character `c`.
pub open spec fn has_char(s: Seq<char>, c: char) -> bool {
    exists|i: int| 0 <= i < s.len() && s[i] == c
}

/// `i` is the position of a `:` that follows a language code (one or more
/// of `a-z` and `-`) and comes before a title of one or more characters, none
/// of which ends a line.
pub open spec fn is_wikipedia_colon(v: Seq<char>, i: int) -> bool {
    &&& 0 < i < v.len() - 1
    &&& v[i] == ':'
    &&& forall|j: int| 0 <= j < i ==> is_lang_char(#[trigger] v[j])
    &&& forall|j: int| i < j < v.len() ==> #[trigger] v[j] != '\n'
}

/// Where `v` is `language:title`, the position of the `:` between the two.
pub open spec fn wikipedia_split(v: Seq<char>) -> Option<int> {
    if exists|i: int| is_wikipedia_colon(v, i) {
        Some(choose|i: int| is_wikipedia_colon(v, i))
    } else {
        None
    }
}

/// A language code holds no `:`, so the `:` after it is the first one.
pub proof fn lemma_wikipedia_colon_first(v: Seq<char>, i: int, k: int)
    requires
        is_wikipedia_colon(v, i),
        0 <= k < v.len(),
        v[k] == ':',
    ensures
        i <= k,
{
    if k < i {
        assert(is_lang_char(v[k]));
    }
}

/// Whether `t` occurs in `s`.
pub open spec fn has_substring(s: Seq<char>, t: Seq<char>) -> bool {
    exists|i: int| 0 <= i <= s.len() - t.len() && #[trigger] s.subrange(i, i + t.len()) == t
}

pub fn is_local_name_exec(k: &[char]) -> (r: bool)
    ensures
        r == is_local_name(k@),
{
    let n = k.len();
    if n < 1 || n > 60 {
        return false;
    }
    if !is_word(k[0]) || !is_word(k[n - 1]) {
        return false;
    }
    let mut i: usize = 1;
    while i < n - 1
        invariant
            1 <= i <= n,
            n == k@.len(),
            forall|j: int| 0 < j < i ==> is_inner_name_char(#[trigger] k@[j]),
        decreases n - i,
    {
        let c = k[i];
        if !(is_word(c) || c == '-' || c == ':') {
            return false;
        }
        i += 1;
    }
    true
}

fn is_word(c: char) -> (r: bool)
    ensures
        r == is_word_char(c),
{
    ('0' <= c && c <= '9') || ('a' <= c && c <= 'z') || ('A' <= c && c <= 'Z') || c == '_'
}


fn is_ws_exec(c: char) -> (r: bool)
    ensures
        r == is_ws(c),
{
    ('\t' <= c && c <= '\r') || c == ' ' || c == '\u{85}' || c == '\u{a0}' || c == '\u{1680}'
        || ('\u{2000}' <= c && c <= '\u{200a}') || c == '\u{2028}' || c == '\u{2029}'
        || c == '\u{202f}' || c == '\u{205f}' || c == '\u{3000}'
}

/// Whether `v` is a single Wikidata identifier.
pub fn is_wikidata_id_exec(v: &[char]) -> (r: bool)
    ensures
        r == is_wikidata_id(v@),
{
    let n = v.len();
    if n < 2 || n > 20 || v[0] != 'Q' || !('1' <= v[1] && v[1] <= '9') {
        return false;
    }
    let mut i: usize = 2;
    while i < n
        invariant
            2 <= i <= n,
            n == v@.len(),
            forall|j: int| 2 <= j < i ==> is_digit(#[trigger] v@[j]),
        decreases n - i,
    {
        if !('0' <= v[i] && v[i] <= '9') {
            return false;
        }
        i += 1;
    }
    true
}

/// Whether `t` occurs in `s`.
pub fn has_substring_exec(s: &[char], t: &[char]) -> (r: bool)
    ensures
        r == has_substring(s@, t@),
{
    if t.len() > s.len() {
        return false;
    }
    let mut i: usize = 0;
    while i <= s.len() - t.len()
        invariant
            t@.len() <= s@.len(),
            i <= s@.len() - t@.len() + 1,
            forall|k: int| 0 <= k < i ==> #[trigger] s@.subrange(k, k + t@.len()) != t@,
        decreases s@.len() - t@.len() + 1 - i,
    {
        let mut j: usize = 0;
        let mut same = true;
        while j < t.len()
            invariant
                i + t.len() <= s.len(),
                j <= t@.len(),
                same == (forall|m: int| 0 <= m < j ==> s@[i + m] == t@[m]),
            decreases t@.len() - j,
        {
            if s[i + j] != t[j] {
                same = false;
            }
            j += 1;
        }
        if same {
            assert(s@.subrange(i as int, i + t@.len()) == t@);
            return true;
        }
        assert(s@.subrange(i as int, i + t@.len()) != t@) by {
            let m = choose|m: int| 0 <= m < t@.len() && s@[i + m] != t@[m];
            assert(s@.subrange(i as int, i + t@.len())[m] == s@[i + m]);
        }
        i += 1;
    }
    false
}


/// The pieces of `v` between the occurrences of `sep`.
pub fn split_on_exec(v: &[char], sep: char) -> (r: Vec<Vec<char>>)
    ensures
        r@.len() == split_on(v@, sep).len(),
        forall|i: int| 0 <= i < r@.len() ==> (#[trigger] r@[i])@ == split_on(v@, sep)[i],
{
    let mut pieces: Vec<Vec<char>> = Vec::new();
    let mut cur: Vec<char> = Vec::new();
    let mut i: usize = 0;
    assert(v@.take(0) == Seq::<char>::empty());
    while i < v.len()
        invariant
            i <= v@.len(),
            split_on(v@.take(i as int), sep).len() == pieces@.len() + 1,
            forall|k: int| 0 <= k < pieces@.len() ==> (#[trigger] pieces@[k])@ == split_on(v@.take(i as int), sep)[k],
            cur@ == split_on(v@.take(i as int), sep).last(),
        decreases v@.len() - i,
    {
        let c = v[i];
        assert(v@.take(i + 1).drop_last() == v@.take(i as int));
        if c == sep {
            pieces.push(cur);
            cur = Vec::new();
        } else {
            cur.push(c);
        }
        i += 1;
    }
    pieces.push(cur);
    assert(v@.take(i as int) == v@);
    pieces
}

/// `p` without white space at either end.
pub fn trim_ws_exec(p: &[char]) -> (r: Vec<char>)
    ensures
        r@ == trim_ws(p@),
{
    let n = p.len();
    let mut a: usize = 0;
    assert(p@.skip(0) == p@);
    while a < n && is_ws_exec(p[a])
        invariant
            a <= n == p@.len(),
            lead_ws(p@) == a + lead_ws(p@.skip(a as int)),
        decreases n - a,
    {
        assert(p@.skip(a as int).drop_first() == p@.skip(a + 1));
        a += 1;
    }
    let ghost t = p@.skip(a as int);
    let mut b: usize = n;
    assert(t.take(n - a) == t);
    while b > a && is_ws_exec(p[b - 1])
        invariant
            a <= b <= n == p@.len(),
            t == p@.skip(a as int),
            trail_ws(t) == (n - b) + trail_ws(t.take(b - a)),
        decreases b - a,
    {
        assert(t.take(b - a).drop_last() == t.take(b - a - 1));
        b -= 1;
    }
    let mut r: Vec<char> = Vec::new();
    let mut k: usize = a;
    while k < b
        invariant
            a <= k <= b <= n == p@.len(),
            r@ == p@.subrange(a as int, k as int),
        decreases b - k,
    {
        r.push(p[k]);
        k += 1;
    }
    assert(t.take(t.len() - trail_ws(t)) == p@.subrange(a as int, b as int));
    r
}

/// The identifiers of `v` when it is a list of Wikidata identifiers.
pub fn wikidata_list_exec(v: &[char]) -> (r: Option<Vec<Vec<char>>>)
    ensures
        r is Some <==> is_wikidata_list(v@),
        r matches Some(ids) ==> ids@.len() == wikidata_list_ids(v@).len() && forall|i: int|
            0 <= i < ids@.len() ==> (#[trigger] ids@[i])@ == wikidata_list_ids(v@)[i],
{
    if v.len() == 0 {
        assert(split_on(v@, ';').len() == 1);
        return None;
    }
    if is_ws_exec(v[0]) || is_ws_exec(v[v.len() - 1]) {
        return None;
    }
    let parts = split_on_exec(v, ';');
    if parts.len() < 2 {
        return None;
    }
    let ghost sp = split_on(v@, ';');
    let mut ids: Vec<Vec<char>> = Vec::new();
    let mut i: usize = 0;
    while i < parts.len()
        invariant
            i <= parts@.len() == sp.len(),
            sp == split_on(v@, ';'),
            forall|k: int| 0 <= k < parts@.len() ==> (#[trigger] parts@[k])@ == sp[k],
            ids@.len() == i,
            forall|k: int| 0 <= k < i ==> (#[trigger] ids@[k])@ == trim_ws(sp[k]),
            forall|k: int| 0 <= k < i ==> is_wikidata_id(trim_ws(#[trigger] sp[k])),
        decreases parts@.len() - i,
    {
        let t = trim_ws_exec(parts[i].as_slice());
        if !is_wikidata_id_exec(t.as_slice()) {
            return None;
        }
        ids.push(t);
        i += 1;
    }
    Some(ids)
}

/// The position of the `:` that parts a Wikipedia reference, when `v` is one.
pub fn wikipedia_split_exec(v: &[char]) -> (r: Option<usize>)
    ensures
        r matches Some(i) ==> wikipedia_split(v@) == Some(i as int),
        r is None ==> wikipedia_split(v@) is None,
{
    let n = v.len();
    let mut i: usize = 0;
    while i < n && is_lang(v[i])
        invariant
            i <= n == v@.len(),
            forall|j: int| 0 <= j < i ==> is_lang_char(#[trigger] v@[j]),
        decreases n - i,
    {
        i += 1;
    }
    if i == 0 || i >= n - 1 || v[i] != ':' {
        assert forall|k: int| !is_wikipedia_colon(v@, k) by {
            if is_wikipedia_colon(v@, k) {
                if k < i {
                    assert(is_lang_char(v@[k]));
                } else if k > i {
                    assert(is_lang_char(v@[i as int]));
                }
            }
        }
        return None;
    }
    let mut j: usize = i + 1;
    while j < n
        invariant
            i + 1 <= j <= n == v@.len(),
            forall|m: int| i < m < j ==> #[trigger] v@[m] != '\n',
        decreases n - j,
    {
        if v[j] == '\n' {
            assert forall|k: int| !is_wikipedia_colon(v@, k) by {
                if is_wikipedia_colon(v@, k) {
                    lemma_wikipedia_colon_first(v@, k, i as int);
                    if k < i {
                        assert(is_lang_char(v@[k]));
                    }
                }
            }
            return None;
        }
        j += 1;
    }
    assert(is_wikipedia_colon(v@, i as int));
    proof {
        let k = choose|k: int| is_wikipedia_colon(v@, k);
        lemma_wikipedia_colon_first(v@, k, i as int);
        lemma_wikipedia_colon_first(v@, i as int, k);
    }
    Some(i)
}

fn is_lang(c: char) -> (r: bool)
    ensures
        r == is_lang_char(c),
{
    ('a' <= c && c <= 'z') || c == '-'
}


/// The pieces joined by `sep`.
pub open spec fn join_with(pieces: Seq<Seq<char>>, sep: char) -> Seq<char>
    decreases pieces.len(),
{
    if pieces.len() == 0 {
        Seq::empty()
    } else if pieces.len() == 1 {
        pieces[0]
    } else {
        join_with(pieces.drop_last(), sep) + seq![sep] + pieces.last()
    }
}

proof fn lemma_split_append_plain(s: Seq<char>, t: Seq<char>, sep: char)
    requires
        !has_char(t, sep),
    ensures
        split_on(s + t, sep) == split_on(s, sep).update(
            split_on(s, sep).len() - 1,
            split_on(s, sep).last() + t,
        ),
        split_on(s, sep).len() >= 1,
    decreases t.len(),
{
    lemma_split_nonempty(s, sep);
    if t.len() == 0 {
        assert(s + t == s);
        assert(split_on(s, sep).last() + t == split_on(s, sep).last());
        assert(split_on(s, sep).update(split_on(s, sep).len() - 1, split_on(s, sep).last())
            =~= split_on(s, sep));
    } else {
        let t1 = t.drop_last();
        assert(!has_char(t1, sep)) by {
            if has_char(t1, sep) {
                let i = choose|i: int| 0 <= i < t1.len() && t1[i] == sep;
                assert(t[i] == sep);
            }
        }
        assert(t.last() != sep) by {
            if t.last() == sep {
                assert(t[t.len() - 1] == sep);
            }
        }
        lemma_split_append_plain(s, t1, sep);
        assert((s + t).drop_last() == s + t1);
        assert((s + t).last() == t.last());
        let prev = split_on(s + t1, sep);
        assert(split_on(s + t, sep) == prev.update(prev.len() - 1, prev.last().push(t.last())));
        assert(prev.len() == split_on(s, sep).len());
        assert(prev.last() == split_on(s, sep).last() + t1);
        assert((split_on(s, sep).last() + t1).push(t.last()) =~= split_on(s, sep).last() + t);
        assert(split_on(s + t, sep) =~= split_on(s, sep).update(
            split_on(s, sep).len() - 1,
            split_on(s, sep).last() + t,
        ));
    }
}

proof fn lemma_split_nonempty(s: Seq<char>, sep: char)
    ensures
        split_on(s, sep).len() >= 1,
    decreases s.len(),
{
    if s.len() > 0 {
        lemma_split_nonempty(s.drop_last(), sep);
    }
}

proof fn lemma_split_join(ids: Seq<Seq<char>>, sep: char)
    requires
        ids.len() >= 1,
        forall|i: int| 0 <= i < ids.len() ==> !has_char(#[trigger] ids[i], sep),
    ensures
        split_on(join_with(ids, sep), sep) == ids,
    decreases ids.len(),
{
    if ids.len() == 1 {
        lemma_split_append_plain(Seq::empty(), ids[0], sep);
        assert(Seq::<char>::empty() + ids[0] == ids[0]);
        assert(split_on(Seq::<char>::empty(), sep) == seq![Seq::<char>::empty()]);
        assert(split_on(join_with(ids, sep), sep) =~= ids);
    } else {
        let front = ids.drop_last();
        lemma_split_join(front, sep);
        let j = join_with(front, sep);
        let js = j + seq![sep];
        assert(js.drop_last() == j);
        assert(split_on(js, sep) == front.push(Seq::empty()));
        lemma_split_append_plain(js, ids.last(), sep);
        assert(join_with(ids, sep) == js + ids.last());
        assert(split_on(join_with(ids, sep), sep) =~= ids);
    }
}

proof fn lemma_join_ends(ids: Seq<Seq<char>>, sep: char)
    requires
        ids.len() >= 1,
        forall|i: int| 0 <= i < ids.len() ==> (#[trigger] ids[i]).len() >= 1,
    ensures
        join_with(ids, sep).len() >= ids[0].len(),
        join_with(ids, sep)[0] == ids[0][0],
        join_with(ids, sep).last() == ids.last().last(),
    decreases ids.len(),
{
    if ids.len() > 1 {
        lemma_join_ends(ids.drop_last(), sep);
        assert(ids.drop_last()[0] == ids[0]);
    }
}

proof fn lemma_id_trimmed(id: Seq<char>)
    requires
        is_wikidata_id(id),
    ensures
        trim_ws(id) == id,
        !has_char(id, ';'),
{
    assert(lead_ws(id) == 0);
    assert(id.skip(0) == id);
    assert(!is_ws(id.last())) by {
        assert(is_digit(id[id.len() - 1]) || id.len() - 1 == 1);
    }
    assert(trail_ws(id) == 0);
    assert(id.take(id.len() as int) == id);
    assert(!has_char(id, ';')) by {
        if has_char(id, ';') {
            let i = choose|i: int| 0 <= i < id.len() && id[i] == ';';
            if i >= 2 {
                assert(is_digit(id[i]));
            }
        }
    }
}

/// Two or more Wikidata identifiers joined by `;` form a Wikidata list, and
/// the list's identifiers are those identifiers, in order.
pub proof fn lemma_wikidata_list_of_ids(ids: Seq<Seq<char>>)
    requires
        ids.len() >= 2,
        forall|i: int| 0 <= i < ids.len() ==> is_wikidata_id(#[trigger] ids[i]),
    ensures
        is_wikidata_list(join_with(ids, ';')),
        !is_wikidata_id(join_with(ids, ';')),
        wikidata_list_ids(join_with(ids, ';')) == ids,
{
    let v = join_with(ids, ';');
    assert forall|i: int| 0 <= i < ids.len() implies !has_char(#[trigger] ids[i], ';') && trim_ws(ids[i]) == ids[i] by {
        lemma_id_trimmed(ids[i]);
    }
    lemma_split_join(ids, ';');
    lemma_join_ends(ids, ';');
    assert(wikidata_list_ids(v) =~= ids);
    let front = join_with(ids.drop_last(), ';');
    lemma_join_ends(ids.drop_last(), ';');
    assert(ids.drop_last()[0] == ids[0]);
    assert(v == front + seq![';'] + ids.last());
    assert(v[front.len() as int] == ';');
    assert(!is_wikidata_id(v)) by {
        if is_wikidata_id(v) {
            assert(is_digit(v[front.len() as int]));
        }
    }
    assert(!is_ws(v.last())) by {
        let l = ids.last();
        assert(is_digit(l[l.len() - 1]) || l.len() - 1 == 1);
    }
}

} // verus!

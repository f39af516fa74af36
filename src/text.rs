//! Text handling shared by the record readers: splitting on a separator,
//! comparing, trimming and joining.
use vstd::prelude::*;
use vstd::relations::{sorted_by, total_ordering};
use vstd::seq_lib::lemma_sorted_unique;

verus! {

/// The pieces of `s` between the non-overlapping occurrences of `p`, found
/// from left to right (the meaning of `str::split` with a text pattern).
pub open spec fn split_by(s: Seq<char>, p: Seq<char>) -> Seq<Seq<char>>
    decreases s.len(),
{
    if p.len() == 0 || s.len() < p.len() {
        seq![s]
    } else if s.take(p.len() as int) == p {
        seq![Seq::<char>::empty()] + split_by(s.skip(p.len() as int), p)
    } else {
        let rest = split_by(s.drop_first(), p);
        rest.update(0, seq![s[0]] + rest[0])
    }
}

/// The views of a sequence of strings.
pub open spec fn texts(v: Seq<String>) -> Seq<Seq<char>> {
    v.map_values(|x: String| x@)
}

/// `c` in front of the first piece of `r`.
pub open spec fn prepend(c: Seq<char>, r: Seq<Seq<char>>) -> Seq<Seq<char>> {
    r.update(0, c + r[0])
}

pub proof fn lemma_split_nonempty(s: Seq<char>, p: Seq<char>)
    ensures
        split_by(s, p).len() >= 1,
    decreases s.len(),
{
    if p.len() == 0 || s.len() < p.len() {
    } else if s.take(p.len() as int) == p {
        lemma_split_nonempty(s.skip(p.len() as int), p);
    } else {
        lemma_split_nonempty(s.drop_first(), p);
    }
}

/// Whether `p` occurs in `s` at position `i`.
fn occurs_at(s: &str, p: &str, i: usize) -> (r: bool)
    requires
        i + p@.len() <= s@.len(),
        s@.len() <= usize::MAX,
    ensures
        r == (s@.subrange(i as int, i + p@.len()) == p@),
{
    let n = p.unicode_len();
    let mut j: usize = 0;
    while j < n
        invariant
            n == p@.len(),
            i + n <= s@.len(),
            s@.len() <= usize::MAX,
            j <= n,
            forall|k: int| 0 <= k < j ==> s@[i + k] == p@[k],
        decreases n - j,
    {
        if s.get_char(i + j) != p.get_char(j) {
            assert(s@.subrange(i as int, i + n)[j as int] != p@[j as int]);
            return false;
        }
        j = j + 1;
    }
    assert(s@.subrange(i as int, i + n) =~= p@);
    true
}

/// Splits `s` on every occurrence of the separator `p`.
pub fn split_text(s: &str, p: &str) -> (r: Vec<String>)
    requires
        p@.len() > 0,
    ensures
        texts(r@) == split_by(s@, p@),
{
    let n = s.unicode_len();
    let m = p.unicode_len();
    let mut pieces: Vec<String> = Vec::new();
    let mut start: usize = 0;
    let mut i: usize = 0;
    proof {
        lemma_split_nonempty(s@, p@);
        assert(s@.skip(0) =~= s@);
        assert(prepend(Seq::<char>::empty(), split_by(s@, p@)) =~= split_by(s@, p@));
    }
    while m <= n && i <= n - m
        invariant
            n == s@.len(),
            m == p@.len(),
            m > 0,
            start <= i <= n,
            split_by(s@, p@) == texts(pieces@) + prepend(
                s@.subrange(start as int, i as int),
                split_by(s@.skip(i as int), p@),
            ),
        decreases n - i,
    {
        let ghost rest = s@.skip(i as int);
        let ghost cur = s@.subrange(start as int, i as int);
        if occurs_at(s, p, i) {
            proof {
                assert(rest.take(m as int) =~= s@.subrange(i as int, i + m));
                assert(rest.skip(m as int) =~= s@.skip(i + m));
                lemma_split_nonempty(s@.skip(i + m), p@);
                assert(s@.subrange(i + m, i + m) =~= Seq::<char>::empty());
            }
            let piece = s.substring_char(start, i).to_string();
            pieces.push(piece);
            i = i + m;
            start = i;
            proof {
                let tail = split_by(s@.skip(i as int), p@);
                assert(texts(pieces@) =~= texts(pieces@.drop_last()).push(cur));
                assert(prepend(cur, seq![Seq::<char>::empty()] + tail) =~= seq![cur] + prepend(
                    Seq::<char>::empty(),
                    tail,
                ));
                assert(prepend(Seq::<char>::empty(), tail) =~= prepend(
                    s@.subrange(start as int, i as int),
                    tail,
                ));
            }
        } else {
            proof {
                assert(rest.take(m as int) =~= s@.subrange(i as int, i + m));
                assert(rest.drop_first() =~= s@.skip(i + 1));
                assert(rest[0] == s@[i as int]);
                lemma_split_nonempty(s@.skip(i + 1), p@);
                let tail = split_by(s@.skip(i + 1), p@);
                assert((cur + seq![s@[i as int]]) + tail[0] =~= cur + (seq![s@[i as int]] + tail[0]));
                assert(s@.subrange(start as int, i + 1) =~= cur + seq![s@[i as int]]);
                assert(prepend(cur, prepend(seq![s@[i as int]], tail)) =~= prepend(
                    s@.subrange(start as int, i + 1),
                    tail,
                ));
            }
            i = i + 1;
        }
    }
    proof {
        let rest = s@.skip(i as int);
        assert(split_by(rest, p@) == seq![rest]);
        assert(s@.subrange(start as int, i as int) + rest =~= s@.subrange(start as int, n as int));
    }
    let last = s.substring_char(start, n).to_string();
    pieces.push(last);
    proof {
        assert(texts(pieces@) =~= texts(pieces@.drop_last()).push(
            s@.subrange(start as int, n as int),
        ));
    }
    pieces
}

/// Whether two texts are equal.
pub fn text_eq(a: &str, b: &str) -> (r: bool)
    ensures
        r == (a@ == b@),
{
    let n = a.unicode_len();
    if n != b.unicode_len() {
        return false;
    }
    let mut i: usize = 0;
    while i < n
        invariant
            n == a@.len(),
            n == b@.len(),
            i <= n,
            forall|k: int| 0 <= k < i ==> a@[k] == b@[k],
        decreases n - i,
    {
        if a.get_char(i) != b.get_char(i) {
            return false;
        }
        i = i + 1;
    }
    assert(a@ =~= b@);
    true
}

/// Lexicographic order of texts by character code, the order of `String`'s `Ord`.
pub open spec fn text_le(a: Seq<char>, b: Seq<char>) -> bool
    decreases a.len(),
{
    if a.len() == 0 {
        true
    } else if b.len() == 0 {
        false
    } else if a[0] != b[0] {
        a[0] < b[0]
    } else {
        text_le(a.drop_first(), b.drop_first())
    }
}

/// `text_le` as a relation.
pub open spec fn text_order() -> spec_fn(Seq<char>, Seq<char>) -> bool {
    |a: Seq<char>, b: Seq<char>| text_le(a, b)
}

proof fn lemma_text_le_reflexive(a: Seq<char>)
    ensures
        text_le(a, a),
    decreases a.len(),
{
    if a.len() > 0 {
        lemma_text_le_reflexive(a.drop_first());
    }
}

proof fn lemma_text_le_antisymmetric(a: Seq<char>, b: Seq<char>)
    requires
        text_le(a, b),
        text_le(b, a),
    ensures
        a == b,
    decreases a.len(),
{
    if a.len() > 0 && b.len() > 0 {
        lemma_text_le_antisymmetric(a.drop_first(), b.drop_first());
        assert(a =~= seq![a[0]] + a.drop_first());
        assert(b =~= seq![b[0]] + b.drop_first());
    }
}

proof fn lemma_text_le_transitive(a: Seq<char>, b: Seq<char>, c: Seq<char>)
    requires
        text_le(a, b),
        text_le(b, c),
    ensures
        text_le(a, c),
    decreases a.len(),
{
    if a.len() > 0 && b.len() > 0 && c.len() > 0 && a[0] == b[0] && b[0] == c[0] {
        lemma_text_le_transitive(a.drop_first(), b.drop_first(), c.drop_first());
    }
}

proof fn lemma_text_le_total(a: Seq<char>, b: Seq<char>)
    ensures
        text_le(a, b) || text_le(b, a),
    decreases a.len(),
{
    if a.len() > 0 && b.len() > 0 {
        if a[0] == b[0] {
            lemma_text_le_total(a.drop_first(), b.drop_first());
        }
    }
}

/// `text_le` is a total order.
pub proof fn lemma_text_order_total()
    ensures
        total_ordering(text_order()),
{
    let r = text_order();
    assert forall|a: Seq<char>| #[trigger] r(a, a) by {
        lemma_text_le_reflexive(a);
    }
    assert forall|a: Seq<char>, b: Seq<char>| #[trigger] r(a, b) && #[trigger] r(b, a) implies a
        == b by {
        lemma_text_le_antisymmetric(a, b);
    }
    assert forall|a: Seq<char>, b: Seq<char>, c: Seq<char>| #[trigger] r(a, b) && #[trigger] r(
        b,
        c,
    ) implies r(a, c) by {
        lemma_text_le_transitive(a, b, c);
    }
    assert forall|a: Seq<char>, b: Seq<char>| #[trigger] r(a, b) || #[trigger] r(b, a) by {
        lemma_text_le_total(a, b);
    }
}

/// Whether `a` comes before `b`, or equals it, in the order of texts.
pub fn text_le_exec(a: &str, b: &str) -> (r: bool)
    ensures
        r == text_le(a@, b@),
{
    let n = a.unicode_len();
    let m = b.unicode_len();
    let mut i: usize = 0;
    proof {
        assert(a@.skip(0) =~= a@);
        assert(b@.skip(0) =~= b@);
    }
    while i < n && i < m
        invariant
            n == a@.len(),
            m == b@.len(),
            i <= n,
            i <= m,
            text_le(a@, b@) == text_le(a@.skip(i as int), b@.skip(i as int)),
        decreases n - i,
    {
        let c = a.get_char(i);
        let d = b.get_char(i);
        if c != d {
            return c < d;
        }
        proof {
            assert(a@.skip(i as int).drop_first() =~= a@.skip(i + 1));
            assert(b@.skip(i as int).drop_first() =~= b@.skip(i + 1));
        }
        i = i + 1;
    }
    i == n
}

/// Sorts texts into the order of `text_le`.
pub fn sort_texts(v: &Vec<String>) -> (r: Vec<String>)
    ensures
        texts(r@) == texts(v@).sort_by(text_order()),
{
    let ghost le = text_order();
    proof {
        lemma_text_order_total();
    }
    let mut out: Vec<String> = Vec::new();
    let mut i: usize = 0;
    assert(texts(out@) =~= texts(v@).take(0));
    while i < v.len()
        invariant
            le == text_order(),
            total_ordering(le),
            i <= v@.len(),
            sorted_by(texts(out@), le),
            texts(out@).to_multiset() == texts(v@).take(i as int).to_multiset(),
        decreases v@.len() - i,
    {
        let x = v[i].clone();
        let mut k: usize = 0;
        while k < out.len() && text_le_exec(out[k].as_str(), x.as_str())
            invariant
                k <= out@.len(),
                forall|j: int| 0 <= j < k ==> text_le(#[trigger] out@[j]@, x@),
            decreases out@.len() - k,
        {
            k = k + 1;
        }
        let ghost before = texts(out@);
        proof {
            if k < out@.len() {
                lemma_text_le_total(out@[k as int]@, x@);
            }
            assert forall|j: int| k <= j < before.len() implies text_le(x@, #[trigger] before[j]) by {
                if j > k {
                    assert(le(before[k as int], before[j]));
                    lemma_text_le_transitive(x@, before[k as int], before[j]);
                }
            }
        }
        out.insert(k, x);
        proof {
            let after = texts(out@);
            assert(after =~= before.insert(k as int, x@));
            assert forall|a: int, b: int| 0 <= a < b < after.len() implies #[trigger] le(
                after[a],
                after[b],
            ) by {
                if b < k {
                    assert(le(before[a], before[b]));
                } else if a > k {
                    assert(le(before[a - 1], before[b - 1]));
                } else if a == k {
                    assert(text_le(x@, before[b - 1]));
                } else if b == k {
                    assert(text_le(before[a], x@));
                } else {
                    assert(le(before[a], before[b - 1]));
                }
            }
            vstd::seq_lib::to_multiset_insert(before, k as int, x@);
            let taken = texts(v@).take(i as int);
            assert(texts(v@).take(i + 1) =~= taken.push(x@));
            vstd::seq_lib::to_multiset_build(taken, x@);
        }
        i = i + 1;
    }
    proof {
        assert(texts(v@).take(v@.len() as int) =~= texts(v@));
        texts(v@).lemma_sort_by_ensures(le);
        lemma_sorted_unique(texts(out@), texts(v@).sort_by(le), le);
    }
    out
}

/// The texts of `v` with `sep` between each two.
pub open spec fn join_by(v: Seq<Seq<char>>, sep: Seq<char>) -> Seq<char>
    decreases v.len(),
{
    if v.len() == 0 {
        Seq::empty()
    } else if v.len() == 1 {
        v[0]
    } else {
        join_by(v.drop_last(), sep) + sep + v.last()
    }
}

/// Joins texts with a separator.
pub fn join_texts(v: &Vec<String>, sep: &str) -> (r: String)
    ensures
        r@ == join_by(texts(v@), sep@),
{
    let mut out = String::new();
    let mut i: usize = 0;
    while i < v.len()
        invariant
            i <= v@.len(),
            out@ == join_by(texts(v@).take(i as int), sep@),
        decreases v@.len() - i,
    {
        proof {
            let t = texts(v@).take(i + 1);
            assert(t.drop_last() =~= texts(v@).take(i as int));
        }
        if i > 0 {
            out.append(sep);
        }
        out.append(v[i].as_str());
        i = i + 1;
    }
    assert(texts(v@).take(v@.len() as int) =~= texts(v@));
    out
}

/// What `str::trim` makes of a text.
pub uninterp spec fn trim_of(s: Seq<char>) -> Seq<char>;

/// Relies on `str::trim`: white space removed at both ends, a function of
/// the text alone.
#[verifier::external_body]
fn trim_text<'a>(s: &'a str) -> (r: &'a str)
    ensures
        r@ == trim_of(s@),
{
    s.trim()
}

/// The fields of one line of a colon-separated database.
pub open spec fn line_fields(line: Seq<char>) -> Seq<Seq<char>> {
    split_by(trim_of(line), seq![':'])
}

/// Splits a database line, trimmed, into its colon-separated fields.
pub fn record_fields(line: &str) -> (r: Vec<String>)
    ensures
        texts(r@) == line_fields(line@),
{
    let t = trim_text(line);
    let sep = ":";
    proof {
        reveal_strlit(":");
        assert(sep@ =~= seq![':']);
    }
    split_text(t, sep)
}

/// The fields of every line of a database.
pub open spec fn db_records(lines: Seq<String>) -> Seq<Seq<Seq<char>>> {
    lines.map_values(|l: String| line_fields(l@))
}

/// Every record has at least `n` fields.
pub open spec fn all_have_fields(recs: Seq<Seq<Seq<char>>>, n: int) -> bool {
    forall|i: int| 0 <= i < recs.len() ==> #[trigger] recs[i].len() >= n
}

/// The first record whose first field is `key`.
pub open spec fn find_named(recs: Seq<Seq<Seq<char>>>, key: Seq<char>) -> Option<Seq<Seq<char>>>
    decreases recs.len(),
{
    if recs.len() == 0 {
        None
    } else if recs[0][0] == key {
        Some(recs[0])
    } else {
        find_named(recs.drop_first(), key)
    }
}

/// The views of an optional text.
pub open spec fn opt_text(o: Option<&str>) -> Option<Seq<char>> {
    match o {
        Some(t) => Some(t@),
        None => None,
    }
}

/// The views of an optional list of strings.
pub open spec fn opt_texts(o: Option<Vec<String>>) -> Option<Seq<Seq<char>>> {
    match o {
        Some(v) => Some(texts(v@)),
        None => None,
    }
}

/// The fields of the first line of `lines` whose first field is `key`.
pub fn find_record(lines: &Vec<String>, key: &str) -> (r: Option<Vec<String>>)
    ensures
        opt_texts(r) == find_named(db_records(lines@), key@),
{
    let ghost recs = db_records(lines@);
    let mut i: usize = 0;
    assert(recs.skip(0) =~= recs);
    while i < lines.len()
        invariant
            recs == db_records(lines@),
            i <= lines@.len(),
            find_named(recs, key@) == find_named(recs.skip(i as int), key@),
        decreases lines@.len() - i,
    {
        let fields = record_fields(lines[i].as_str());
        proof {
            lemma_split_nonempty(trim_of(lines@[i as int]@), seq![':']);
            assert(recs.skip(i as int)[0] == texts(fields@));
            assert(recs.skip(i as int).drop_first() =~= recs.skip(i + 1));
        }
        if text_eq(fields[0].as_str(), key) {
            return Some(fields);
        }
        i = i + 1;
    }
    None
}

/// Whether `t` is one of the texts of `v`.
pub fn contains_text(v: &Vec<String>, t: &str) -> (r: bool)
    ensures
        r == texts(v@).contains(t@),
{
    let mut i: usize = 0;
    while i < v.len()
        invariant
            i <= v@.len(),
            forall|k: int| 0 <= k < i ==> texts(v@)[k] != t@,
        decreases v@.len() - i,
    {
        if text_eq(v[i].as_str(), t) {
            assert(texts(v@)[i as int] == t@);
            return true;
        }
        i = i + 1;
    }
    false
}

/// Whether two lists hold the same texts in the same order.
pub fn texts_eq(a: &Vec<String>, b: &Vec<String>) -> (r: bool)
    ensures
        r == (texts(a@) == texts(b@)),
{
    if a.len() != b.len() {
        assert(texts(a@).len() != texts(b@).len());
        return false;
    }
    let mut i: usize = 0;
    while i < a.len()
        invariant
            a@.len() == b@.len(),
            i <= a@.len(),
            forall|k: int| 0 <= k < i ==> texts(a@)[k] == texts(b@)[k],
        decreases a@.len() - i,
    {
        if a[i] != b[i] {
            assert(texts(a@)[i as int] != texts(b@)[i as int]);
            return false;
        }
        i = i + 1;
    }
    assert(texts(a@) =~= texts(b@));
    true
}

} // verus!

//! The canonical query string: pairs sorted by key, percent-encoded, joined.
use vstd::prelude::*;

verus! {

/// The uppercase hexadecimal digit for a value below sixteen.
pub open spec fn upper_hex_digit(n: int) -> char {
    seq!['0', '1', '2', '3', '4', '5', '6', '7', '8', '9', 'A', 'B', 'C', 'D', 'E', 'F'][n]
}

/// The characters kept as they are: ASCII letters, digits, `-`, `.`, `_`
/// and `~`.
pub open spec fn uri_unreserved(c: char) -> bool {
    ('A' <= c <= 'Z') || ('a' <= c <= 'z') || ('0' <= c <= '9') || c == '-' || c == '.' || c
        == '_' || c == '~'
}

/// Each byte as `%` and two uppercase hexadecimal digits.
pub open spec fn percent_bytes(b: Seq<u8>) -> Seq<char>
    decreases b.len(),
{
    if b.len() == 0 {
        Seq::empty()
    } else {
        percent_bytes(b.drop_last()) + seq![
            '%',
            upper_hex_digit(b.last() as int / 16),
            upper_hex_digit(b.last() as int % 16),
        ]
    }
}

/// One character encoded: kept where unreserved, else its UTF-8 bytes
/// percent-encoded.
pub open spec fn uri_char(c: char) -> Seq<char> {
    if uri_unreserved(c) {
        seq![c]
    } else {
        percent_bytes(vstd::utf8::encode_utf8(seq![c]))
    }
}

/// The percent-encoding of a text, unreserved characters kept.
pub open spec fn uri_encoded(s: Seq<char>) -> Seq<char>
    decreases s.len(),
{
    if s.len() == 0 {
        Seq::empty()
    } else {
        uri_encoded(s.drop_last()) + uri_char(s.last())
    }
}

fn upper_hex_text(n: u8) -> (r: &'static str)
    requires
        n < 16,
    ensures
        r@ == seq![upper_hex_digit(n as int)],
{
    proof {
        reveal_strlit("0");
        reveal_strlit("1");
        reveal_strlit("2");
        reveal_strlit("3");
        reveal_strlit("4");
        reveal_strlit("5");
        reveal_strlit("6");
        reveal_strlit("7");
        reveal_strlit("8");
        reveal_strlit("9");
        reveal_strlit("A");
        reveal_strlit("B");
        reveal_strlit("C");
        reveal_strlit("D");
        reveal_strlit("E");
        reveal_strlit("F");
    }
    let r = if n == 0 {
        "0"
    } else if n == 1 {
        "1"
    } else if n == 2 {
        "2"
    } else if n == 3 {
        "3"
    } else if n == 4 {
        "4"
    } else if n == 5 {
        "5"
    } else if n == 6 {
        "6"
    } else if n == 7 {
        "7"
    } else if n == 8 {
        "8"
    } else if n == 9 {
        "9"
    } else if n == 10 {
        "A"
    } else if n == 11 {
        "B"
    } else if n == 12 {
        "C"
    } else if n == 13 {
        "D"
    } else if n == 14 {
        "E"
    } else {
        "F"
    };
    assert(r@ =~= seq![upper_hex_digit(n as int)]);
    r
}

fn append_percent(out: &mut String, b: &[u8])
    ensures
        final(out)@ == old(out)@ + percent_bytes(b@),
{
    let mut i: usize = 0;
    while i < b.len()
        invariant
            i <= b@.len(),
            out@ == old(out)@ + percent_bytes(b@.take(i as int)),
        decreases b@.len() - i,
    {
        proof {
            reveal_strlit("%");
            assert(b@.take(i + 1).drop_last() =~= b@.take(i as int));
        }
        out.append("%");
        out.append(upper_hex_text(b[i] / 16));
        out.append(upper_hex_text(b[i] % 16));
        assert(out@ =~= old(out)@ + percent_bytes(b@.take(i + 1)));
        i = i + 1;
    }
    assert(b@.take(b@.len() as int) =~= b@);
}

fn is_unreserved(c: char) -> (r: bool)
    ensures
        r == uri_unreserved(c),
{
    ('A' <= c && c <= 'Z') || ('a' <= c && c <= 'z') || ('0' <= c && c <= '9') || c == '-' || c
        == '.' || c == '_' || c == '~'
}

/// The percent-encoding of a text: ASCII letters, digits, `-`, `.`, `_` and
/// `~` kept, every other character as its UTF-8 bytes, each `%XX` in
/// uppercase hexadecimal.
pub fn uri_encode(s: &str) -> (r: String)
    ensures
        r@ == uri_encoded(s@),
{
    let n = s.unicode_len();
    let mut out = String::new();
    let mut i: usize = 0;
    while i < n
        invariant
            n == s@.len(),
            i <= n,
            out@ == uri_encoded(s@.take(i as int)),
        decreases n - i,
    {
        let c = s.get_char(i);
        let piece = s.substring_char(i, i + 1);
        proof {
            assert(s@.take(i + 1).drop_last() =~= s@.take(i as int));
            assert(piece@ =~= seq![c]);
        }
        if is_unreserved(c) {
            out.append(piece);
        } else {
            append_percent(&mut out, piece.as_bytes());
        }
        assert(out@ =~= uri_encoded(s@.take(i + 1)));
        i = i + 1;
    }
    assert(s@.take(n as int) =~= s@);
    out
}

/// Byte-wise lexicographic order, a proper prefix first.
pub open spec fn bytes_lt(a: Seq<u8>, b: Seq<u8>) -> bool
    decreases a.len(),
{
    if b.len() == 0 {
        false
    } else if a.len() == 0 {
        true
    } else if a[0] != b[0] {
        a[0] < b[0]
    } else {
        bytes_lt(a.drop_first(), b.drop_first())
    }
}

/// The UTF-8 bytes of a pair's key.
pub open spec fn key_bytes(p: (String, String)) -> Seq<u8> {
    vstd::utf8::encode_utf8(p.0@)
}

/// `p` inserted into `s` before the first pair whose key is greater.
pub open spec fn insert_pair(p: (String, String), s: Seq<(String, String)>) -> Seq<(String, String)>
    decreases s.len(),
{
    if s.len() == 0 {
        seq![p]
    } else if bytes_lt(key_bytes(p), key_bytes(s[0])) {
        seq![p] + s
    } else {
        seq![s[0]] + insert_pair(p, s.drop_first())
    }
}

/// The pairs sorted by key; pairs of equal keys keep their order.
pub open spec fn sort_pairs(s: Seq<(String, String)>) -> Seq<(String, String)>
    decreases s.len(),
{
    if s.len() == 0 {
        s
    } else {
        insert_pair(s.last(), sort_pairs(s.drop_last()))
    }
}

/// `key=value`, both percent-encoded.
pub open spec fn pair_text(p: (String, String)) -> Seq<char> {
    uri_encoded(p.0@) + seq!['='] + uri_encoded(p.1@)
}

/// The pairs' texts joined with `&`.
pub open spec fn join_pairs(s: Seq<(String, String)>) -> Seq<char>
    decreases s.len(),
{
    if s.len() == 0 {
        Seq::empty()
    } else if s.len() == 1 {
        pair_text(s[0])
    } else {
        join_pairs(s.drop_last()) + seq!['&'] + pair_text(s.last())
    }
}

/// The canonical query string of the pairs.
pub open spec fn canonical_query(s: Seq<(String, String)>) -> Seq<char> {
    join_pairs(sort_pairs(s))
}

fn key_less(a: &str, b: &str) -> (r: bool)
    ensures
        r == bytes_lt(vstd::utf8::encode_utf8(a@), vstd::utf8::encode_utf8(b@)),
{
    let x = a.as_bytes();
    let y = b.as_bytes();
    let mut i: usize = 0;
    assert(x@.skip(0) =~= x@);
    assert(y@.skip(0) =~= y@);
    while i < x.len() && i < y.len() && x[i] == y[i]
        invariant
            i <= x@.len(),
            i <= y@.len(),
            bytes_lt(x@, y@) == bytes_lt(x@.skip(i as int), y@.skip(i as int)),
        decreases x@.len() - i,
    {
        assert(x@.skip(i as int).drop_first() =~= x@.skip(i + 1));
        assert(y@.skip(i as int).drop_first() =~= y@.skip(i + 1));
        i = i + 1;
    }
    if i < y.len() && i < x.len() {
        x[i] < y[i]
    } else {
        i < y.len()
    }
}

proof fn lemma_insert_at(p: (String, String), s: Seq<(String, String)>, j: int)
    requires
        0 <= j <= s.len(),
        forall|k: int| 0 <= k < j ==> !bytes_lt(key_bytes(p), key_bytes(#[trigger] s[k])),
        j < s.len() ==> bytes_lt(key_bytes(p), key_bytes(s[j])),
    ensures
        insert_pair(p, s) == s.insert(j, p),
    decreases s.len(),
{
    if s.len() == 0 {
        assert(s.insert(j, p) =~= seq![p]);
    } else if j == 0 {
        assert(s.insert(j, p) =~= seq![p] + s);
    } else {
        let t = s.drop_first();
        assert forall|k: int| 0 <= k < j - 1 implies !bytes_lt(key_bytes(p), key_bytes(#[trigger] t[k])) by {
            assert(t[k] == s[k + 1]);
        }
        lemma_insert_at(p, t, j - 1);
        assert(s.insert(j, p) =~= seq![s[0]] + t.insert(j - 1, p));
    }
}

/// The pairs sorted by key, equal keys in their order.
pub fn sorted_pairs(query: &Vec<(String, String)>) -> (r: Vec<(String, String)>)
    ensures
        r@ == sort_pairs(query@),
{
    let mut out: Vec<(String, String)> = Vec::new();
    let mut i: usize = 0;
    while i < query.len()
        invariant
            i <= query@.len(),
            out@ == sort_pairs(query@.take(i as int)),
        decreases query@.len() - i,
    {
        let p = (query[i].0.clone(), query[i].1.clone());
        assert(p == query@[i as int]);
        let mut j: usize = 0;
        while j < out.len() && !key_less(p.0.as_str(), out[j].0.as_str())
            invariant
                j <= out@.len(),
                forall|k: int| 0 <= k < j ==> !bytes_lt(key_bytes(p), key_bytes(#[trigger] out@[k])),
            decreases out@.len() - j,
        {
            j = j + 1;
        }
        proof {
            lemma_insert_at(p, out@, j as int);
            assert(query@.take(i + 1).drop_last() =~= query@.take(i as int));
        }
        out.insert(j, p);
        i = i + 1;
    }
    assert(query@.take(query@.len() as int) =~= query@);
    out
}

/// The canonical query string: the pairs sorted by key, each as
/// `key=value` with both percent-encoded, joined with `&`.
pub fn canonical_query_string(query: &Vec<(String, String)>) -> (r: String)
    ensures
        r@ == canonical_query(query@),
{
    let sorted = sorted_pairs(query);
    let mut s = String::new();
    let mut i: usize = 0;
    while i < sorted.len()
        invariant
            i <= sorted@.len(),
            sorted@ == sort_pairs(query@),
            s@ == join_pairs(sorted@.take(i as int)),
        decreases sorted@.len() - i,
    {
        proof {
            reveal_strlit("&");
            reveal_strlit("=");
            assert(sorted@.take(i + 1).drop_last() =~= sorted@.take(i as int));
        }
        if i > 0 {
            s.append("&");
        }
        let k = uri_encode(sorted[i].0.as_str());
        let v = uri_encode(sorted[i].1.as_str());
        s.append(k.as_str());
        s.append("=");
        s.append(v.as_str());
        assert(s@ =~= join_pairs(sorted@.take(i + 1)));
        i = i + 1;
    }
    assert(sorted@.take(sorted@.len() as int) =~= sorted@);
    s
}

proof fn lemma_lt_irreflexive(a: Seq<u8>)
    ensures
        !bytes_lt(a, a),
    decreases a.len(),
{
    if a.len() > 0 {
        lemma_lt_irreflexive(a.drop_first());
    }
}

proof fn lemma_lt_transitive(a: Seq<u8>, b: Seq<u8>, c: Seq<u8>)
    requires
        bytes_lt(a, b),
        bytes_lt(b, c),
    ensures
        bytes_lt(a, c),
    decreases a.len(),
{
    if a.len() > 0 && b.len() > 0 && c.len() > 0 && a[0] == b[0] && b[0] == c[0] {
        lemma_lt_transitive(a.drop_first(), b.drop_first(), c.drop_first());
    }
}

proof fn lemma_lt_total(a: Seq<u8>, b: Seq<u8>)
    requires
        a != b,
    ensures
        bytes_lt(a, b) || bytes_lt(b, a),
    decreases a.len(),
{
    if a.len() > 0 && b.len() > 0 && a[0] == b[0] {
        if a.drop_first() == b.drop_first() {
            assert(a =~= seq![a[0]] + a.drop_first());
            assert(b =~= seq![b[0]] + b.drop_first());
        }
        lemma_lt_total(a.drop_first(), b.drop_first());
    } else if a.len() == 0 && b.len() == 0 {
        assert(a =~= b);
    }
}

/// Each key strictly below the keys after it.
pub open spec fn strictly_sorted(s: Seq<(String, String)>) -> bool {
    forall|i: int, j: int|
        0 <= i < j < s.len() ==> bytes_lt(key_bytes(#[trigger] s[i]), key_bytes(#[trigger] s[j]))
}

/// No two pairs share a key.
pub open spec fn distinct_keys(s: Seq<(String, String)>) -> bool {
    forall|i: int, j: int| 0 <= i < j < s.len() ==> (#[trigger] s[i]).0@ != (#[trigger] s[j]).0@
}

/// The same pairs, each in either sequence also in the other.
pub open spec fn same_pairs(a: Seq<(String, String)>, b: Seq<(String, String)>) -> bool {
    forall|x: (String, String)| a.contains(x) <==> b.contains(x)
}

proof fn lemma_key_bytes_differ(p: (String, String), q: (String, String))
    requires
        p.0@ != q.0@,
    ensures
        key_bytes(p) != key_bytes(q),
{
    vstd::utf8::encode_utf8_decode_utf8(p.0@);
    vstd::utf8::encode_utf8_decode_utf8(q.0@);
}

proof fn lemma_insert_sorted(p: (String, String), s: Seq<(String, String)>)
    requires
        strictly_sorted(s),
        forall|k: int| 0 <= k < s.len() ==> (#[trigger] s[k]).0@ != p.0@,
    ensures
        strictly_sorted(insert_pair(p, s)),
        forall|x: (String, String)| #[trigger]
            insert_pair(p, s).contains(x) <==> (x == p || s.contains(x)),
    decreases s.len(),
{
    let r = insert_pair(p, s);
    if s.len() == 0 {
        assert forall|x: (String, String)| r.contains(x) <==> (x == p || s.contains(x)) by {
            if r.contains(x) {
                assert(r[0] == x);
            } else if x == p {
                assert(r[0] == p);
            }
        }
    } else if bytes_lt(key_bytes(p), key_bytes(s[0])) {
        assert forall|i: int, j: int| 0 <= i < j < r.len() implies bytes_lt(
            key_bytes(#[trigger] r[i]),
            key_bytes(#[trigger] r[j]),
        ) by {
            if i == 0 {
                if j > 1 {
                    assert(bytes_lt(key_bytes(s[0]), key_bytes(s[j - 1])));
                    lemma_lt_transitive(key_bytes(p), key_bytes(s[0]), key_bytes(s[j - 1]));
                }
            } else {
                assert(r[i] == s[i - 1] && r[j] == s[j - 1]);
            }
        }
        assert forall|x: (String, String)| r.contains(x) <==> (x == p || s.contains(x)) by {
            if r.contains(x) {
                let k = choose|k: int| 0 <= k < r.len() && r[k] == x;
                if k > 0 {
                    assert(s[k - 1] == x);
                }
            } else if x == p {
                assert(r[0] == p);
            } else if s.contains(x) {
                let k = choose|k: int| 0 <= k < s.len() && s[k] == x;
                assert(r[k + 1] == x);
            }
        }
    } else {
        let t = s.drop_first();
        assert forall|i: int, j: int| 0 <= i < j < t.len() implies bytes_lt(
            key_bytes(#[trigger] t[i]),
            key_bytes(#[trigger] t[j]),
        ) by {
            assert(t[i] == s[i + 1] && t[j] == s[j + 1]);
        }
        assert forall|k: int| 0 <= k < t.len() implies (#[trigger] t[k]).0@ != p.0@ by {
            assert(t[k] == s[k + 1]);
        }
        lemma_insert_sorted(p, t);
        let u = insert_pair(p, t);
        assert(r == seq![s[0]] + u);
        lemma_key_bytes_differ(s[0], p);
        lemma_lt_total(key_bytes(p), key_bytes(s[0]));
        assert forall|i: int, j: int| 0 <= i < j < r.len() implies bytes_lt(
            key_bytes(#[trigger] r[i]),
            key_bytes(#[trigger] r[j]),
        ) by {
            if i == 0 {
                assert(r[j] == u[j - 1]);
                assert(u.contains(u[j - 1]));
                if u[j - 1] != p {
                    assert(t.contains(u[j - 1]));
                    let k = choose|k: int| 0 <= k < t.len() && t[k] == u[j - 1];
                    assert(s[k + 1] == u[j - 1]);
                    assert(bytes_lt(key_bytes(s[0]), key_bytes(s[k + 1])));
                }
            } else {
                assert(r[i] == u[i - 1] && r[j] == u[j - 1]);
            }
        }
        assert forall|x: (String, String)| r.contains(x) <==> (x == p || s.contains(x)) by {
            if r.contains(x) {
                let k = choose|k: int| 0 <= k < r.len() && r[k] == x;
                if k == 0 {
                    assert(s[0] == x);
                } else {
                    assert(u[k - 1] == x);
                    assert(u.contains(x));
                    if x != p {
                        assert(t.contains(x));
                        let m = choose|m: int| 0 <= m < t.len() && t[m] == x;
                        assert(s[m + 1] == x);
                    }
                }
            } else if x == p {
                assert(u.contains(p));
                let k = choose|k: int| 0 <= k < u.len() && u[k] == p;
                assert(r[k + 1] == p);
            } else if s.contains(x) {
                let k = choose|k: int| 0 <= k < s.len() && s[k] == x;
                if k == 0 {
                    assert(r[0] == x);
                } else {
                    assert(t[k - 1] == x);
                    assert(t.contains(x));
                    assert(u.contains(x));
                    let m = choose|m: int| 0 <= m < u.len() && u[m] == x;
                    assert(r[m + 1] == x);
                }
            }
        }
    }
}

proof fn lemma_sort_sorted(s: Seq<(String, String)>)
    requires
        distinct_keys(s),
    ensures
        strictly_sorted(sort_pairs(s)),
        forall|x: (String, String)| #[trigger] sort_pairs(s).contains(x) <==> s.contains(x),
        forall|k: int|
            0 <= k < sort_pairs(s).len() ==> s.contains(#[trigger] sort_pairs(s)[k]),
    decreases s.len(),
{
    if s.len() > 0 {
        let d = s.drop_last();
        assert forall|i: int, j: int| 0 <= i < j < d.len() implies (#[trigger] d[i]).0@ != (
        #[trigger] d[j]).0@ by {
            assert(d[i] == s[i] && d[j] == s[j]);
        }
        lemma_sort_sorted(d);
        let sd = sort_pairs(d);
        assert forall|k: int| 0 <= k < sd.len() implies (#[trigger] sd[k]).0@ != s.last().0@ by {
            assert(d.contains(sd[k]));
            let m = choose|m: int| 0 <= m < d.len() && d[m] == sd[k];
            assert(s[m] == sd[k]);
        }
        lemma_insert_sorted(s.last(), sd);
        assert forall|x: (String, String)| sort_pairs(s).contains(x) <==> s.contains(x) by {
            if s.contains(x) {
                let k = choose|k: int| 0 <= k < s.len() && s[k] == x;
                if k < s.len() - 1 {
                    assert(d[k] == x);
                    assert(d.contains(x));
                }
            }
            if d.contains(x) {
                let k = choose|k: int| 0 <= k < d.len() && d[k] == x;
                assert(s[k] == x);
            }
        }
        assert forall|k: int| 0 <= k < sort_pairs(s).len() implies s.contains(
            #[trigger] sort_pairs(s)[k],
        ) by {
            assert(sort_pairs(s).contains(sort_pairs(s)[k]));
        }
    }
}

proof fn lemma_sorted_unique(a: Seq<(String, String)>, b: Seq<(String, String)>)
    requires
        strictly_sorted(a),
        strictly_sorted(b),
        same_pairs(a, b),
    ensures
        a == b,
    decreases a.len() + b.len(),
{
    if a.len() == 0 && b.len() > 0 {
        assert(b.contains(b[0]));
    } else if b.len() == 0 && a.len() > 0 {
        assert(a.contains(a[0]));
    } else if a.len() > 0 && b.len() > 0 {
        assert(a.contains(a[0]) && b.contains(b[0]));
        let i = choose|i: int| 0 <= i < b.len() && b[i] == a[0];
        let j = choose|j: int| 0 <= j < a.len() && a[j] == b[0];
        if a[0] != b[0] {
            assert(i > 0 && j > 0);
            assert(bytes_lt(key_bytes(b[0]), key_bytes(b[i])));
            assert(bytes_lt(key_bytes(a[0]), key_bytes(a[j])));
            lemma_lt_transitive(key_bytes(a[0]), key_bytes(b[0]), key_bytes(a[0]));
            lemma_lt_irreflexive(key_bytes(a[0]));
        }
        let ta = a.drop_first();
        let tb = b.drop_first();
        assert forall|i2: int, j2: int| 0 <= i2 < j2 < ta.len() implies bytes_lt(
            key_bytes(#[trigger] ta[i2]),
            key_bytes(#[trigger] ta[j2]),
        ) by {
            assert(ta[i2] == a[i2 + 1] && ta[j2] == a[j2 + 1]);
        }
        assert forall|i2: int, j2: int| 0 <= i2 < j2 < tb.len() implies bytes_lt(
            key_bytes(#[trigger] tb[i2]),
            key_bytes(#[trigger] tb[j2]),
        ) by {
            assert(tb[i2] == b[i2 + 1] && tb[j2] == b[j2 + 1]);
        }
        assert forall|x: (String, String)| ta.contains(x) <==> tb.contains(x) by {
            if ta.contains(x) {
                let k = choose|k: int| 0 <= k < ta.len() && ta[k] == x;
                assert(a[k + 1] == x);
                assert(a.contains(x));
                assert(bytes_lt(key_bytes(a[0]), key_bytes(a[k + 1])));
                lemma_lt_irreflexive(key_bytes(a[0]));
                assert(b.contains(x));
                let m = choose|m: int| 0 <= m < b.len() && b[m] == x;
                assert(m != 0);
                assert(tb[m - 1] == x);
            }
            if tb.contains(x) {
                let k = choose|k: int| 0 <= k < tb.len() && tb[k] == x;
                assert(b[k + 1] == x);
                assert(b.contains(x));
                assert(bytes_lt(key_bytes(b[0]), key_bytes(b[k + 1])));
                lemma_lt_irreflexive(key_bytes(b[0]));
                assert(a.contains(x));
                let m = choose|m: int| 0 <= m < a.len() && a[m] == x;
                assert(m != 0);
                assert(ta[m - 1] == x);
            }
        }
        lemma_sorted_unique(ta, tb);
        assert(a =~= seq![a[0]] + ta);
        assert(b =~= seq![b[0]] + tb);
    }
}

/// The canonical query string does not depend on the order in which the
/// pairs were given: two sequences that hold the same pairs, each with
/// distinct keys, have the same canonical query string.
pub proof fn lemma_canonical_query_order_free(a: Seq<(String, String)>, b: Seq<(String, String)>)
    requires
        distinct_keys(a),
        distinct_keys(b),
        same_pairs(a, b),
    ensures
        canonical_query(a) == canonical_query(b),
{
    lemma_sort_sorted(a);
    lemma_sort_sorted(b);
    lemma_sorted_unique(sort_pairs(a), sort_pairs(b));
}

} // verus!

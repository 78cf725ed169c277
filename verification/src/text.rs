use vstd::prelude::*;
use vstd::string::*;

verus! {

/// `s` with `prefix` removed from its front, or `None` when `s` does not start
/// with `prefix` (character-wise, as `str::strip_prefix` does).
pub open spec fn strip_prefix_spec(s: Seq<char>, prefix: Seq<char>) -> Option<Seq<char>> {
    if prefix.len() <= s.len() && s.subrange(0, prefix.len() as int) == prefix {
        Some(s.subrange(prefix.len() as int, s.len() as int))
    } else {
        None
    }
}

/// Remove `prefix` from the front of `s`.
pub fn strip_prefix(s: &str, prefix: &str) -> (r: Option<String>)
    ensures
        match strip_prefix_spec(s@, prefix@) {
            Some(rest) => r is Some && r->0@ == rest,
            None => r is None,
        },
{
    let n = s.unicode_len();
    let m = prefix.unicode_len();
    if m > n {
        return None;
    }
    let mut i: usize = 0;
    while i < m
        invariant
            n == s@.len(),
            m == prefix@.len(),
            m <= n,
            0 <= i <= m,
            forall|j: int| 0 <= j < i ==> s@[j] == prefix@[j],
        decreases m - i,
    {
        if s.get_char(i) != prefix.get_char(i) {
            proof {
                assert(s@.subrange(0, m as int)[i as int] != prefix@[i as int]);
            }
            return None;
        }
        i = i + 1;
    }
    proof {
        assert(s@.subrange(0, m as int) =~= prefix@);
    }
    let rest = s.substring_char(m, n);
    Some(rest.to_owned())
}

/// Whether two texts are equal.
pub fn str_eq(a: &str, b: &str) -> (r: bool)
    ensures
        r == (a@ == b@),
{
    let x = a.to_owned();
    let y = b.to_owned();
    x == y
}

/// Byte-wise lexicographic order (`a <= b`), the order Rust uses for `String`.
pub open spec fn bytes_le(a: Seq<u8>, b: Seq<u8>) -> bool
    decreases a.len(),
{
    if a.len() == 0 {
        true
    } else if b.len() == 0 {
        false
    } else if a[0] != b[0] {
        a[0] < b[0]
    } else {
        bytes_le(a.drop_first(), b.drop_first())
    }
}

/// `a <= b` in the order of `String`'s `Ord`: byte-wise on the UTF-8 encodings.
pub open spec fn text_le(a: Seq<char>, b: Seq<char>) -> bool {
    bytes_le(vstd::utf8::encode_utf8(a), vstd::utf8::encode_utf8(b))
}

proof fn lemma_bytes_le_total(a: Seq<u8>, b: Seq<u8>)
    ensures
        bytes_le(a, b) || bytes_le(b, a),
    decreases a.len(),
{
    if a.len() > 0 && b.len() > 0 && a[0] == b[0] {
        lemma_bytes_le_total(a.drop_first(), b.drop_first());
    }
}

proof fn lemma_bytes_le_trans(a: Seq<u8>, b: Seq<u8>, c: Seq<u8>)
    requires
        bytes_le(a, b),
        bytes_le(b, c),
    ensures
        bytes_le(a, c),
    decreases a.len(),
{
    if a.len() > 0 && b.len() > 0 && c.len() > 0 && a[0] == b[0] && b[0] == c[0] {
        lemma_bytes_le_trans(a.drop_first(), b.drop_first(), c.drop_first());
    }
}

/// `text_le` is a total preorder.
pub proof fn lemma_text_le_total(a: Seq<char>, b: Seq<char>)
    ensures
        text_le(a, b) || text_le(b, a),
{
    lemma_bytes_le_total(vstd::utf8::encode_utf8(a), vstd::utf8::encode_utf8(b));
}

/// `text_le` is transitive.
pub proof fn lemma_text_le_trans(a: Seq<char>, b: Seq<char>, c: Seq<char>)
    requires
        text_le(a, b),
        text_le(b, c),
    ensures
        text_le(a, c),
{
    lemma_bytes_le_trans(
        vstd::utf8::encode_utf8(a),
        vstd::utf8::encode_utf8(b),
        vstd::utf8::encode_utf8(c),
    );
}

/// Compare two texts in `String` order: `a <= b`.
pub fn text_le_exec(a: &str, b: &str) -> (r: bool)
    ensures
        r == text_le(a@, b@),
{
    let x = a.as_bytes();
    let y = b.as_bytes();
    let ghost xs = x@;
    let ghost ys = y@;
    let mut i: usize = 0;
    proof {
        assert(xs.skip(0) =~= xs);
        assert(ys.skip(0) =~= ys);
    }
    while i < x.len() && i < y.len()
        invariant
            xs == x@,
            ys == y@,
            xs == a.spec_bytes(),
            ys == b.spec_bytes(),
            0 <= i <= xs.len(),
            i <= ys.len(),
            bytes_le(xs, ys) == bytes_le(xs.skip(i as int), ys.skip(i as int)),
        decreases xs.len() - i,
    {
        if x[i] != y[i] {
            proof {
                assert(xs.skip(i as int)[0] == xs[i as int]);
                assert(ys.skip(i as int)[0] == ys[i as int]);
            }
            return x[i] < y[i];
        }
        proof {
            assert(xs.skip(i as int).drop_first() =~= xs.skip(i + 1));
            assert(ys.skip(i as int).drop_first() =~= ys.skip(i + 1));
        }
        i = i + 1;
    }
    proof {
        if i == xs.len() {
            assert(xs.skip(i as int).len() == 0);
        } else {
            assert(ys.skip(i as int).len() == 0);
        }
    }
    i == x.len()
}

} // verus!

verus! {

/// The texts of a vector of strings.
pub open spec fn texts(v: Seq<String>) -> Seq<Seq<char>> {
    v.map_values(|s: String| s@)
}

/// `s` is sorted by `text_le`.
pub open spec fn texts_sorted(s: Seq<Seq<char>>) -> bool {
    forall|a: int, c: int| 0 <= a < c < s.len() ==> text_le(#[trigger] s[a], #[trigger] s[c])
}

proof fn lemma_insert_keeps_sorted(before: Seq<Seq<char>>, pos: int, x: Seq<char>)
    requires
        texts_sorted(before),
        0 <= pos <= before.len(),
        forall|a: int| 0 <= a < pos ==> text_le(#[trigger] before[a], x),
        pos < before.len() ==> text_le(x, before[pos]),
    ensures
        texts_sorted(before.insert(pos, x)),
{
    let after = before.insert(pos, x);
    assert forall|a: int, c: int| 0 <= a < c < after.len() implies text_le(
        #[trigger] after[a],
        #[trigger] after[c],
    ) by {
        if c == pos {
        } else if a == pos {
            assert(after[c] == before[c - 1]);
            if c - 1 > pos {
                lemma_text_le_trans(x, before[pos], before[c - 1]);
            }
        } else if c < pos {
            assert(after[a] == before[a] && after[c] == before[c]);
        } else if a > pos {
            assert(after[a] == before[a - 1] && after[c] == before[c - 1]);
        } else {
            assert(after[a] == before[a]);
            assert(after[c] == before[c - 1]);
            lemma_text_le_trans(after[a], x, before[pos]);
            if c - 1 > pos {
                lemma_text_le_trans(after[a], before[pos], before[c - 1]);
            }
        }
    }
}

/// `x` occurs in `s`.
pub open spec fn occurs_in(x: Seq<char>, s: Seq<Seq<char>>) -> bool {
    exists|j: int| 0 <= j < s.len() && s[j] == x
}

/// Every text of `rs` occurs in `vs` and every text of `vs` occurs in `rs`.
pub open spec fn covers(rs: Seq<Seq<char>>, vs: Seq<Seq<char>>) -> bool {
    &&& forall|a: int| 0 <= a < rs.len() ==> occurs_in(#[trigger] rs[a], vs)
    &&& forall|j: int| 0 <= j < vs.len() ==> occurs_in(#[trigger] vs[j], rs)
}

proof fn lemma_covers_insert(before: Seq<Seq<char>>, vs: Seq<Seq<char>>, i: int, pos: int)
    requires
        0 <= i < vs.len(),
        0 <= pos <= before.len(),
        covers(before, vs.take(i)),
    ensures
        covers(before.insert(pos, vs[i]), vs.take(i + 1)),
{
    let after = before.insert(pos, vs[i]);
    let pre = vs.take(i);
    let post = vs.take(i + 1);
    assert forall|a: int| 0 <= a < after.len() implies occurs_in(#[trigger] after[a], post) by {
        if a == pos {
            assert(post[i] == after[a]);
        } else if a < pos {
            assert(after[a] == before[a]);
            assert(occurs_in(before[a], pre));
            let j = choose|j: int| 0 <= j < pre.len() && pre[j] == before[a];
            assert(post[j] == pre[j]);
        } else {
            assert(after[a] == before[a - 1]);
            assert(occurs_in(before[a - 1], pre));
            let j = choose|j: int| 0 <= j < pre.len() && pre[j] == before[a - 1];
            assert(post[j] == pre[j]);
        }
    }
    assert forall|j: int| 0 <= j < post.len() implies occurs_in(#[trigger] post[j], after) by {
        if j == i {
            assert(after[pos] == post[j]);
        } else {
            assert(post[j] == pre[j]);
            assert(occurs_in(pre[j], before));
            let a0 = choose|a0: int| 0 <= a0 < before.len() && before[a0] == pre[j];
            if a0 < pos {
                assert(after[a0] == before[a0]);
            } else {
                assert(after[a0 + 1] == before[a0]);
            }
        }
    }
}

/// Sort texts into `String` order (insertion sort).
pub fn sort_texts(v: Vec<String>) -> (r: Vec<String>)
    ensures
        r@.len() == v@.len(),
        texts_sorted(texts(r@)),
        covers(texts(r@), texts(v@)),
        texts(r@).to_multiset() == texts(v@).to_multiset(),
{
    let n = v.len();
    let ghost vs = texts(v@);
    let mut r: Vec<String> = Vec::new();
    let mut i: usize = 0;
    proof {
        assert(texts(r@) =~= Seq::<Seq<char>>::empty());
        assert(vs.take(0) =~= Seq::<Seq<char>>::empty());
        assert(texts(r@) =~= vs.take(0));
    }
    while i < n
        invariant
            n == v@.len(),
            vs == texts(v@),
            0 <= i <= n,
            r@.len() == i,
            texts_sorted(texts(r@)),
            covers(texts(r@), vs.take(i as int)),
            texts(r@).to_multiset() == vs.take(i as int).to_multiset(),
        decreases n - i,
    {
        let x = v[i].clone();
        let mut pos: usize = 0;
        while pos < r.len() && text_le_exec(r[pos].as_str(), x.as_str())
            invariant
                0 <= pos <= r@.len(),
                forall|a: int| 0 <= a < pos ==> text_le(#[trigger] r@[a]@, x@),
            decreases r@.len() - pos,
        {
            pos = pos + 1;
        }
        let ghost before = r@;
        proof {
            if pos < r@.len() {
                lemma_text_le_total(r@[pos as int]@, x@);
            }
            assert forall|a: int| 0 <= a < pos implies text_le(#[trigger] texts(before)[a], x@) by {
                assert(texts(before)[a] == before[a]@);
            }
            lemma_insert_keeps_sorted(texts(before), pos as int, x@);
            assert(vs[i as int] == x@);
            lemma_covers_insert(texts(before), vs, i as int, pos as int);
        }
        r.insert(pos, x);
        proof {
            assert(texts(r@) =~= texts(before).insert(pos as int, vs[i as int]));
            vstd::seq_lib::to_multiset_insert(texts(before), pos as int, vs[i as int]);
            assert(vs.take(i + 1) =~= vs.take(i as int).push(vs[i as int]));
            vstd::seq_lib::to_multiset_build(vs.take(i as int), vs[i as int]);
        }
        i = i + 1;
    }
    proof {
        assert(vs.take(n as int) =~= vs);
    }
    r
}

} // verus!

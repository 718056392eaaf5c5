//! Text primitives: the order of strings and sorting, white space trimming,
//! splitting at line feeds, and case mapping.

use vstd::prelude::*;

verus! {

/// `a` orders before `b` by the first character where they differ,
/// compared by code point; a proper prefix orders first.
pub open spec fn text_lt(a: Seq<char>, b: Seq<char>) -> bool {
    ||| (a.len() < b.len() && a =~= b.subrange(0, a.len() as int))
    ||| exists|k: int|
        #![trigger a[k], b[k]]
        0 <= k < a.len() && k < b.len() && a.subrange(0, k) =~= b.subrange(0, k) && (a[k] as int)
            < (b[k] as int)
}

/// The order in which the standard library sorts strings.
pub open spec fn text_le(a: Seq<char>, b: Seq<char>) -> bool {
    a =~= b || text_lt(a, b)
}

/// Index of the first position at or after `i` where `a` and `b` differ,
/// or where the shorter of them ends.
pub open spec fn first_difference_from(a: Seq<char>, b: Seq<char>, i: int) -> int
    decreases a.len() - i,
{
    if i < 0 || i >= a.len() || i >= b.len() || a[i] != b[i] {
        i
    } else {
        first_difference_from(a, b, i + 1)
    }
}

/// Length of the common prefix of `a` and `b`.
pub open spec fn common_prefix_len(a: Seq<char>, b: Seq<char>) -> int {
    first_difference_from(a, b, 0)
}

/// `c` is the length of the longest common prefix of `a` and `b`.
pub open spec fn is_common_prefix_len(a: Seq<char>, b: Seq<char>, c: int) -> bool {
    &&& 0 <= c <= a.len()
    &&& c <= b.len()
    &&& forall|j: int| 0 <= j < c ==> #[trigger] a[j] == b[j]
    &&& (c == a.len() || c == b.len() || a[c] != b[c])
}

proof fn lemma_first_difference_from(a: Seq<char>, b: Seq<char>, i: int)
    requires
        0 <= i <= a.len(),
        i <= b.len(),
        forall|j: int| 0 <= j < i ==> #[trigger] a[j] == b[j],
    ensures
        is_common_prefix_len(a, b, first_difference_from(a, b, i)),
    decreases a.len() - i,
{
    if i >= a.len() || i >= b.len() || a[i] != b[i] {
    } else {
        lemma_first_difference_from(a, b, i + 1);
    }
}

proof fn lemma_common_prefix_len_unique(a: Seq<char>, b: Seq<char>, c1: int, c2: int)
    requires
        is_common_prefix_len(a, b, c1),
        is_common_prefix_len(a, b, c2),
    ensures
        c1 == c2,
{
    if c1 < c2 {
        assert(a[c1] == b[c1]);
    } else if c2 < c1 {
        assert(a[c2] == b[c2]);
    }
}

proof fn lemma_common_prefix_len(a: Seq<char>, b: Seq<char>)
    ensures
        is_common_prefix_len(a, b, common_prefix_len(a, b)),
        common_prefix_len(a, b) == common_prefix_len(b, a),
{
    lemma_first_difference_from(a, b, 0);
    lemma_first_difference_from(b, a, 0);
    lemma_common_prefix_len_unique(a, b, common_prefix_len(a, b), common_prefix_len(b, a));
}

/// `text_lt` decided at the first difference.
proof fn lemma_text_lt_at_difference(a: Seq<char>, b: Seq<char>)
    ensures
        text_lt(a, b) <==> {
            let c = common_prefix_len(a, b);
            ||| (c == a.len() && a.len() < b.len())
            ||| (c < a.len() && c < b.len() && (a[c] as int) < (b[c] as int))
        },
{
    lemma_common_prefix_len(a, b);
    let c = common_prefix_len(a, b);
    if a.len() < b.len() && a =~= b.subrange(0, a.len() as int) {
        assert forall|j: int| 0 <= j < a.len() implies #[trigger] a[j] == b[j] by {
            assert(b.subrange(0, a.len() as int)[j] == b[j]);
        }
        lemma_common_prefix_len_unique(a, b, c, a.len() as int);
    }
    if exists|k: int|
        #![trigger a[k], b[k]]
        0 <= k < a.len() && k < b.len() && a.subrange(0, k) =~= b.subrange(0, k) && (a[k] as int)
            < (b[k] as int) {
        let k = choose|k: int|
            #![trigger a[k], b[k]]
            0 <= k < a.len() && k < b.len() && a.subrange(0, k) =~= b.subrange(0, k) && (a[k]
                as int) < (b[k] as int);
        assert forall|j: int| 0 <= j < k implies #[trigger] a[j] == b[j] by {
            assert(a.subrange(0, k)[j] == a[j]);
            assert(b.subrange(0, k)[j] == b[j]);
        }
        lemma_common_prefix_len_unique(a, b, c, k);
    }
    if c == a.len() && a.len() < b.len() {
        assert(a =~= b.subrange(0, a.len() as int));
    }
    if c < a.len() && c < b.len() && (a[c] as int) < (b[c] as int) {
        assert(a.subrange(0, c) =~= b.subrange(0, c));
    }
}

/// No string orders strictly before itself.
pub proof fn lemma_text_lt_irreflexive(a: Seq<char>)
    ensures
        !text_lt(a, a),
{
    lemma_text_lt_at_difference(a, a);
    lemma_common_prefix_len(a, a);
    lemma_common_prefix_len_unique(a, a, common_prefix_len(a, a), a.len() as int);
}

/// Of two strings, at most one orders strictly before the other.
pub proof fn lemma_text_lt_asymmetric(a: Seq<char>, b: Seq<char>)
    ensures
        !(text_lt(a, b) && text_lt(b, a)),
{
    lemma_text_lt_at_difference(a, b);
    lemma_text_lt_at_difference(b, a);
    lemma_common_prefix_len(a, b);
}

/// Strict ordering of strings is transitive.
pub proof fn lemma_text_lt_transitive(a: Seq<char>, b: Seq<char>, c: Seq<char>)
    requires
        text_lt(a, b),
        text_lt(b, c),
    ensures
        text_lt(a, c),
{
    lemma_text_lt_at_difference(a, b);
    lemma_text_lt_at_difference(b, c);
    lemma_text_lt_at_difference(a, c);
    lemma_common_prefix_len(a, b);
    lemma_common_prefix_len(b, c);
    lemma_common_prefix_len(a, c);
    let p = common_prefix_len(a, b);
    let q = common_prefix_len(b, c);
    let r = common_prefix_len(a, c);
    let m = if p < q { p } else { q };
    assert forall|j: int| 0 <= j < m implies #[trigger] a[j] == c[j] by {
        assert(a[j] == b[j]);
        assert(b[j] == c[j]);
    }
    if r < m {
        assert(a[r] == c[r]);
    }
    if p < q {
        if p < a.len() {
            assert(b[p] == c[p]);
            lemma_common_prefix_len_unique(a, c, r, p);
        } else {
            lemma_common_prefix_len_unique(a, c, r, p);
        }
    } else if q < p {
        assert(a[q] == b[q]);
        lemma_common_prefix_len_unique(a, c, r, q);
    } else {
        if p < a.len() {
            lemma_common_prefix_len_unique(a, c, r, p);
        } else {
            lemma_common_prefix_len_unique(a, c, r, p);
        }
    }
}

/// Any two strings are equal or ordered one way or the other.
pub proof fn lemma_text_lt_total(a: Seq<char>, b: Seq<char>)
    ensures
        a =~= b || text_lt(a, b) || text_lt(b, a),
{
    lemma_text_lt_at_difference(a, b);
    lemma_text_lt_at_difference(b, a);
    lemma_common_prefix_len(a, b);
    let c = common_prefix_len(a, b);
    if c == a.len() && c == b.len() {
        assert(a =~= b);
    } else if c < a.len() && c < b.len() {
        assert(a[c] != b[c]);
        assert((a[c] as int) != (b[c] as int));
    }
}

/// Two strings that order no later than each other are equal.
proof fn lemma_text_le_antisymmetric(a: Seq<char>, b: Seq<char>)
    requires
        text_le(a, b),
        text_le(b, a),
    ensures
        a == b,
{
    if !(a =~= b) {
        lemma_text_lt_asymmetric(a, b);
    }
}

/// The characters of `s`, in order.
pub fn chars_of(s: &str) -> (v: Vec<char>)
    ensures
        v@ == s@,
{
    let mut v: Vec<char> = Vec::new();
    for c in it: s.chars()
        invariant
            v@ == it.seq().take(it.index() as int),
    {
        v.push(c);
    }
    v
}

/// Whether `a` orders strictly before `b`.
pub fn chars_lt(a: &Vec<char>, b: &Vec<char>) -> (r: bool)
    ensures
        r == text_lt(a@, b@),
{
    let n = if a.len() < b.len() { a.len() } else { b.len() };
    let mut i: usize = 0;
    while i < n
        invariant
            n <= a.len(),
            n <= b.len(),
            n == a.len() || n == b.len(),
            i <= n,
            a@.subrange(0, i as int) =~= b@.subrange(0, i as int),
        decreases n - i,
    {
        if a[i] != b[i] {
            let r = a[i] < b[i];
            proof {
                if !r {
                    assert forall|k: int|
                        #![trigger a@[k], b@[k]]
                        0 <= k < a@.len() && k < b@.len() && a@.subrange(0, k) =~= b@.subrange(0, k)
                        implies !((a@[k] as int) < (b@[k] as int)) by {
                        if k < i {
                            assert(a@.subrange(0, i as int)[k] == a@[k]);
                            assert(b@.subrange(0, i as int)[k] == b@[k]);
                        } else if k > i {
                            assert(a@.subrange(0, k)[i as int] == a@[i as int]);
                            assert(b@.subrange(0, k)[i as int] == b@[i as int]);
                        }
                    }
                    if a@.len() < b@.len() && a@ =~= b@.subrange(0, a@.len() as int) {
                        assert(b@.subrange(0, a@.len() as int)[i as int] == b@[i as int]);
                    }
                } else {
                    assert(a@[i as int] == a[i as int]);
                }
            }
            return r;
        }
        assert(a@.subrange(0, i + 1) =~= b@.subrange(0, i + 1));
        i = i + 1;
    }
    let r = a.len() < b.len();
    proof {
        assert forall|k: int|
            #![trigger a@[k], b@[k]]
            0 <= k < a@.len() && k < b@.len() && a@.subrange(0, k) =~= b@.subrange(0, k)
            implies !((a@[k] as int) < (b@[k] as int)) by {
            assert(a@.subrange(0, n as int)[k] == a@[k]);
            assert(b@.subrange(0, n as int)[k] == b@[k]);
        }
        if r {
            assert(a@ =~= a@.subrange(0, n as int));
        }
    }
    r
}

/// `s` is in ascending order.
pub open spec fn texts_sorted(s: Seq<Seq<char>>) -> bool {
    forall|i: int, j: int| 0 <= i < j < s.len() ==> text_le(#[trigger] s[i], #[trigger] s[j])
}

/// Sorting has one answer: two ascending sequences that hold the same
/// strings, each as often, are equal.
pub proof fn lemma_sorted_permutation_unique(a: Seq<Seq<char>>, b: Seq<Seq<char>>)
    requires
        texts_sorted(a),
        texts_sorted(b),
        a.to_multiset() =~= b.to_multiset(),
    ensures
        a == b,
    decreases a.len(),
{
    broadcast use vstd::seq_lib::group_to_multiset_ensures;

    a.to_multiset_ensures();
    b.to_multiset_ensures();
    if a.len() == 0 {
        assert(b.len() == 0);
        assert(a =~= b);
    } else {
        assert(b.len() == a.len());
        let n = a.len() - 1;
        let x = a[n];
        let y = b[n];
        assert(a.contains(x));
        assert(b.to_multiset().count(x) > 0);
        assert(b.contains(x));
        let i = choose|i: int| 0 <= i < b.len() && b[i] == x;
        assert(text_le(x, y)) by {
            if i < n {
                assert(text_le(b[i], b[n]));
            }
        }
        assert(b.contains(y));
        assert(a.to_multiset().count(y) > 0);
        assert(a.contains(y));
        let j = choose|j: int| 0 <= j < a.len() && a[j] == y;
        assert(text_le(y, x)) by {
            if j < n {
                assert(text_le(a[j], a[n]));
            }
        }
        lemma_text_le_antisymmetric(x, y);
        assert(a.remove(n) =~= a.drop_last());
        assert(b.remove(n) =~= b.drop_last());
        assert(a.drop_last().to_multiset() =~= a.to_multiset().remove(x));
        assert(b.drop_last().to_multiset() =~= b.to_multiset().remove(y));
        assert forall|p: int, q: int| 0 <= p < q < a.drop_last().len() implies text_le(
            #[trigger] a.drop_last()[p],
            #[trigger] a.drop_last()[q],
        ) by {
            assert(text_le(a[p], a[q]));
        }
        assert forall|p: int, q: int| 0 <= p < q < b.drop_last().len() implies text_le(
            #[trigger] b.drop_last()[p],
            #[trigger] b.drop_last()[q],
        ) by {
            assert(text_le(b[p], b[q]));
        }
        lemma_sorted_permutation_unique(a.drop_last(), b.drop_last());
        assert(a =~= a.drop_last().push(x));
        assert(b =~= b.drop_last().push(y));
    }
}

/// The character sequences of a sequence of strings.
pub open spec fn views_of(v: Seq<String>) -> Seq<Seq<char>> {
    v.map_values(|s: String| s@)
}

proof fn lemma_lt_le_transitive(a: Seq<char>, b: Seq<char>, c: Seq<char>)
    requires
        text_lt(a, b),
        text_le(b, c),
    ensures
        text_lt(a, c),
{
    if b =~= c {
    } else {
        lemma_text_lt_transitive(a, b, c);
    }
}

proof fn lemma_insert_multiset(s: Seq<Seq<char>>, p: int, x: Seq<char>)
    requires
        0 <= p <= s.len(),
    ensures
        s.insert(p, x).to_multiset() =~= s.to_multiset().insert(x),
{
    broadcast use vstd::seq_lib::group_to_multiset_ensures;

    let l = s.subrange(0, p);
    let r = s.subrange(p, s.len() as int);
    assert(s =~= l + r);
    assert(s.insert(p, x) =~= l.push(x) + r);
    vstd::seq_lib::lemma_multiset_commutative(l, r);
    vstd::seq_lib::lemma_multiset_commutative(l.push(x), r);
}

/// The strings of `values` in ascending order, as the standard library
/// sorts them.
pub fn sort_texts(values: &Vec<String>) -> (r: Vec<String>)
    ensures
        texts_sorted(views_of(r@)),
        views_of(r@).to_multiset() =~= views_of(values@).to_multiset(),
{
    broadcast use vstd::seq_lib::group_to_multiset_ensures;

    let mut sorted: Vec<String> = Vec::new();
    let mut keys: Vec<Vec<char>> = Vec::new();
    let mut i: usize = 0;
    while i < values.len()
        invariant
            i <= values.len(),
            keys.len() == sorted.len(),
            forall|t: int| 0 <= t < keys.len() ==> #[trigger] keys@[t]@ == sorted@[t]@,
            texts_sorted(views_of(sorted@)),
            views_of(sorted@).to_multiset() =~= views_of(values@).take(i as int).to_multiset(),
        decreases values.len() - i,
    {
        let ghost old_views = views_of(sorted@);
        let value = values[i].clone();
        let key = chars_of(value.as_str());
        let mut p: usize = 0;
        while p < keys.len() && !chars_lt(&key, &keys[p])
            invariant
                p <= keys.len(),
                keys.len() == sorted.len(),
                forall|t: int| 0 <= t < keys.len() ==> #[trigger] keys@[t]@ == sorted@[t]@,
                key@ == value@,
                old_views == views_of(sorted@),
                forall|t: int| 0 <= t < p ==> text_le(#[trigger] old_views[t], value@),
            decreases keys.len() - p,
        {
            proof {
                lemma_text_lt_total(old_views[p as int], value@);
                assert(old_views[p as int] == sorted@[p as int]@);
            }
            p = p + 1;
        }
        proof {
            if p < keys.len() {
                assert(old_views[p as int] == sorted@[p as int]@);
                assert(text_lt(value@, old_views[p as int]));
            }
        }
        sorted.insert(p, value);
        keys.insert(p, key);
        proof {
            let nv = views_of(sorted@);
            assert(nv =~= old_views.insert(p as int, value@));
            assert forall|a: int, b: int| 0 <= a < b < nv.len() implies text_le(
                #[trigger] nv[a],
                #[trigger] nv[b],
            ) by {
                if b == p {
                    assert(nv[a] == old_views[a]);
                } else if a == p {
                    assert(nv[b] == old_views[b - 1]);
                    if p as int == b - 1 {
                    } else {
                        assert(text_le(old_views[p as int], old_views[b - 1]));
                    }
                    lemma_lt_le_transitive(value@, old_views[p as int], old_views[b - 1]);
                } else if b < p {
                    assert(nv[a] == old_views[a]);
                    assert(nv[b] == old_views[b]);
                } else if a < p {
                    assert(nv[a] == old_views[a]);
                    assert(nv[b] == old_views[b - 1]);
                } else {
                    assert(nv[a] == old_views[a - 1]);
                    assert(nv[b] == old_views[b - 1]);
                }
            }
            lemma_insert_multiset(old_views, p as int, value@);
            let vv = views_of(values@);
            assert(vv[i as int] == value@);
            assert(vv.take(i + 1) =~= vv.take(i as int).push(value@));
            vv.take(i as int).to_multiset_ensures();
            assert(vv.take(i as int).push(value@).to_multiset() =~= vv.take(
                i as int,
            ).to_multiset().insert(value@));
            assert(vv.take(i + 1).to_multiset() =~= vv.take(i as int).to_multiset().insert(
                value@,
            ));
            assert(nv.to_multiset() =~= old_views.to_multiset().insert(value@));
            assert forall|t: int| 0 <= t < keys.len() implies #[trigger] keys@[t]@
                == sorted@[t]@ by {
                if t < p {
                } else if t > p {
                }
            }
        }
        i = i + 1;
    }
    assert(views_of(values@).take(values.len() as int) =~= views_of(values@));
    sorted
}

/// Whether `c` has the Unicode `White_Space` property: the ASCII controls
/// from tab to carriage return, space, next line, no-break space, ogham space
/// mark, the spaces from en quad to hair space, line and paragraph
/// separators, narrow no-break space, medium mathematical space and
/// ideographic space.
pub open spec fn is_white_space(c: char) -> bool {
    let n = c as int;
    ||| 0x09 <= n <= 0x0d
    ||| n == 0x20
    ||| n == 0x85
    ||| n == 0xa0
    ||| n == 0x1680
    ||| 0x2000 <= n <= 0x200a
    ||| n == 0x2028
    ||| n == 0x2029
    ||| n == 0x202f
    ||| n == 0x205f
    ||| n == 0x3000
}

/// Whether `c` has the Unicode `White_Space` property, as
/// `char::is_whitespace` answers.
pub fn char_is_whitespace(c: char) -> (b: bool)
    ensures
        b == is_white_space(c),
{
    let n = c as u32;
    (0x09 <= n && n <= 0x0d) || n == 0x20 || n == 0x85 || n == 0xa0 || n == 0x1680 || (0x2000
        <= n && n <= 0x200a) || n == 0x2028 || n == 0x2029 || n == 0x202f || n == 0x205f || n
        == 0x3000
}

/// `s` without its leading white space.
pub open spec fn trim_start(s: Seq<char>) -> Seq<char>
    decreases s.len(),
{
    if s.len() > 0 && is_white_space(s[0]) {
        trim_start(s.drop_first())
    } else {
        s
    }
}

/// `s` without its trailing white space.
pub open spec fn trim_end(s: Seq<char>) -> Seq<char>
    decreases s.len(),
{
    if s.len() > 0 && is_white_space(s.last()) {
        trim_end(s.drop_last())
    } else {
        s
    }
}

/// `s` without leading and trailing white space, as `str::trim` gives it.
pub open spec fn trimmed(s: Seq<char>) -> Seq<char> {
    trim_end(trim_start(s))
}

/// `s` with leading and trailing white space removed.
pub fn trim_whitespace(s: &str) -> (r: &str)
    ensures
        r@ == trimmed(s@),
{
    let chars = chars_of(s);
    let n = chars.len();
    let mut a: usize = 0;
    assert(s@.subrange(0, n as int) =~= s@);
    while a < n && char_is_whitespace(chars[a])
        invariant
            a <= n,
            n == chars@.len(),
            chars@ == s@,
            trim_start(s@) == trim_start(s@.subrange(a as int, n as int)),
        decreases n - a,
    {
        assert(s@.subrange(a as int, n as int).drop_first() =~= s@.subrange(a + 1, n as int));
        a = a + 1;
    }
    assert(trim_start(s@) == s@.subrange(a as int, n as int));
    let mut b: usize = n;
    while b > a && char_is_whitespace(chars[b - 1])
        invariant
            a <= b <= n,
            n == chars@.len(),
            chars@ == s@,
            trimmed(s@) == trim_end(s@.subrange(a as int, b as int)),
        decreases b - a,
    {
        assert(s@.subrange(a as int, b as int).drop_last() =~= s@.subrange(a as int, b - 1));
        b = b - 1;
    }
    s.substring_char(a, b)
}

/// The uppercase form of `s` under the Unicode case mapping, as
/// `str::to_uppercase` computes it.
pub uninterp spec fn uppercase_of(s: Seq<char>) -> Seq<char>;

/// `str::to_uppercase`: named by `uppercase_of`, since the Unicode mapping
/// it applies is not restated here.
#[verifier::external_body]
pub(crate) fn to_uppercase(s: &str) -> (r: String)
    ensures
        r@ == uppercase_of(s@),
{
    s.to_uppercase()
}

/// The pieces of `s` between line feeds, as `str::split('\n')` yields
/// them: an empty text gives one empty piece, and a trailing line feed
/// gives a final empty piece.
pub open spec fn split_lines(s: Seq<char>) -> Seq<Seq<char>>
    decreases s.len(),
{
    if s.len() == 0 {
        seq![Seq::empty()]
    } else {
        let rest = split_lines(s.drop_last());
        if s.last() == '\n' {
            rest.push(Seq::empty())
        } else {
            rest.update(rest.len() - 1, rest.last().push(s.last()))
        }
    }
}

proof fn lemma_split_lines_nonempty(s: Seq<char>)
    ensures
        split_lines(s).len() >= 1,
    decreases s.len(),
{
    if s.len() > 0 {
        lemma_split_lines_nonempty(s.drop_last());
    }
}

/// The pieces of `s` between line feeds.
pub fn split_lines_of(s: &str) -> (pieces: Vec<String>)
    ensures
        views_of(pieces@) == split_lines(s@),
{
    let chars = chars_of(s);
    let n = chars.len();
    let mut pieces: Vec<String> = Vec::new();
    let mut start: usize = 0;
    let mut i: usize = 0;
    assert(s@.take(0) =~= Seq::<char>::empty());
    assert(views_of(pieces@) =~= Seq::<Seq<char>>::empty());
    while i < n
        invariant
            start <= i <= n,
            n == chars@.len(),
            chars@ == s@,
            split_lines(s@.take(i as int)) =~= views_of(pieces@).push(
                s@.subrange(start as int, i as int),
            ),
        decreases n - i,
    {
        let ghost prev = s@.take(i as int);
        let ghost old_views = views_of(pieces@);
        let ghost cur = s@.subrange(start as int, i as int);
        assert(s@.take(i + 1).drop_last() =~= prev);
        assert(s@.take(i + 1).last() == s@[i as int]);
        proof {
            lemma_split_lines_nonempty(prev);
        }
        if chars[i] == '\n' {
            let piece = String::from_str(s.substring_char(start, i));
            pieces.push(piece);
            start = i + 1;
            assert(views_of(pieces@) =~= old_views.push(cur));
            assert(split_lines(s@.take(i + 1)) =~= old_views.push(cur).push(Seq::empty()));
            assert(s@.subrange(i + 1, i + 1) =~= Seq::<char>::empty());
        } else {
            assert(s@.subrange(start as int, i + 1) =~= cur.push(s@[i as int]));
            assert(split_lines(s@.take(i + 1)) =~= old_views.push(cur.push(s@[i as int])));
        }
        i = i + 1;
    }
    let last = String::from_str(s.substring_char(start, n));
    let ghost old_views = views_of(pieces@);
    pieces.push(last);
    assert(s@.take(n as int) =~= s@);
    assert(views_of(pieces@) =~= old_views.push(last@));
    pieces
}

/// `pieces` joined with line feeds between them.
pub open spec fn join_lines(pieces: Seq<Seq<char>>) -> Seq<char>
    decreases pieces.len(),
{
    if pieces.len() == 0 {
        Seq::empty()
    } else if pieces.len() == 1 {
        pieces[0]
    } else {
        join_lines(pieces.drop_last()) + seq!['\n'] + pieces.last()
    }
}

/// Splitting at line feeds loses nothing: joining the pieces with line
/// feeds gives back the text, and no piece holds a line feed.
pub proof fn lemma_split_lines_rejoin(s: Seq<char>)
    ensures
        join_lines(split_lines(s)) == s,
        forall|i: int|
            0 <= i < split_lines(s).len() ==> !(#[trigger] split_lines(s)[i]).contains('\n'),
    decreases s.len(),
{
    if s.len() == 0 {
        assert(split_lines(s)[0] =~= Seq::<char>::empty());
    } else {
        let t = s.drop_last();
        let c = s.last();
        let rest = split_lines(t);
        lemma_split_lines_rejoin(t);
        lemma_split_lines_nonempty(t);
        assert(s =~= t.push(c));
        let pieces = split_lines(s);
        if c == '\n' {
            assert(pieces.drop_last() =~= rest);
            assert(join_lines(pieces) =~= s);
            assert forall|i: int| 0 <= i < pieces.len() implies !(
            #[trigger] pieces[i]).contains('\n') by {
                if i < rest.len() {
                    assert(pieces[i] == rest[i]);
                } else {
                    assert(pieces[i] =~= Seq::<char>::empty());
                }
            }
        } else {
            let last = rest.last().push(c);
            if rest.len() == 1 {
                assert(pieces =~= seq![last]);
                assert(join_lines(pieces) =~= s);
            } else {
                assert(pieces.drop_last() =~= rest.drop_last());
                assert(join_lines(rest) == join_lines(rest.drop_last()) + seq!['\n'] + rest.last());
                assert(join_lines(pieces) =~= s);
            }
            assert forall|i: int| 0 <= i < pieces.len() implies !(
            #[trigger] pieces[i]).contains('\n') by {
                if i < rest.len() - 1 {
                    assert(pieces[i] == rest[i]);
                } else {
                    assert(pieces[i] == last);
                    assert(!rest[rest.len() - 1].contains('\n'));
                    if last.contains('\n') {
                        let k = choose|k: int| 0 <= k < last.len() && last[k] == '\n';
                        if k < last.len() - 1 {
                            assert(rest.last()[k] == '\n');
                        }
                    }
                }
            }
        }
    }
}

} // verus!

//! Texts in order.

use crate::json::{fields, member_map, Member};
use crate::text::{chars_of, texts};
use vstd::prelude::*;

verus! {

/// Whether `a` stands before `b`, or is `b`, in the order of code points.
pub open spec fn text_le(a: Seq<char>, b: Seq<char>) -> bool
    decreases a.len(),
{
    if a.len() == 0 {
        true
    } else if b.len() == 0 {
        false
    } else if a[0] == b[0] {
        text_le(a.skip(1), b.skip(1))
    } else {
        a[0] < b[0]
    }
}

/// Whether `a` stands before `b`, or is `b`, in the order of code points.
pub fn le_text(a: &str, b: &str) -> (r: bool)
    ensures
        r == text_le(a@, b@),
{
    let v = chars_of(a);
    let w = chars_of(b);
    let mut i: usize = 0;
    proof {
        assert(v@.skip(0) =~= v@);
        assert(w@.skip(0) =~= w@);
    }
    while i < v.len() && i < w.len() && v[i] == w[i]
        invariant
            i <= v@.len(),
            i <= w@.len(),
            v@ == a@,
            w@ == b@,
            text_le(v@.skip(i as int), w@.skip(i as int)) == text_le(a@, b@),
        decreases v@.len() - i,
    {
        proof {
            assert(v@.skip(i as int).skip(1) =~= v@.skip(i + 1));
            assert(w@.skip(i as int).skip(1) =~= w@.skip(i + 1));
        }
        i += 1;
    }
    if i == v.len() {
        true
    } else if i == w.len() {
        false
    } else {
        v[i] < w[i]
    }
}

/// The order of code points is total.
pub proof fn law_text_order_is_total(a: Seq<char>, b: Seq<char>)
    ensures
        text_le(a, b) || text_le(b, a),
        text_le(a, a),
    decreases a.len(),
{
    if a.len() > 0 {
        law_text_order_is_total(a.skip(1), if b.len() > 0 { b.skip(1) } else { b });
    }
}

/// The order of code points is transitive.
pub proof fn law_text_order_is_transitive(a: Seq<char>, b: Seq<char>, c: Seq<char>)
    requires
        text_le(a, b),
        text_le(b, c),
    ensures
        text_le(a, c),
    decreases a.len(),
{
    if a.len() > 0 && a[0] == b[0] && b[0] == c[0] {
        law_text_order_is_transitive(a.skip(1), b.skip(1), c.skip(1));
    }
}

/// Whether the item at `i` comes before that at `j`: by its key, and by its
/// place where the keys are equal in order.
pub open spec fn comes_before(keys: Seq<Seq<char>>, i: int, j: int) -> bool {
    text_le(keys[i], keys[j]) && (text_le(keys[j], keys[i]) ==> i < j)
}

/// The same from the greatest key down; equal keys keep their places.
pub open spec fn comes_before_down(keys: Seq<Seq<char>>, i: int, j: int) -> bool {
    text_le(keys[j], keys[i]) && (text_le(keys[i], keys[j]) ==> i < j)
}

/// Whether `order` lists the places `0..n`, each once.
pub open spec fn is_arrangement(order: Seq<usize>, n: nat) -> bool {
    &&& order.len() == n
    &&& order.no_duplicates()
    &&& forall|k: int| 0 <= k < order.len() ==> (#[trigger] order[k]) < n
}

/// Whether `order` lists the places `0..n` by their keys.
pub open spec fn is_sorted_by(order: Seq<usize>, keys: Seq<Seq<char>>, down: bool) -> bool {
    forall|a: int, b: int|
        #![trigger order[a], order[b]]
        0 <= a < b < order.len() ==> if down {
            comes_before_down(keys, order[a] as int, order[b] as int)
        } else {
            comes_before(keys, order[a] as int, order[b] as int)
        }
}

spec fn before(keys: Seq<Seq<char>>, i: int, j: int, down: bool) -> bool {
    if down {
        comes_before_down(keys, i, j)
    } else {
        comes_before(keys, i, j)
    }
}

proof fn lemma_before_transitive(keys: Seq<Seq<char>>, i: int, j: int, k: int, down: bool)
    requires
        before(keys, i, j, down),
        before(keys, j, k, down),
    ensures
        before(keys, i, k, down),
{
    if down {
        law_text_order_is_transitive(keys[k], keys[j], keys[i]);
        if text_le(keys[i], keys[k]) {
            law_text_order_is_transitive(keys[i], keys[k], keys[j]);
            law_text_order_is_transitive(keys[j], keys[i], keys[k]);
        }
    } else {
        law_text_order_is_transitive(keys[i], keys[j], keys[k]);
        if text_le(keys[k], keys[i]) {
            law_text_order_is_transitive(keys[k], keys[i], keys[j]);
            law_text_order_is_transitive(keys[j], keys[k], keys[i]);
        }
    }
}

/// Where the item behind all listed ones belongs among them.
fn place_for(order: &Vec<usize>, keys: &Vec<String>, item: usize, down: bool) -> (at: usize)
    requires
        order@.len() == item,
        item < keys@.len(),
        is_arrangement(order@, item as nat),
        is_sorted_by(order@, texts(keys@), down),
    ensures
        at <= order@.len(),
        forall|a: int| 0 <= a < at ==> before(texts(keys@), (#[trigger] order@[a]) as int, item as int, down),
        forall|a: int| at <= a < order@.len() ==> before(texts(keys@), item as int, (#[trigger] order@[a]) as int, down),
{
    let ghost all = texts(keys@);
    let mut at: usize = order.len();
    while at > 0
        invariant
            at <= order@.len(),
            order@.len() == item,
            item < keys@.len(),
            all == texts(keys@),
            is_arrangement(order@, item as nat),
            is_sorted_by(order@, all, down),
            forall|a: int| at <= a < order@.len() ==> before(all, item as int, (#[trigger] order@[a]) as int, down),
        decreases at,
    {
        let prev = order[at - 1];
        let stays = if down {
            le_text(keys[item].as_str(), keys[prev].as_str())
        } else {
            le_text(keys[prev].as_str(), keys[item].as_str())
        };
        proof {
            law_text_order_is_total(all[prev as int], all[item as int]);
            assert(all[prev as int] == keys@[prev as int]@);
            assert(all[item as int] == keys@[item as int]@);
        }
        if stays {
            proof {
                assert(before(all, prev as int, item as int, down));
                assert forall|a: int| 0 <= a < at implies before(
                    all,
                    (#[trigger] order@[a]) as int,
                    item as int,
                    down,
                ) by {
                    if a < at - 1 {
                        assert(before(all, order@[a] as int, order@[at - 1] as int, down));
                        lemma_before_transitive(
                            all,
                            order@[a] as int,
                            prev as int,
                            item as int,
                            down,
                        );
                    }
                }
            }
            return at;
        }
        proof {
            assert(before(all, item as int, prev as int, down));
        }
        at -= 1;
    }
    at
}

/// The places of the items in the order of their keys, from the least up or
/// from the greatest down; items with equal keys stay as they are.
pub fn sort_order(keys: &Vec<String>, down: bool) -> (r: Vec<usize>)
    ensures
        is_arrangement(r@, keys@.len()),
        is_sorted_by(r@, texts(keys@), down),
{
    let ghost all = texts(keys@);
    let mut order: Vec<usize> = Vec::new();
    let mut i: usize = 0;
    while i < keys.len()
        invariant
            i <= keys@.len(),
            all == texts(keys@),
            is_arrangement(order@, i as nat),
            is_sorted_by(order@, all, down),
        decreases keys@.len() - i,
    {
        let at = place_for(&order, keys, i, down);
        let ghost old_order = order@;
        order.insert(at, i);
        proof {
            assert(order@ == old_order.insert(at as int, i));
            assert forall|k: int| 0 <= k < order@.len() implies (#[trigger] order@[k]) < i + 1 by {
                if k < at {
                    assert(order@[k] == old_order[k]);
                } else if k > at {
                    assert(order@[k] == old_order[k - 1]);
                }
            }
            assert(order@.no_duplicates()) by {
                assert forall|a: int, b: int|
                    0 <= a < order@.len() && 0 <= b < order@.len() && a != b implies order@[a]
                    != order@[b] by {
                    let a0 = if a < at { a } else { a - 1 };
                    let b0 = if b < at { b } else { b - 1 };
                    if a != at && b != at {
                        assert(order@[a] == old_order[a0]);
                        assert(order@[b] == old_order[b0]);
                    } else if a == at {
                        assert(order@[b] == old_order[b0]);
                    } else {
                        assert(order@[a] == old_order[a0]);
                    }
                }
            }
            assert(is_sorted_by(order@, all, down)) by {
                assert forall|a: int, b: int|
                    #![trigger order@[a], order@[b]]
                    0 <= a < b < order@.len() implies before(
                    all,
                    order@[a] as int,
                    order@[b] as int,
                    down,
                ) by {
                    let a0 = if a < at { a } else { a - 1 };
                    let b0 = if b < at { b } else { b - 1 };
                    if a != at && b != at {
                        assert(order@[a] == old_order[a0]);
                        assert(order@[b] == old_order[b0]);
                        assert(before(all, old_order[a0] as int, old_order[b0] as int, down));
                    } else if a == at {
                        assert(order@[b] == old_order[b0]);
                    } else {
                        assert(order@[a] == old_order[a0]);
                    }
                }
            }
        }
        i += 1;
    }
    order
}

/// Whether item `i` comes before item `j` by two keys, the first before the
/// second; items with equal keys keep their places.
pub open spec fn comes_before_by_two(
    first: Seq<Seq<char>>,
    second: Seq<Seq<char>>,
    i: int,
    j: int,
) -> bool {
    &&& text_le(first[i], first[j])
    &&& text_le(first[j], first[i]) ==> comes_before(second, i, j)
}

/// Whether `order` lists the places by two keys.
pub open spec fn is_sorted_by_two(order: Seq<usize>, first: Seq<Seq<char>>, second: Seq<Seq<char>>) -> bool {
    forall|a: int, b: int|
        #![trigger order[a], order[b]]
        0 <= a < b < order.len() ==> comes_before_by_two(
            first,
            second,
            order[a] as int,
            order[b] as int,
        )
}

/// The places of the items in the order of two keys; items with equal keys
/// stay as they are.
pub fn sort_order_by_two(first: &Vec<String>, second: &Vec<String>) -> (r: Vec<usize>)
    requires
        first@.len() == second@.len(),
    ensures
        is_arrangement(r@, first@.len()),
        is_sorted_by_two(r@, texts(first@), texts(second@)),
{
    let inner = sort_order(second, false);
    let mut keys: Vec<String> = Vec::new();
    let mut i: usize = 0;
    while i < inner.len()
        invariant
            i <= inner@.len(),
            is_arrangement(inner@, first@.len()),
            keys@.len() == i,
            forall|k: int| 0 <= k < i ==> (#[trigger] keys@[k])@ == first@[inner@[k] as int]@,
        decreases inner@.len() - i,
    {
        proof {
            assert(inner@[i as int] < first@.len());
        }
        keys.push(first[inner[i]].clone());
        i += 1;
    }
    let outer = sort_order(&keys, false);
    let mut order: Vec<usize> = Vec::new();
    i = 0;
    while i < outer.len()
        invariant
            i <= outer@.len(),
            is_arrangement(inner@, first@.len()),
            is_arrangement(outer@, inner@.len()),
            order@.len() == i,
            forall|k: int| 0 <= k < i ==> #[trigger] order@[k] == inner@[outer@[k] as int],
        decreases outer@.len() - i,
    {
        proof {
            assert(outer@[i as int] < inner@.len());
        }
        order.push(inner[outer[i]]);
        i += 1;
    }
    proof {
        let f = texts(first@);
        let s = texts(second@);
        assert forall|k: int| 0 <= k < order@.len() implies (#[trigger] order@[k])
            < first@.len() by {
            assert(outer@[k] < inner@.len());
            assert(inner@[outer@[k] as int] < first@.len());
        }
        assert forall|a: int, b: int|
            0 <= a < order@.len() && 0 <= b < order@.len() && a != b implies order@[a]
            != order@[b] by {
            assert(outer@[a] != outer@[b]);
            assert(outer@[a] < inner@.len());
            assert(outer@[b] < inner@.len());
        }
        assert forall|a: int, b: int|
            #![trigger order@[a], order@[b]]
            0 <= a < b < order@.len() implies comes_before_by_two(
            f,
            s,
            order@[a] as int,
            order@[b] as int,
        ) by {
            let p = outer@[a] as int;
            let q = outer@[b] as int;
            assert(p < inner@.len());
            assert(q < inner@.len());
            assert(comes_before(texts(keys@), p, q));
            assert(texts(keys@)[p] == f[inner@[p] as int]);
            assert(texts(keys@)[q] == f[inner@[q] as int]);
            if text_le(f[inner@[q] as int], f[inner@[p] as int]) {
                assert(p < q);
                assert(comes_before(s, inner@[p] as int, inner@[q] as int));
            }
        }
    }
    order
}

/// Whether a list of texts stands before another, or is the same, text by text;
/// a list stands before those that go on behind it.
pub open spec fn list_le(a: Seq<Seq<char>>, b: Seq<Seq<char>>) -> bool
    decreases a.len(),
{
    if a.len() == 0 {
        true
    } else if b.len() == 0 {
        false
    } else if a[0] == b[0] {
        list_le(a.skip(1), b.skip(1))
    } else {
        text_le(a[0], b[0])
    }
}

/// The texts of lists.
pub open spec fn text_lists(v: Seq<Vec<String>>) -> Seq<Seq<Seq<char>>> {
    v.map_values(|l: Vec<String>| texts(l@))
}

/// Whether item `i` comes before item `j` by a text, then by a list of texts;
/// items with equal keys keep their places.
pub open spec fn comes_before_by_list(
    first: Seq<Seq<char>>,
    second: Seq<Seq<Seq<char>>>,
    i: int,
    j: int,
) -> bool {
    &&& text_le(first[i], first[j])
    &&& text_le(first[j], first[i]) ==> list_le(second[i], second[j]) && (list_le(
        second[j],
        second[i],
    ) ==> i < j)
}

/// Whether `order` lists the places by a text, then by a list of texts.
pub open spec fn is_sorted_by_list(
    order: Seq<usize>,
    first: Seq<Seq<char>>,
    second: Seq<Seq<Seq<char>>>,
) -> bool {
    forall|a: int, b: int|
        #![trigger order[a], order[b]]
        0 <= a < b < order.len() ==> comes_before_by_list(
            first,
            second,
            order[a] as int,
            order[b] as int,
        )
}

/// A text with a mark before each character.
spec fn marked(s: Seq<char>) -> Seq<char>
    decreases s.len(),
{
    if s.len() == 0 {
        Seq::empty()
    } else {
        marked(s.drop_last()) + seq!['\u{1}', s.last()]
    }
}

/// The first `n` texts as one text that is ordered as they are.
spec fn packed(list: Seq<Seq<char>>, n: int) -> Seq<char>
    decreases n,
{
    if n <= 0 || n > list.len() {
        Seq::empty()
    } else {
        packed(list, n - 1) + (seq!['\0'] + marked(list[n - 1]))
    }
}

proof fn lemma_marked_from_left(s: Seq<char>)
    requires
        s.len() > 0,
    ensures
        marked(s) == seq!['\u{1}', s[0]] + marked(s.skip(1)),
    decreases s.len(),
{
    if s.len() == 1 {
        assert(s.drop_last() =~= Seq::empty());
        assert(s.skip(1) =~= Seq::empty());
        assert(marked(s) =~= seq!['\u{1}', s[0]] + marked(s.skip(1)));
    } else {
        lemma_marked_from_left(s.drop_last());
        assert(s.drop_last().skip(1) =~= s.skip(1).drop_last());
        assert(marked(s) =~= seq!['\u{1}', s[0]] + marked(s.skip(1)));
    }
}

proof fn lemma_packed_from_left(list: Seq<Seq<char>>, n: int)
    requires
        0 < n <= list.len(),
    ensures
        packed(list, n) == seq!['\0'] + marked(list[0]) + packed(list.skip(1), n - 1),
    decreases n,
{
    if n == 1 {
        assert(packed(list, 0) =~= Seq::empty());
        assert(packed(list, 1) =~= seq!['\0'] + marked(list[0]) + packed(list.skip(1), 0));
    } else {
        lemma_packed_from_left(list, n - 1);
        assert(list.skip(1)[n - 2] == list[n - 1]);
        assert(packed(list, n) =~= seq!['\0'] + marked(list[0]) + packed(list.skip(1), n - 1));
    }
}

proof fn lemma_marked_order(s: Seq<char>, t: Seq<char>, x: Seq<char>, y: Seq<char>)
    requires
        x.len() > 0 ==> x[0] == '\0',
        y.len() > 0 ==> y[0] == '\0',
    ensures
        text_le(marked(s) + x, marked(t) + y) == if s == t {
            text_le(x, y)
        } else {
            text_le(s, t)
        },
    decreases s.len(),
{
    let left = marked(s) + x;
    let right = marked(t) + y;
    if s.len() > 0 {
        lemma_marked_from_left(s);
        assert(left[0] == '\u{1}' && left[1] == s[0]);
        assert(left.skip(1)[0] == s[0]);
        assert(left.skip(1).skip(1) =~= marked(s.skip(1)) + x);
    } else {
        assert(left =~= x);
    }
    if t.len() > 0 {
        lemma_marked_from_left(t);
        assert(right[0] == '\u{1}' && right[1] == t[0]);
        assert(right.skip(1)[0] == t[0]);
        assert(right.skip(1).skip(1) =~= marked(t.skip(1)) + y);
    } else {
        assert(right =~= y);
    }
    if s.len() > 0 && t.len() > 0 {
        lemma_marked_order(s.skip(1), t.skip(1), x, y);
        assert(text_le(left, right) == text_le(left.skip(1), right.skip(1)));
        if s[0] == t[0] {
            assert(text_le(left.skip(1), right.skip(1)) == text_le(
                left.skip(1).skip(1),
                right.skip(1).skip(1),
            ));
            if s.skip(1) == t.skip(1) {
                assert(s =~= seq![s[0]] + s.skip(1));
                assert(t =~= seq![t[0]] + t.skip(1));
            }
        }
    } else if s.len() == 0 && t.len() == 0 {
        assert(s =~= t);
    }
}

proof fn lemma_packed_order(a: Seq<Seq<char>>, b: Seq<Seq<char>>)
    ensures
        text_le(packed(a, a.len() as int), packed(b, b.len() as int)) == list_le(a, b),
    decreases a.len(),
{
    let left = packed(a, a.len() as int);
    let right = packed(b, b.len() as int);
    if a.len() > 0 {
        lemma_packed_from_left(a, a.len() as int);
    }
    if b.len() > 0 {
        lemma_packed_from_left(b, b.len() as int);
    }
    if a.len() > 0 && b.len() > 0 {
        let x = packed(a.skip(1), a.len() - 1);
        let y = packed(b.skip(1), b.len() - 1);
        if a.len() > 1 {
            lemma_packed_from_left(a.skip(1), a.len() - 1);
        }
        if b.len() > 1 {
            lemma_packed_from_left(b.skip(1), b.len() - 1);
        }
        assert(left.skip(1) =~= marked(a[0]) + x);
        assert(right.skip(1) =~= marked(b[0]) + y);
        assert(left[0] == '\0' && right[0] == '\0');
        lemma_marked_order(a[0], b[0], x, y);
        lemma_packed_order(a.skip(1), b.skip(1));
    }
}

fn pack(list: &Vec<String>) -> (r: String)
    ensures
        r@ == packed(texts(list@), list@.len() as int),
{
    let ghost all = texts(list@);
    let mut out = String::new();
    let mut i: usize = 0;
    while i < list.len()
        invariant
            i <= list@.len(),
            all == texts(list@),
            out@ == packed(all, i as int),
        decreases list@.len() - i,
    {
        let ghost before = out@;
        let v = chars_of(list[i].as_str());
        out.push('\0');
        let mut k: usize = 0;
        proof {
            assert(all[i as int] == v@);
            assert(out@ =~= before + (seq!['\0'] + marked(v@.take(0))));
        }
        while k < v.len()
            invariant
                k <= v@.len(),
                out@ == before + (seq!['\0'] + marked(v@.take(k as int))),
            decreases v@.len() - k,
        {
            let ghost so_far = out@;
            out.push('\u{1}');
            out.push(v[k]);
            proof {
                assert(v@.take(k + 1).drop_last() =~= v@.take(k as int));
                assert(out@ =~= before + (seq!['\0'] + marked(v@.take(k + 1))));
            }
            k += 1;
        }
        proof {
            assert(v@.take(v@.len() as int) =~= v@);
        }
        i += 1;
    }
    out
}

/// The places of the items in the order of a text, then of a list of texts;
/// items with equal keys stay as they are.
pub fn sort_order_by_list(first: &Vec<String>, second: &Vec<Vec<String>>) -> (r: Vec<usize>)
    requires
        first@.len() == second@.len(),
    ensures
        is_arrangement(r@, first@.len()),
        is_sorted_by_list(r@, texts(first@), text_lists(second@)),
{
    let ghost lists = text_lists(second@);
    let mut keys: Vec<String> = Vec::new();
    let mut i: usize = 0;
    while i < second.len()
        invariant
            i <= second@.len(),
            lists == text_lists(second@),
            keys@.len() == i,
            forall|k: int|
                0 <= k < i ==> (#[trigger] keys@[k])@ == packed(lists[k], lists[k].len() as int),
        decreases second@.len() - i,
    {
        proof {
            assert(lists[i as int] == texts(second@[i as int]@));
            assert(texts(second@[i as int]@).len() == second@[i as int]@.len());
        }
        keys.push(pack(&second[i]));
        i += 1;
    }
    let order = sort_order_by_two(first, &keys);
    proof {
        let f = texts(first@);
        let s = texts(keys@);
        assert forall|a: int, b: int|
            #![trigger order@[a], order@[b]]
            0 <= a < b < order@.len() implies comes_before_by_list(
            f,
            lists,
            order@[a] as int,
            order@[b] as int,
        ) by {
            let p = order@[a] as int;
            let q = order@[b] as int;
            assert(comes_before_by_two(f, s, p, q));
            assert(s[p] == keys@[p]@);
            assert(s[q] == keys@[q]@);
            lemma_packed_order(lists[p], lists[q]);
            lemma_packed_order(lists[q], lists[p]);
        }
    }
    order
}

/// Two texts that stand before each other are the same.
pub proof fn law_text_order_is_antisymmetric(a: Seq<char>, b: Seq<char>)
    requires
        text_le(a, b),
        text_le(b, a),
    ensures
        a == b,
    decreases a.len(),
{
    if a.len() > 0 && b.len() > 0 {
        law_text_order_is_antisymmetric(a.skip(1), b.skip(1));
        assert(a =~= seq![a[0]] + a.skip(1));
        assert(b =~= seq![b[0]] + b.skip(1));
    } else {
        assert(a =~= b);
    }
}

/// Whether texts go up, none of them twice.
pub open spec fn texts_go_up(v: Seq<Seq<char>>) -> bool {
    forall|i: int, j: int|
        #![trigger v[i], v[j]]
        0 <= i < j < v.len() ==> text_le(v[i], v[j]) && v[i] != v[j]
}

/// Whether `v` lists the texts of `s` in order, each once.
pub open spec fn lists_texts(v: Seq<Seq<char>>, s: Set<Seq<char>>) -> bool {
    &&& texts_go_up(v)
    &&& forall|t: Seq<char>| #[trigger] v.contains(t) <==> s.contains(t)
}

/// The texts of a set in order.
pub open spec fn sorted_texts(s: Set<Seq<char>>) -> Seq<Seq<char>> {
    choose|v: Seq<Seq<char>>| lists_texts(v, s)
}

proof fn lemma_without_last(v: Seq<Seq<char>>, s: Set<Seq<char>>)
    requires
        lists_texts(v, s),
        v.len() > 0,
    ensures
        lists_texts(v.drop_last(), s.remove(v.last())),
{
    let w = v.drop_last();
    assert forall|t: Seq<char>| #[trigger] w.contains(t) <==> s.remove(v.last()).contains(t) by {
        if w.contains(t) {
            let i = choose|i: int| 0 <= i < w.len() && w[i] == t;
            assert(v[i] == t);
            assert(v[i] != v[v.len() - 1]);
            assert(v.contains(t));
        }
        if s.remove(v.last()).contains(t) {
            assert(v.contains(t));
            let i = choose|i: int| 0 <= i < v.len() && v[i] == t;
            assert(w[i] == t);
        }
    }
    assert forall|i: int, j: int|
        #![trigger w[i], w[j]]
        0 <= i < j < w.len() implies text_le(w[i], w[j]) && w[i] != w[j] by {
        assert(v[i] == w[i] && v[j] == w[j]);
    }
}

/// A set of texts is listed in one way only.
pub proof fn law_list_is_unique(a: Seq<Seq<char>>, b: Seq<Seq<char>>, s: Set<Seq<char>>)
    requires
        lists_texts(a, s),
        lists_texts(b, s),
    ensures
        a == b,
    decreases a.len(),
{
    if a.len() == 0 {
        if b.len() > 0 {
            assert(b.contains(b[0]));
            assert(a.contains(b[0]));
        }
        assert(a =~= b);
    } else {
        assert(a.contains(a.last()));
        assert(b.contains(a.last()));
        let j = choose|j: int| 0 <= j < b.len() && b[j] == a.last();
        assert(b.contains(b.last()));
        assert(a.contains(b.last()));
        let i = choose|i: int| 0 <= i < a.len() && a[i] == b.last();
        law_text_order_is_total(a.last(), a.last());
        assert(text_le(a.last(), b.last()));
        assert(text_le(b.last(), a.last()));
        law_text_order_is_antisymmetric(a.last(), b.last());
        lemma_without_last(a, s);
        lemma_without_last(b, s);
        law_list_is_unique(a.drop_last(), b.drop_last(), s.remove(a.last()));
        assert(a =~= a.drop_last().push(a.last()));
        assert(b =~= b.drop_last().push(b.last()));
    }
}

/// Adds a text to a list in order, unless it is there.
pub fn insert_text(v: &mut Vec<String>, s: &str)
    requires
        texts_go_up(texts(old(v)@)),
    ensures
        texts_go_up(texts(final(v)@)),
        forall|t: Seq<char>|
            #[trigger] texts(final(v)@).contains(t) <==> texts(old(v)@).contains(t) || t == s@,
{
    let ghost before = texts(v@);
    let mut at: usize = 0;
    while at < v.len() && !le_text(s, v[at].as_str())
        invariant
            at <= v@.len(),
            before == texts(v@),
            forall|i: int| 0 <= i < at ==> !text_le(s@, #[trigger] before[i]),
        decreases v@.len() - at,
    {
        proof {
            assert(before[at as int] == v@[at as int]@);
        }
        at += 1;
    }
    proof {
        if at < v@.len() {
            assert(before[at as int] == v@[at as int]@);
        }
    }
    if at < v.len() && crate::text::str_eq(v[at].as_str(), s) {
        proof {
            assert(before.contains(s@));
        }
        return;
    }
    let owned = s.to_owned();
    v.insert(at, owned);
    proof {
        let after = texts(v@);
        assert(after =~= before.insert(at as int, s@));
        assert forall|i: int, j: int|
            #![trigger after[i], after[j]]
            0 <= i < j < after.len() implies text_le(after[i], after[j]) && after[i]
            != after[j] by {
            if j == at {
                assert(after[i] == before[i]);
                law_text_order_is_total(s@, before[i]);
            } else if i == at {
                assert(after[j] == before[j - 1]);
                if j - 1 > at {
                    law_text_order_is_transitive(s@, before[at as int], before[j - 1]);
                    if s@ == before[j - 1] {
                        law_text_order_is_antisymmetric(before[at as int], before[j - 1]);
                    }
                }
            } else {
                assert(after[i] == before[if i < at { i } else { i - 1 }]);
                assert(after[j] == before[if j < at { j } else { j - 1 }]);
            }
        }
        assert forall|t: Seq<char>| #[trigger] after.contains(t) <==> before.contains(t) || t
            == s@ by {
            if after.contains(t) {
                let i = choose|i: int| 0 <= i < after.len() && after[i] == t;
                if i != at {
                    assert(before[if i < at { i } else { i - 1 }] == t);
                }
            }
            if before.contains(t) {
                let i = choose|i: int| 0 <= i < before.len() && before[i] == t;
                assert(after[if i < at { i } else { i + 1 }] == t);
            }
            if t == s@ {
                assert(after[at as int] == t);
            }
        }
    }
}

/// The keys of an object in order.
pub fn sorted_keys(members: &Vec<Member>) -> (r: Vec<String>)
    ensures
        lists_texts(texts(r@), fields(members@).dom()),
        texts(r@) == sorted_texts(fields(members@).dom()),
{
    let mut keys: Vec<String> = Vec::new();
    let mut i: usize = 0;
    proof {
        assert(texts(keys@) =~= Seq::empty());
        assert forall|t: Seq<char>| #[trigger] texts(keys@).contains(t) <==> member_map(
            members@,
            0,
        ).dom().contains(t) by {}
    }
    while i < members.len()
        invariant
            i <= members@.len(),
            texts_go_up(texts(keys@)),
            forall|t: Seq<char>|
                #[trigger] texts(keys@).contains(t) <==> member_map(
                    members@,
                    i as nat,
                ).dom().contains(t),
        decreases members@.len() - i,
    {
        insert_text(&mut keys, members[i].key.as_str());
        i += 1;
    }
    proof {
        let s = fields(members@).dom();
        assert(lists_texts(texts(keys@), s));
        law_list_is_unique(texts(keys@), sorted_texts(s), s);
    }
    keys
}

/// The first character in which two texts differ decides their order, and a text
/// comes before all that it begins.
pub proof fn law_first_difference_decides(
    p: Seq<char>,
    c: char,
    x: Seq<char>,
    d: char,
    y: Seq<char>,
)
    ensures
        c < d ==> text_le(p + seq![c] + x, p + seq![d] + y) && !text_le(
            p + seq![d] + y,
            p + seq![c] + x,
        ),
        text_le(p, p + x),
        x.len() > 0 ==> !text_le(p + x, p),
    decreases p.len(),
{
    let a = p + seq![c] + x;
    let b = p + seq![d] + y;
    if p.len() == 0 {
        assert(a[0] == c);
        assert(b[0] == d);
        assert(p + x =~= x);
    } else {
        let q = p.skip(1);
        law_first_difference_decides(q, c, x, d, y);
        assert(a[0] == p[0]);
        assert(b[0] == p[0]);
        assert(a.skip(1) =~= q + seq![c] + x);
        assert(b.skip(1) =~= q + seq![d] + y);
        assert((p + x)[0] == p[0]);
        assert((p + x).skip(1) =~= q + x);
    }
}

/// An arrangement holds every place once.
pub proof fn law_arrangement_holds_every_place(order: Seq<usize>, n: nat, i: int)
    requires
        is_arrangement(order, n),
        0 <= i < n,
    ensures
        exists|k: int| 0 <= k < order.len() && #[trigger] order[k] == i,
{
    let wide = Seq::new(order.len(), |k: int| order[k] as int);
    assert(wide.no_duplicates()) by {
        assert forall|a: int, b: int|
            0 <= a < wide.len() && 0 <= b < wide.len() && a != b implies wide[a] != wide[b] by {
            assert(order[a] != order[b]);
        }
    }
    wide.unique_seq_to_set();
    let all = vstd::set_lib::set_int_range(0, n as int);
    vstd::set_lib::lemma_int_range(0, n as int);
    assert(wide.to_set().subset_of(all)) by {
        assert forall|x: int| wide.to_set().contains(x) implies all.contains(x) by {
            let k = choose|k: int| 0 <= k < wide.len() && wide[k] == x;
            assert(order[k] < n);
        }
    }
    vstd::set_lib::lemma_subset_equality(wide.to_set(), all);
    assert(wide.to_set().contains(i));
    let k = choose|k: int| 0 <= k < wide.len() && wide[k] == i;
    assert(order[k] == i);
}

/// What is sorted goes up, or down where that is asked for, and equal keys keep their
/// places.
pub proof fn law_sorted_keys_go_one_way(
    order: Seq<usize>,
    keys: Seq<Seq<char>>,
    down: bool,
    a: int,
    b: int,
)
    requires
        is_sorted_by(order, keys, down),
        0 <= a < b < order.len(),
    ensures
        !down ==> text_le(keys[order[a] as int], keys[order[b] as int]),
        down ==> text_le(keys[order[b] as int], keys[order[a] as int]),
        keys[order[a] as int] == keys[order[b] as int] ==> order[a] < order[b],
{
    law_text_order_is_total(keys[order[a] as int], keys[order[b] as int]);
    assert(order[a] == order[a] && order[b] == order[b]);
}

/// What is sorted by two keys goes up by the first, and by the second where the first
/// are equal.
pub proof fn law_second_key_decides_among_equals(
    order: Seq<usize>,
    first: Seq<Seq<char>>,
    second: Seq<Seq<char>>,
    a: int,
    b: int,
)
    requires
        is_sorted_by_two(order, first, second),
        0 <= a < b < order.len(),
    ensures
        text_le(first[order[a] as int], first[order[b] as int]),
        first[order[a] as int] == first[order[b] as int] ==> text_le(
            second[order[a] as int],
            second[order[b] as int],
        ),
{
    law_text_order_is_total(first[order[a] as int], first[order[b] as int]);
    assert(order[a] == order[a] && order[b] == order[b]);
}

} // verus!

//! Deterministic order of discovered devices.

use vstd::prelude::*;
use vstd::string::*;

use crate::text::{borrowed_view, same_text};

verus! {

broadcast use vstd::string::group_string_axioms;

/// Whether one byte string comes before another in lexicographic order.
pub open spec fn bytes_before(left: Seq<u8>, right: Seq<u8>) -> bool
    decreases left.len(),
{
    if right.len() == 0 {
        false
    } else if left.len() == 0 {
        true
    } else if left[0] != right[0] {
        left[0] < right[0]
    } else {
        bytes_before(left.drop_first(), right.drop_first())
    }
}

/// Whether one optional byte string comes before another: a missing one comes first.
pub open spec fn optional_before(left: Option<Seq<u8>>, right: Option<Seq<u8>>) -> bool {
    match (left, right) {
        (None, Some(_)) => true,
        (Some(left), Some(right)) => bytes_before(left, right),
        _ => false,
    }
}

/// What devices are ordered by: the serial number, then the attachment path.
#[verifier::ext_equal]
pub struct DeviceKey {
    pub serial: Option<Seq<u8>>,
    pub path: Seq<u8>,
}

/// Whether one key comes before another.
pub open spec fn key_before(left: DeviceKey, right: DeviceKey) -> bool {
    optional_before(left.serial, right.serial) || (left.serial == right.serial && bytes_before(
        left.path,
        right.path,
    ))
}

/// The key of an optional serial number and a path, by the bytes of their texts.
pub open spec fn device_key(serial: Option<Seq<char>>, path: Seq<char>) -> DeviceKey {
    DeviceKey {
        serial: match serial {
            Some(serial) => Some(vstd::utf8::encode_utf8(serial)),
            None => None,
        },
        path: vstd::utf8::encode_utf8(path),
    }
}

/// Something that discovery orders by serial number and path.
pub trait Ordered: Sized + DeepView {
    /// What a value is ordered by.
    spec fn key(view: Self::V) -> DeviceKey;

    /// Whether it comes before `other`.
    fn precedes(&self, other: &Self) -> (before: bool)
        ensures
            before == key_before(Self::key(self.deep_view()), Self::key(other.deep_view())),
    ;

    /// Whether its key is that of `other`.
    fn coincides(&self, other: &Self) -> (same: bool)
        ensures
            same == (Self::key(self.deep_view()) == Self::key(other.deep_view())),
    ;
}

proof fn lemma_bytes_irreflexive(a: Seq<u8>)
    ensures
        !bytes_before(a, a),
    decreases a.len(),
{
    if a.len() > 0 {
        lemma_bytes_irreflexive(a.drop_first());
    }
}

proof fn lemma_bytes_transitive(a: Seq<u8>, b: Seq<u8>, c: Seq<u8>)
    requires
        bytes_before(a, b),
        bytes_before(b, c),
    ensures
        bytes_before(a, c),
    decreases a.len(),
{
    if a.len() > 0 && a[0] == b[0] && b[0] == c[0] {
        lemma_bytes_transitive(a.drop_first(), b.drop_first(), c.drop_first());
    }
}

proof fn lemma_bytes_total(a: Seq<u8>, b: Seq<u8>)
    ensures
        bytes_before(a, b) || bytes_before(b, a) || a == b,
    decreases a.len(),
{
    if a.len() > 0 && b.len() > 0 {
        if a[0] == b[0] {
            lemma_bytes_total(a.drop_first(), b.drop_first());
            if a.drop_first() == b.drop_first() {
                assert(a =~= seq![a[0]] + a.drop_first());
                assert(b =~= seq![b[0]] + b.drop_first());
            }
        }
    } else if a.len() == 0 && b.len() == 0 {
        assert(a =~= b);
    }
}

/// The order of keys is strict and total: of two different keys exactly one comes before the
/// other, no key comes before itself, and the order is transitive.
pub proof fn key_order_is_total(a: DeviceKey, b: DeviceKey, c: DeviceKey)
    ensures
        !key_before(a, a),
        key_before(a, b) ==> !key_before(b, a),
        key_before(a, b) || key_before(b, a) || a == b,
        key_before(a, b) && key_before(b, c) ==> key_before(a, c),
{
    lemma_bytes_irreflexive(a.path);
    if a.serial is Some {
        lemma_bytes_irreflexive(a.serial->0);
    }
    lemma_bytes_total(a.path, b.path);
    if a.serial is Some && b.serial is Some {
        lemma_bytes_total(a.serial->0, b.serial->0);
    }
    lemma_key_transitive(a, b, a);
    lemma_key_transitive(a, b, c);
}

proof fn lemma_key_transitive(a: DeviceKey, b: DeviceKey, c: DeviceKey)
    ensures
        key_before(a, b) && key_before(b, c) ==> key_before(a, c),
{
    if key_before(a, b) && key_before(b, c) {
        if bytes_before(a.path, b.path) && bytes_before(b.path, c.path) {
            lemma_bytes_transitive(a.path, b.path, c.path);
        }
        if a.serial is Some && b.serial is Some && c.serial is Some {
            let (x, y, z) = (a.serial->0, b.serial->0, c.serial->0);
            if bytes_before(x, y) && bytes_before(y, z) {
                lemma_bytes_transitive(x, y, z);
            }
        }
    }
}

/// Whether one byte string comes before another.
pub fn bytes_precede(left: &[u8], right: &[u8]) -> (before: bool)
    ensures
        before == bytes_before(left@, right@),
{
    let mut i: usize = 0;
    assert(left@.skip(0) =~= left@);
    assert(right@.skip(0) =~= right@);
    loop
        invariant
            i <= left@.len(),
            i <= right@.len(),
            bytes_before(left@, right@) == bytes_before(
                left@.skip(i as int),
                right@.skip(i as int),
            ),
        decreases left@.len() - i,
    {
        if i == right.len() {
            return false;
        }
        if i == left.len() {
            return true;
        }
        if left[i] != right[i] {
            return left[i] < right[i];
        }
        assert(left@.skip(i as int).drop_first() =~= left@.skip(i + 1));
        assert(right@.skip(i as int).drop_first() =~= right@.skip(i + 1));
        i = i + 1;
    }
}

/// Whether the text `left` comes before the text `right`, by their bytes.
pub fn text_precedes(left: &str, right: &str) -> (before: bool)
    ensures
        before == bytes_before(
            vstd::utf8::encode_utf8(left@),
            vstd::utf8::encode_utf8(right@),
        ),
{
    bytes_precede(left.as_bytes(), right.as_bytes())
}

/// Whether one serial number and path come before others.
pub fn key_precedes(
    left_serial: Option<&str>,
    left_path: &str,
    right_serial: Option<&str>,
    right_path: &str,
) -> (before: bool)
    ensures
        before == key_before(
            device_key(borrowed_view(left_serial), left_path@),
            device_key(borrowed_view(right_serial), right_path@),
        ),
{
    match (left_serial, right_serial) {
        (None, None) => text_precedes(left_path, right_path),
        (None, Some(_)) => true,
        (Some(_), None) => false,
        (Some(left), Some(right)) => {
            proof {
                vstd::utf8::encode_utf8_decode_utf8(left@);
                vstd::utf8::encode_utf8_decode_utf8(right@);
            }
            text_precedes(left, right) || (same_text(left, right) && text_precedes(
                left_path,
                right_path,
            ))
        },
    }
}

/// Whether one serial number and path are the same as others.
pub fn keys_coincide(
    left_serial: Option<&str>,
    left_path: &str,
    right_serial: Option<&str>,
    right_path: &str,
) -> (same: bool)
    ensures
        same == (device_key(borrowed_view(left_serial), left_path@) == device_key(
            borrowed_view(right_serial),
            right_path@,
        )),
{
    proof {
        vstd::utf8::encode_utf8_decode_utf8(left_path@);
        vstd::utf8::encode_utf8_decode_utf8(right_path@);
    }
    same_text(left_path, right_path) && match (left_serial, right_serial) {
        (None, None) => true,
        (Some(left), Some(right)) => {
            proof {
                vstd::utf8::encode_utf8_decode_utf8(left@);
                vstd::utf8::encode_utf8_decode_utf8(right@);
            }
            same_text(left, right)
        },
        _ => false,
    }
}

/// Whether an item has the given key.
pub open spec fn has_key<T: Ordered>(key: DeviceKey) -> spec_fn(T::V) -> bool {
    |item: T::V| T::key(item) == key
}

/// Items with the given key, in their order.
pub open spec fn with_key<T: Ordered>(items: Seq<T::V>, key: DeviceKey) -> Seq<T::V> {
    items.filter(has_key::<T>(key))
}

/// Whether no item comes before an earlier one.
pub open spec fn in_order<T: Ordered>(items: Seq<T::V>) -> bool {
    forall|i: int, j: int|
        0 <= i < j < items.len() ==> !key_before(
            T::key(#[trigger] items[j]),
            T::key(#[trigger] items[i]),
        )
}

/// Whether each item comes before the later ones.
pub open spec fn in_strict_order<T: Ordered>(items: Seq<T::V>) -> bool {
    forall|i: int, j: int|
        0 <= i < j < items.len() ==> key_before(
            T::key(#[trigger] items[i]),
            T::key(#[trigger] items[j]),
        )
}

/// Whether `sorted` holds exactly the items in key order, with items of equal key in the
/// order that they had.
pub open spec fn sorted_from<T: Ordered>(items: Seq<T::V>, sorted: Seq<T::V>) -> bool {
    &&& in_order::<T>(sorted)
    &&& forall|key: DeviceKey| #[trigger] with_key::<T>(sorted, key) == with_key::<T>(items, key)
}

/// The first item of a sequence that has any.
pub open spec fn at_most_first<V>(items: Seq<V>) -> Seq<V> {
    if items.len() == 0 {
        items
    } else {
        items.take(1)
    }
}

/// Whether `distinct` holds, in key order, exactly the first item of each key.
pub open spec fn distinct_from<T: Ordered>(items: Seq<T::V>, distinct: Seq<T::V>) -> bool {
    &&& in_strict_order::<T>(distinct)
    &&& forall|key: DeviceKey| #[trigger]
        with_key::<T>(distinct, key) == at_most_first(with_key::<T>(items, key))
}

proof fn lemma_filter_one<V>(item: V, keep: spec_fn(V) -> bool)
    ensures
        seq![item].filter(keep) == (if keep(item) {
            seq![item]
        } else {
            Seq::empty()
        }),
{
    reveal(Seq::filter);
    assert(seq![item].drop_last() =~= Seq::empty());
    assert(Seq::<V>::empty().filter(keep) =~= Seq::empty());
    assert(seq![item].filter(keep) =~= if keep(item) {
        seq![item]
    } else {
        Seq::empty()
    });
}

/// Nothing is kept where nothing qualifies.
proof fn lemma_filter_none<V>(items: Seq<V>, keep: spec_fn(V) -> bool)
    requires
        forall|i: int| 0 <= i < items.len() ==> !keep(#[trigger] items[i]),
    ensures
        items.filter(keep) == Seq::<V>::empty(),
    decreases items.len(),
{
    reveal(Seq::filter);
    if items.len() > 0 {
        lemma_filter_none(items.drop_last(), keep);
    }
    assert(items.filter(keep) =~= Seq::empty());
}

/// An item put in front of the ones that do not come before it, and behind those that do,
/// keeps the order and stands in front of its equals.
proof fn lemma_inserted<T: Ordered>(rest: Seq<T::V>, sorted: Seq<T::V>, item: T::V, at: int)
    requires
        sorted_from::<T>(rest, sorted),
        0 <= at <= sorted.len(),
        forall|i: int| 0 <= i < at ==> key_before(T::key(#[trigger] sorted[i]), T::key(item)),
        at < sorted.len() ==> !key_before(T::key(sorted[at]), T::key(item)),
    ensures
        sorted_from::<T>(seq![item] + rest, sorted.insert(at, item)),
{
    let result = sorted.insert(at, item);
    let front = sorted.take(at);
    let back = sorted.skip(at);
    assert(sorted =~= front + back);
    assert(result =~= front + seq![item] + back);
    assert forall|i: int| at <= i < sorted.len() implies !key_before(
        T::key(#[trigger] sorted[i]),
        T::key(item),
    ) by {
        key_order_is_total(T::key(sorted[i]), T::key(item), T::key(sorted[at]));
        key_order_is_total(T::key(item), T::key(sorted[at]), T::key(sorted[i]));
        key_order_is_total(T::key(sorted[at]), T::key(sorted[i]), T::key(item));
    }
    assert forall|i: int, j: int| 0 <= i < j < result.len() implies !key_before(
        T::key(#[trigger] result[j]),
        T::key(#[trigger] result[i]),
    ) by {
        if i == at {
            assert(result[j] == sorted[j - 1]);
        } else if j == at {
            assert(result[i] == sorted[i]);
            key_order_is_total(T::key(result[i]), T::key(item), T::key(item));
        } else {
            let p = if i < at {
                i
            } else {
                i - 1
            };
            let q = if j < at {
                j
            } else {
                j - 1
            };
            assert(result[i] == sorted[p] && result[j] == sorted[q]);
        }
    }
    assert forall|key: DeviceKey| #[trigger]
        with_key::<T>(result, key) == with_key::<T>(seq![item] + rest, key) by {
        let keep = has_key::<T>(key);
        Seq::filter_distributes_over_add(front, back, keep);
        Seq::filter_distributes_over_add(front + seq![item], back, keep);
        Seq::filter_distributes_over_add(front, seq![item], keep);
        Seq::filter_distributes_over_add(seq![item], rest, keep);
        lemma_filter_one(item, keep);
        assert(with_key::<T>(sorted, key) == with_key::<T>(rest, key));
        if T::key(item) == key {
            assert forall|i: int| 0 <= i < front.len() implies !keep(#[trigger] front[i]) by {
                assert(front[i] == sorted[i]);
                key_order_is_total(T::key(sorted[i]), T::key(item), T::key(item));
            }
            lemma_filter_none(front, keep);
            assert(Seq::<T::V>::empty() + seq![item] =~= seq![item]);
            assert(Seq::<T::V>::empty() + back.filter(keep) =~= back.filter(keep));
        } else {
            assert(front.filter(keep) + Seq::<T::V>::empty() =~= front.filter(keep));
            assert(Seq::<T::V>::empty() + rest.filter(keep) =~= rest.filter(keep));
        }
    }
}

/// Sorting neither adds nor loses an item.
pub proof fn sorting_keeps_every_item<T: Ordered>(items: Seq<T::V>, sorted: Seq<T::V>, item: T::V)
    requires
        sorted_from::<T>(items, sorted),
    ensures
        sorted.contains(item) <==> items.contains(item),
{
    let key = T::key(item);
    let keep = has_key::<T>(key);
    assert(with_key::<T>(sorted, key) == with_key::<T>(items, key));
    if sorted.contains(item) {
        let at = choose|at: int| 0 <= at < sorted.len() && sorted[at] == item;
        sorted.lemma_filter_contains(keep, at);
        items.lemma_filter_contains_rev(keep, item);
    }
    if items.contains(item) {
        let at = choose|at: int| 0 <= at < items.len() && items[at] == item;
        items.lemma_filter_contains(keep, at);
        sorted.lemma_filter_contains_rev(keep, item);
    }
}

/// Taking away the first item takes it from the front of the items with its key.
proof fn lemma_without_first<T: Ordered>(items: Seq<T::V>, key: DeviceKey)
    requires
        items.len() > 0,
    ensures
        T::key(items[0]) == key ==> with_key::<T>(items, key) == seq![items[0]] + with_key::<T>(
            items.drop_first(),
            key,
        ),
        T::key(items[0]) != key ==> with_key::<T>(items, key) == with_key::<T>(
            items.drop_first(),
            key,
        ),
{
    let keep = has_key::<T>(key);
    assert(items =~= seq![items[0]] + items.drop_first());
    Seq::filter_distributes_over_add(seq![items[0]], items.drop_first(), keep);
    lemma_filter_one(items[0], keep);
    let rest = with_key::<T>(items.drop_first(), key);
    assert(Seq::<T::V>::empty() + rest =~= rest);
}

/// No item with a key that occurs comes before the first item of the same items in order.
proof fn lemma_first_is_least<T: Ordered>(left: Seq<T::V>, right: Seq<T::V>)
    requires
        in_order::<T>(right),
        forall|key: DeviceKey| #[trigger] with_key::<T>(left, key) == with_key::<T>(right, key),
        left.len() > 0,
    ensures
        right.len() > 0,
        !key_before(T::key(left[0]), T::key(right[0])),
{
    let key = T::key(left[0]);
    let keep = has_key::<T>(key);
    left.lemma_filter_contains(keep, 0);
    assert(with_key::<T>(left, key) == with_key::<T>(right, key));
    right.lemma_filter_contains_rev(keep, left[0]);
    let at = choose|at: int| 0 <= at < right.len() && right[at] == left[0];
    if at == 0 {
        key_order_is_total(key, key, key);
    }
}

/// Discovery order is determined by what was discovered: two sorted forms of the same items
/// are the same.
pub proof fn sorted_form_is_unique<T: Ordered>(
    items: Seq<T::V>,
    left: Seq<T::V>,
    right: Seq<T::V>,
)
    requires
        sorted_from::<T>(items, left),
        sorted_from::<T>(items, right),
    ensures
        left == right,
{
    assert forall|key: DeviceKey| #[trigger]
        with_key::<T>(left, key) == with_key::<T>(right, key) by {
        assert(with_key::<T>(left, key) == with_key::<T>(items, key));
        assert(with_key::<T>(right, key) == with_key::<T>(items, key));
    }
    lemma_ordered_forms_agree::<T>(left, right);
}

proof fn lemma_ordered_forms_agree<T: Ordered>(left: Seq<T::V>, right: Seq<T::V>)
    requires
        in_order::<T>(left),
        in_order::<T>(right),
        forall|key: DeviceKey| #[trigger] with_key::<T>(left, key) == with_key::<T>(right, key),
    ensures
        left == right,
    decreases left.len(),
{
    assert forall|key: DeviceKey| #[trigger]
        with_key::<T>(right, key) == with_key::<T>(left, key) by {
        assert(with_key::<T>(left, key) == with_key::<T>(right, key));
    }
    if left.len() == 0 {
        if right.len() > 0 {
            lemma_first_is_least::<T>(right, left);
        }
        assert(left =~= right);
    } else {
        lemma_first_is_least::<T>(left, right);
        lemma_first_is_least::<T>(right, left);
        let key = T::key(left[0]);
        key_order_is_total(key, T::key(right[0]), key);
        lemma_without_first::<T>(left, key);
        lemma_without_first::<T>(right, key);
        assert(with_key::<T>(left, key)[0] == left[0]);
        assert(with_key::<T>(right, key)[0] == right[0]);
        assert forall|other: DeviceKey| #[trigger]
            with_key::<T>(left.drop_first(), other) == with_key::<T>(
                right.drop_first(),
                other,
            ) by {
            lemma_without_first::<T>(left, other);
            lemma_without_first::<T>(right, other);
            if other == key {
                assert(with_key::<T>(left.drop_first(), key) =~= with_key::<T>(
                    left,
                    key,
                ).drop_first());
                assert(with_key::<T>(right.drop_first(), key) =~= with_key::<T>(
                    right,
                    key,
                ).drop_first());
            }
        }
        assert forall|i: int, j: int| 0 <= i < j < left.len() - 1 implies !key_before(
            T::key(#[trigger] left.drop_first()[j]),
            T::key(#[trigger] left.drop_first()[i]),
        ) by {
            assert(left.drop_first()[i] == left[i + 1] && left.drop_first()[j] == left[j + 1]);
        }
        assert forall|i: int, j: int| 0 <= i < j < right.len() - 1 implies !key_before(
            T::key(#[trigger] right.drop_first()[j]),
            T::key(#[trigger] right.drop_first()[i]),
        ) by {
            assert(right.drop_first()[i] == right[i + 1] && right.drop_first()[j] == right[j + 1]);
        }
        lemma_ordered_forms_agree::<T>(left.drop_first(), right.drop_first());
        assert(left =~= seq![left[0]] + left.drop_first());
        assert(right =~= seq![right[0]] + right.drop_first());
    }
}

/// Puts the items in key order; items of equal key keep their order.
pub fn sort_items<T: Ordered>(items: Vec<T>) -> (sorted: Vec<T>)
    ensures
        sorted_from::<T>(items.deep_view(), sorted.deep_view()),
{
    let ghost all = items.deep_view();
    let mut rest = items;
    let mut sorted: Vec<T> = Vec::new();
    assert(sorted.deep_view() =~= Seq::empty());
    assert(all.skip(all.len() as int) =~= Seq::empty());
    assert(all.take(all.len() as int) =~= all);
    while rest.len() > 0
        invariant
            rest@.len() <= all.len(),
            rest.deep_view() == all.take(rest@.len() as int),
            sorted_from::<T>(all.skip(rest@.len() as int), sorted.deep_view()),
        decreases rest@.len(),
    {
        let ghost count = rest@.len() as int;
        let ghost behind = all.skip(count);
        let ghost remaining = rest.deep_view();
        match rest.pop() {
            None => {},
            Some(item) => {
                let mut at: usize = 0;
                while at < sorted.len() && sorted[at].precedes(&item)
                    invariant
                        at <= sorted@.len(),
                        forall|i: int|
                            0 <= i < at ==> key_before(
                                T::key(#[trigger] sorted.deep_view()[i]),
                                T::key(item.deep_view()),
                            ),
                    ensures
                        at <= sorted@.len(),
                        at < sorted@.len() ==> !key_before(
                            T::key(sorted.deep_view()[at as int]),
                            T::key(item.deep_view()),
                        ),
                    decreases sorted@.len() - at,
                {
                    at = at + 1;
                }
                let ghost before = sorted.deep_view();
                proof {
                    assert(item.deep_view() == remaining[count - 1]);
                    lemma_inserted::<T>(behind, before, item.deep_view(), at as int);
                    assert(seq![item.deep_view()] + behind =~= all.skip(count - 1));
                    assert(rest.deep_view() =~= all.take(count - 1)) by {
                        assert forall|i: int| 0 <= i < count - 1 implies rest.deep_view()[i]
                            == all.take(count - 1)[i] by {
                            assert(rest.deep_view()[i] == remaining[i]);
                        }
                    }
                }
                sorted.insert(at, item);
                assert(sorted.deep_view() =~= before.insert(at as int, item.deep_view()));
            },
        }
    }
    assert(all.skip(0) =~= all);
    sorted
}

/// Adding an item behind a sorted run, where it either repeats the last key or starts a new
/// one, adds it to the distinct items only in the second case.
proof fn lemma_extended<T: Ordered>(run: Seq<T::V>, distinct: Seq<T::V>, item: T::V)
    requires
        distinct_from::<T>(run, distinct),
        in_order::<T>(run.push(item)),
        run.len() > 0 ==> distinct.len() > 0 && T::key(distinct.last()) == T::key(run.last()),
        run.len() == 0 ==> distinct.len() == 0,
    ensures
        distinct.len() > 0 && T::key(distinct.last()) == T::key(item) ==> distinct_from::<T>(
            run.push(item),
            distinct,
        ),
        !(distinct.len() > 0 && T::key(distinct.last()) == T::key(item)) ==> distinct_from::<T>(
            run.push(item),
            distinct.push(item),
        ),
{
    let longer = run.push(item);
    let repeats = distinct.len() > 0 && T::key(distinct.last()) == T::key(item);
    let result = if repeats {
        distinct
    } else {
        distinct.push(item)
    };
    assert(longer =~= run + seq![item]);
    if !repeats {
        assert(distinct.push(item) =~= distinct + seq![item]);
        if run.len() > 0 {
            assert(longer[run.len() as int] == item && longer[run.len() - 1] == run.last());
            key_order_is_total(T::key(run.last()), T::key(item), T::key(item));
            assert(key_before(T::key(distinct.last()), T::key(item)));
        }
    }
    assert forall|i: int, j: int| 0 <= i < j < result.len() implies key_before(
        T::key(#[trigger] result[i]),
        T::key(#[trigger] result[j]),
    ) by {
        if j == distinct.len() {
            if i < distinct.len() - 1 {
                assert(key_before(T::key(distinct[i]), T::key(distinct.last())));
                key_order_is_total(T::key(distinct[i]), T::key(distinct.last()), T::key(item));
            }
        } else {
            assert(result[i] == distinct[i] && result[j] == distinct[j]);
        }
    }
    assert forall|key: DeviceKey| #[trigger]
        with_key::<T>(result, key) == at_most_first(with_key::<T>(longer, key)) by {
        let keep = has_key::<T>(key);
        Seq::filter_distributes_over_add(run, seq![item], keep);
        Seq::filter_distributes_over_add(distinct, seq![item], keep);
        lemma_filter_one(item, keep);
        assert(with_key::<T>(distinct, key) == at_most_first(with_key::<T>(run, key)));
        let before = with_key::<T>(run, key);
        if T::key(item) == key {
            if repeats {
                if before.len() == 0 {
                    assert(keep(distinct.last()));
                    distinct.lemma_filter_contains(keep, distinct.len() - 1);
                    assert(false);
                }
                assert((before + seq![item]).take(1) =~= before.take(1));
            } else {
                assert forall|i: int| 0 <= i < distinct.len() implies !keep(
                    #[trigger] distinct[i],
                ) by {
                    assert(result[i] == distinct[i] && result[distinct.len() as int] == item);
                    key_order_is_total(T::key(distinct[i]), T::key(item), T::key(item));
                }
                lemma_filter_none(distinct, keep);
                assert(before =~= Seq::empty());
                assert(Seq::<T::V>::empty() + seq![item] =~= seq![item]);
                assert(seq![item].take(1) =~= seq![item]);
            }
        } else {
            assert(before + Seq::<T::V>::empty() =~= before);
            assert(with_key::<T>(distinct, key) + Seq::<T::V>::empty() =~= with_key::<T>(distinct, key));
        }
    }
}

/// What discovery lists once per key is determined by what was discovered: two such lists of
/// the same items are the same.
pub proof fn distinct_form_is_unique<T: Ordered>(
    items: Seq<T::V>,
    left: Seq<T::V>,
    right: Seq<T::V>,
)
    requires
        distinct_from::<T>(items, left),
        distinct_from::<T>(items, right),
    ensures
        left == right,
{
    lemma_strict_order_is_order::<T>(left);
    lemma_strict_order_is_order::<T>(right);
    assert forall|key: DeviceKey| #[trigger]
        with_key::<T>(left, key) == with_key::<T>(right, key) by {
        assert(with_key::<T>(left, key) == at_most_first(with_key::<T>(items, key)));
        assert(with_key::<T>(right, key) == at_most_first(with_key::<T>(items, key)));
    }
    lemma_ordered_forms_agree::<T>(left, right);
}

proof fn lemma_strict_order_is_order<T: Ordered>(items: Seq<T::V>)
    requires
        in_strict_order::<T>(items),
    ensures
        in_order::<T>(items),
{
    assert forall|i: int, j: int| 0 <= i < j < items.len() implies !key_before(
        T::key(#[trigger] items[j]),
        T::key(#[trigger] items[i]),
    ) by {
        key_order_is_total(T::key(items[i]), T::key(items[j]), T::key(items[i]));
    }
}

/// Of the items with one key exactly one is kept, and nothing else is added.
pub proof fn distinct_items_stand_for_all<T: Ordered>(
    items: Seq<T::V>,
    distinct: Seq<T::V>,
    item: T::V,
)
    requires
        distinct_from::<T>(items, distinct),
    ensures
        distinct.contains(item) ==> items.contains(item),
        items.contains(item) ==> exists|at: int|
            0 <= at < distinct.len() && T::key(#[trigger] distinct[at]) == T::key(item),
{
    let key = T::key(item);
    let keep = has_key::<T>(key);
    assert(with_key::<T>(distinct, key) == at_most_first(with_key::<T>(items, key)));
    if distinct.contains(item) {
        let at = choose|at: int| 0 <= at < distinct.len() && distinct[at] == item;
        distinct.lemma_filter_contains(keep, at);
        let found = with_key::<T>(distinct, key);
        let i = choose|i: int| 0 <= i < found.len() && found[i] == item;
        assert(with_key::<T>(items, key)[0] == item);
        items.lemma_filter_contains_rev(keep, item);
    }
    if items.contains(item) {
        let at = choose|at: int| 0 <= at < items.len() && items[at] == item;
        items.lemma_filter_contains(keep, at);
        assert(with_key::<T>(items, key).len() > 0);
        let kept = with_key::<T>(distinct, key)[0];
        assert(with_key::<T>(distinct, key).contains(kept));
        distinct.lemma_filter_contains_rev(keep, kept);
        distinct.lemma_filter_pred(keep, 0);
        let i = choose|i: int| 0 <= i < distinct.len() && distinct[i] == kept;
        assert(T::key(distinct[i]) == key);
    }
}

/// Puts the items in key order and keeps the first of each key.
pub fn sort_distinct<T: Ordered>(items: Vec<T>) -> (distinct: Vec<T>)
    ensures
        distinct_from::<T>(items.deep_view(), distinct.deep_view()),
{
    let ghost all = items.deep_view();
    let mut sorted = sort_items(items);
    let ghost ordered = sorted.deep_view();
    let mut reversed: Vec<T> = Vec::new();
    assert(reversed.deep_view() =~= ordered.skip(ordered.len() as int).reverse());
    assert(ordered.take(ordered.len() as int) =~= ordered);
    while sorted.len() > 0
        invariant
            sorted.deep_view() == ordered.take(sorted@.len() as int),
            sorted@.len() <= ordered.len(),
            reversed.deep_view() == ordered.skip(sorted@.len() as int).reverse(),
        decreases sorted@.len(),
    {
        let ghost count = sorted@.len() as int;
        let ghost remaining = sorted.deep_view();
        let ghost moved = reversed.deep_view();
        match sorted.pop() {
            None => {},
            Some(item) => {
                reversed.push(item);
                proof {
                    assert forall|i: int| 0 <= i < count - 1 implies sorted.deep_view()[i]
                        == ordered.take(count - 1)[i] by {
                        assert(sorted.deep_view()[i] == remaining[i]);
                    }
                    assert(sorted.deep_view() =~= ordered.take(count - 1));
                    assert(item.deep_view() == remaining[count - 1]);
                    assert(reversed.deep_view() =~= moved.push(item.deep_view()));
                    assert(reversed.deep_view() =~= ordered.skip(count - 1).reverse());
                }
            },
        }
    }
    assert(ordered.skip(0) =~= ordered);
    let mut distinct: Vec<T> = Vec::new();
    assert(distinct_from::<T>(ordered.take(0), distinct.deep_view())) by {
        assert forall|key: DeviceKey| #[trigger]
            with_key::<T>(distinct.deep_view(), key) == at_most_first(
                with_key::<T>(ordered.take(0), key),
            ) by {
            let keep = has_key::<T>(key);
            lemma_filter_none(distinct.deep_view(), keep);
            lemma_filter_none(ordered.take(0), keep);
        }
    }
    while reversed.len() > 0
        invariant
            in_order::<T>(ordered),
            reversed@.len() <= ordered.len(),
            reversed.deep_view() == ordered.skip(ordered.len() - reversed@.len()).reverse(),
            distinct_from::<T>(
                ordered.take(ordered.len() - reversed@.len()),
                distinct.deep_view(),
            ),
            reversed@.len() == ordered.len() ==> distinct@.len() == 0,
            reversed@.len() < ordered.len() ==> distinct@.len() > 0 && T::key(
                distinct.deep_view().last(),
            ) == T::key(ordered[ordered.len() - reversed@.len() - 1]),
        decreases reversed@.len(),
    {
        let ghost done = ordered.len() - reversed@.len();
        let ghost remaining = reversed.deep_view();
        let ghost kept = distinct.deep_view();
        match reversed.pop() {
            None => {},
            Some(item) => {
                proof {
                    assert(item.deep_view() == remaining.last());
                    assert(item.deep_view() == ordered[done]);
                    assert(ordered.take(done).push(item.deep_view()) =~= ordered.take(done + 1));
                    lemma_extended::<T>(ordered.take(done), kept, item.deep_view());
                    assert forall|i: int| 0 <= i < reversed@.len() implies reversed.deep_view()[i]
                        == ordered.skip(done + 1).reverse()[i] by {
                        assert(reversed.deep_view()[i] == remaining[i]);
                    }
                    assert(reversed.deep_view() =~= ordered.skip(done + 1).reverse());
                }
                let last: usize = distinct.len();
                if last == 0 || !distinct[last - 1].coincides(&item) {
                    distinct.push(item);
                    assert(distinct.deep_view() =~= kept.push(item.deep_view()));
                }
            },
        }
    }
    assert(ordered.take(ordered.len() as int) =~= ordered);
    assert forall|key: DeviceKey| #[trigger]
        with_key::<T>(distinct.deep_view(), key) == at_most_first(with_key::<T>(all, key)) by {
        assert(with_key::<T>(ordered, key) == with_key::<T>(all, key));
    }
    distinct
}

/// Sorting is stable: items that share a key stand in the order that they had.
pub proof fn equals_keep_their_order<T: Ordered>(
    items: Seq<T::V>,
    sorted: Seq<T::V>,
    key: DeviceKey,
)
    requires
        sorted_from::<T>(items, sorted),
    ensures
        sorted.filter(|item: T::V| T::key(item) == key) == items.filter(
            |item: T::V| T::key(item) == key,
        ),
{
    let keep = |item: T::V| T::key(item) == key;
    assert(keep =~= has_key::<T>(key));
    assert(with_key::<T>(sorted, key) == with_key::<T>(items, key));
}

/// Of the items that share a key the first is the one that is kept.
pub proof fn first_items_are_kept<T: Ordered>(
    items: Seq<T::V>,
    distinct: Seq<T::V>,
    kept: int,
) -> (at: int)
    requires
        distinct_from::<T>(items, distinct),
        0 <= kept < distinct.len(),
    ensures
        0 <= at < items.len(),
        items[at] == distinct[kept],
        forall|i: int| 0 <= i < at ==> T::key(#[trigger] items[i]) != T::key(distinct[kept]),
{
    let key = T::key(distinct[kept]);
    let keep = has_key::<T>(key);
    assert(with_key::<T>(distinct, key) == at_most_first(with_key::<T>(items, key)));
    distinct.lemma_filter_contains(keep, kept);
    let found = with_key::<T>(distinct, key);
    let k = choose|k: int| 0 <= k < found.len() && found[k] == distinct[kept];
    assert(found[0] == distinct[kept]);
    lemma_first_kept::<T>(items, key)
}

/// The first item that is kept is the first that qualifies.
proof fn lemma_first_kept<T: Ordered>(items: Seq<T::V>, key: DeviceKey) -> (at: int)
    requires
        with_key::<T>(items, key).len() > 0,
    ensures
        0 <= at < items.len(),
        items[at] == with_key::<T>(items, key)[0],
        forall|i: int| 0 <= i < at ==> T::key(#[trigger] items[i]) != key,
    decreases items.len(),
{
    reveal(Seq::filter);
    let rest = items.drop_last();
    if with_key::<T>(rest, key).len() > 0 {
        let at = lemma_first_kept::<T>(rest, key);
        assert forall|i: int| 0 <= i < at implies T::key(#[trigger] items[i]) != key by {
            assert(items[i] == rest[i]);
        }
        at
    } else {
        assert forall|i: int| 0 <= i < rest.len() implies T::key(#[trigger] items[i]) != key by {
            if T::key(items[i]) == key {
                assert(rest[i] == items[i]);
                rest.lemma_filter_contains(has_key::<T>(key), i);
            }
        }
        items.len() - 1
    }
}

}

use vstd::prelude::*;

use crate::attributes::native_view;
use crate::completion::NativeError;
use crate::decimal::{format_u64, nat_text};
use crate::error::NO_SUCH_OBJECT;
use crate::item::{copy_item, same_item, Item};

verus! {

/// `n` holds the pair `(k, v)`.
pub open spec fn has_pair(n: Seq<(Seq<char>, Seq<char>)>, k: Seq<char>, v: Seq<char>) -> bool {
    exists|i: int| 0 <= i < n.len() && #[trigger] n[i] == (k, v)
}

/// Attributes `attrs` match `filter` when they hold every pair of it.
pub open spec fn matches(attrs: Seq<(Seq<char>, Seq<char>)>, filter: Seq<(Seq<char>, Seq<char>)>) -> bool {
    forall|j: int| 0 <= j < filter.len() ==> has_pair(attrs, #[trigger] filter[j].0, filter[j].1)
}

/// The two hold the same pairs.
pub open spec fn same_attributes(
    a: Seq<(Seq<char>, Seq<char>)>,
    b: Seq<(Seq<char>, Seq<char>)>,
) -> bool {
    matches(a, b) && matches(b, a)
}

/// An item and the collection that holds it.
#[derive(Debug)]
pub struct Stored {
    pub collection: String,
    pub item: Item,
}

/// The item is in collection `c` (any, for `None`) and matches `filter`.
pub open spec fn selects(
    s: Stored,
    c: Option<Seq<char>>,
    filter: Seq<(Seq<char>, Seq<char>)>,
) -> bool {
    &&& match c {
        Some(c) => s.collection@ == c,
        None => true,
    }
    &&& matches(native_view(s.item.attributes@), filter)
}

/// The items that `c` and `filter` select, in order.
pub open spec fn selected(
    items: Seq<Stored>,
    c: Option<Seq<char>>,
    filter: Seq<(Seq<char>, Seq<char>)>,
) -> Seq<Item>
    decreases items.len(),
{
    if items.len() == 0 {
        Seq::empty()
    } else if selects(items.last(), c, filter) {
        selected(items.drop_last(), c, filter).push(items.last().item)
    } else {
        selected(items.drop_last(), c, filter)
    }
}

/// The stored items that `c` and `filter` do not select, in order.
pub open spec fn unselected(
    items: Seq<Stored>,
    c: Option<Seq<char>>,
    filter: Seq<(Seq<char>, Seq<char>)>,
) -> Seq<Stored>
    decreases items.len(),
{
    if items.len() == 0 {
        Seq::empty()
    } else if selects(items.last(), c, filter) {
        unselected(items.drop_last(), c, filter)
    } else {
        unselected(items.drop_last(), c, filter).push(items.last())
    }
}

/// The item is in collection `c` with exactly the pairs of `attrs`.
pub open spec fn alike(s: Stored, c: Seq<char>, attrs: Seq<(Seq<char>, Seq<char>)>) -> bool {
    s.collection@ == c && same_attributes(native_view(s.item.attributes@), attrs)
}

/// The stored items that are not alike to `attrs` in `c`, in order.
pub open spec fn unlike(items: Seq<Stored>, c: Seq<char>, attrs: Seq<(Seq<char>, Seq<char>)>) -> Seq<
    Stored,
>
    decreases items.len(),
{
    if items.len() == 0 {
        Seq::empty()
    } else if alike(items.last(), c, attrs) {
        unlike(items.drop_last(), c, attrs)
    } else {
        unlike(items.drop_last(), c, attrs).push(items.last())
    }
}

/// How many stored items are alike to `attrs` in `c`.
pub open spec fn count_alike(items: Seq<Stored>, c: Seq<char>, attrs: Seq<(Seq<char>, Seq<char>)>) -> nat
    decreases items.len(),
{
    if items.len() == 0 {
        0
    } else if alike(items.last(), c, attrs) {
        count_alike(items.drop_last(), c, attrs) + 1
    } else {
        count_alike(items.drop_last(), c, attrs)
    }
}

proof fn lemma_count_unlike(items: Seq<Stored>, c: Seq<char>, attrs: Seq<(Seq<char>, Seq<char>)>)
    ensures
        count_alike(unlike(items, c, attrs), c, attrs) == 0,
    decreases items.len(),
{
    if items.len() > 0 {
        lemma_count_unlike(items.drop_last(), c, attrs);
        let u = unlike(items.drop_last(), c, attrs);
        if !alike(items.last(), c, attrs) {
            assert(u.push(items.last()).drop_last() =~= u);
        }
    }
}

/// After an item is created with replacement in collection `c`, exactly one
/// item of `c` has its attributes: those alike before were replaced.
pub proof fn lemma_replace_leaves_one(items: Seq<Stored>, c: Seq<char>, created: Stored)
    requires
        created.collection@ == c,
    ensures
        count_alike(
            unlike(items, c, native_view(created.item.attributes@)).push(created),
            c,
            native_view(created.item.attributes@),
        ) == 1,
{
    let a = native_view(created.item.attributes@);
    let u = unlike(items, c, a);
    lemma_count_unlike(items, c, a);
    assert(u.push(created).drop_last() =~= u);
    assert forall|j: int| 0 <= j < a.len() implies has_pair(a, #[trigger] a[j].0, a[j].1) by {
        assert(a[j] == (a[j].0, a[j].1));
    }
}

/// Whether `attrs` hold the pair `(k, v)`.
pub fn holds_pair(attrs: &Vec<(String, String)>, k: &String, v: &String) -> (r: bool)
    ensures
        r == has_pair(native_view(attrs@), k@, v@),
{
    let ghost n = native_view(attrs@);
    let mut i: usize = 0;
    while i < attrs.len()
        invariant
            i <= attrs@.len(),
            n == native_view(attrs@),
            forall|j: int| 0 <= j < i ==> #[trigger] n[j] != (k@, v@),
        decreases attrs@.len() - i,
    {
        assert(n[i as int] == (attrs@[i as int].0@, attrs@[i as int].1@));
        if attrs[i].0 == *k && attrs[i].1 == *v {
            return true;
        }
        i = i + 1;
    }
    proof {
        if has_pair(n, k@, v@) {
            let j = choose|j: int| 0 <= j < n.len() && #[trigger] n[j] == (k@, v@);
            assert(n[j] != (k@, v@));
        }
    }
    false
}

/// Whether `attrs` match `filter`.
pub fn attributes_match(attrs: &Vec<(String, String)>, filter: &Vec<(String, String)>) -> (r: bool)
    ensures
        r == matches(native_view(attrs@), native_view(filter@)),
{
    let ghost f = native_view(filter@);
    let mut j: usize = 0;
    while j < filter.len()
        invariant
            j <= filter@.len(),
            f == native_view(filter@),
            forall|m: int| 0 <= m < j ==> has_pair(native_view(attrs@), #[trigger] f[m].0, f[m].1),
        decreases filter@.len() - j,
    {
        assert(f[j as int] == (filter@[j as int].0@, filter@[j as int].1@));
        if !holds_pair(attrs, &filter[j].0, &filter[j].1) {
            assert(!has_pair(native_view(attrs@), f[j as int].0, f[j as int].1));
            return false;
        }
        j = j + 1;
    }
    true
}

/// The collection named, as text.
pub open spec fn collection_view(c: Option<&String>) -> Option<Seq<char>> {
    match c {
        Some(c) => Some(c@),
        None => None,
    }
}

/// The two sequences hold equal items.
pub open spec fn same_items(a: Seq<Item>, b: Seq<Item>) -> bool {
    a.len() == b.len() && forall|i: int| 0 <= i < a.len() ==> same_item(#[trigger] a[i], b[i])
}

/// The object path of an item created with number `id` in collection `c`.
pub open spec fn item_path(c: Seq<char>, id: u64) -> Seq<char> {
    c + seq!['/'] + nat_text(id as nat)
}

/// An in-process secret store that answers requests as the service does:
/// items live in collections, and a search, lookup or clear selects those
/// whose attributes hold every pair of the filter. For running operations,
/// and their completions, without a service.
#[derive(Debug)]
pub struct MemoryStore {
    items: Vec<Stored>,
    next_id: u64,
}

impl View for MemoryStore {
    type V = Seq<Stored>;

    closed spec fn view(&self) -> Seq<Stored> {
        self.items@
    }
}

/// The path of the collection that takes a password stored with no
/// collection named.
pub fn default_collection() -> (r: String)
    ensures
        r@ == "/org/freedesktop/secrets/aliases/default"@,
{
    String::from_str("/org/freedesktop/secrets/aliases/default")
}

fn selects_exec(s: &Stored, c: Option<&String>, filter: &Vec<(String, String)>) -> (r: bool)
    ensures
        r == selects(*s, collection_view(c), native_view(filter@)),
{
    let in_collection = match c {
        Some(c) => s.collection == *c,
        None => true,
    };
    in_collection && attributes_match(&s.item.attributes, filter)
}

fn alike_exec(s: &Stored, c: &String, attrs: &Vec<(String, String)>) -> (r: bool)
    ensures
        r == alike(*s, c@, native_view(attrs@)),
{
    s.collection == *c && attributes_match(&s.item.attributes, attrs) && attributes_match(
        attrs,
        &s.item.attributes,
    )
}

impl MemoryStore {
    pub closed spec fn spec_next_id(&self) -> u64 {
        self.next_id
    }

    /// A store with no item.
    pub fn new() -> (r: MemoryStore)
        ensures
            r@.len() == 0,
    {
        MemoryStore { items: Vec::new(), next_id: 0 }
    }

    pub fn len(&self) -> (r: usize)
        ensures
            r == self@.len(),
    {
        self.items.len()
    }

    /// The items of collection `collection` (of any, for `None`) that match
    /// `filter`, in the order they were stored.
    pub fn search(&self, collection: Option<&String>, filter: &Vec<(String, String)>) -> (r: Vec<
        Item,
    >)
        ensures
            same_items(r@, selected(self@, collection_view(collection), native_view(filter@))),
    {
        let ghost c = collection_view(collection);
        let ghost f = native_view(filter@);
        let mut out: Vec<Item> = Vec::new();
        let mut i: usize = 0;
        while i < self.items.len()
            invariant
                i <= self.items@.len(),
                c == collection_view(collection),
                f == native_view(filter@),
                same_items(out@, selected(self.items@.take(i as int), c, f)),
            decreases self.items@.len() - i,
        {
            let ghost prefix = self.items@.take(i as int);
            let ghost before = out@;
            if selects_exec(&self.items[i], collection, filter) {
                out.push(copy_item(&self.items[i].item));
            }
            i = i + 1;
            assert(self.items@.take(i as int).drop_last() =~= prefix);
            assert(self.items@.take(i as int).last() == self.items@[i - 1]);
            proof {
                let sel = selected(self.items@.take(i as int), c, f);
                if selects(self.items@[i - 1], c, f) {
                    assert(sel == selected(prefix, c, f).push(self.items@[i - 1].item));
                    assert forall|m: int| 0 <= m < out@.len() implies same_item(
                        #[trigger] out@[m],
                        sel[m],
                    ) by {
                        if m < before.len() {
                            assert(out@[m] == before[m]);
                        }
                    }
                } else {
                    assert(out@ == before);
                }
            }
        }
        assert(self.items@.take(i as int) =~= self.items@);
        out
    }

    /// The secret of the first stored item that matches `filter`; `None`
    /// when none matches.
    pub fn lookup(&self, filter: &Vec<(String, String)>) -> (r: Option<String>)
        ensures
            (forall|i: int| 0 <= i < self@.len() ==> !selects(#[trigger] self@[i], None, native_view(filter@)))
                ==> r is None,
            forall|i: int|
                0 <= i < self@.len() && selects(#[trigger] self@[i], None, native_view(filter@))
                    && (forall|j: int| 0 <= j < i ==> !selects(#[trigger] self@[j], None, native_view(filter@)))
                    ==> r == self@[i].item.secret,
    {
        let ghost f = native_view(filter@);
        let mut i: usize = 0;
        while i < self.items.len()
            invariant
                i <= self.items@.len(),
                f == native_view(filter@),
                forall|j: int| 0 <= j < i ==> !selects(#[trigger] self.items@[j], None, f),
            decreases self.items@.len() - i,
        {
            if selects_exec(&self.items[i], None, filter) {
                let r = match &self.items[i].item.secret {
                    Some(t) => Some(t.clone()),
                    None => None,
                };
                proof {
                    assert forall|k: int|
                        0 <= k < self@.len() && selects(#[trigger] self@[k], None, f) && (forall|j: int|
                            0 <= j < k ==> !selects(#[trigger] self@[j], None, f)) implies r
                        == self@[k].item.secret by {
                        if k < i {
                        } else if k > i {
                            assert(!selects(self@[i as int], None, f));
                        }
                    }
                }
                return r;
            }
            i = i + 1;
        }
        None
    }

    /// Removes every stored item that matches `filter`; whether any was.
    pub fn clear(&mut self, filter: &Vec<(String, String)>) -> (r: bool)
        ensures
            final(self)@ == unselected(old(self)@, None, native_view(filter@)),
            r == (selected(old(self)@, None, native_view(filter@)).len() > 0),
            final(self).spec_next_id() == old(self).spec_next_id(),
    {
        let ghost f = native_view(filter@);
        let ghost orig = self.items@;
        let ghost mut k: int = 0;
        let mut removed = false;
        let mut i: usize = 0;
        while i < self.items.len()
            invariant
                0 <= k <= orig.len(),
                f == native_view(filter@),
                self.items@ == unselected(orig.take(k), None, f) + orig.skip(k),
                i == unselected(orig.take(k), None, f).len(),
                removed == (selected(orig.take(k), None, f).len() > 0),
                self.next_id == old(self).next_id,
                orig == old(self).items@,
            decreases orig.len() - k,
        {
            let ghost u = unselected(orig.take(k), None, f);
            assert(orig.take(k + 1).drop_last() =~= orig.take(k));
            assert(orig.take(k + 1).last() == orig[k]);
            assert(self.items@[i as int] == orig[k]);
            if selects_exec(&self.items[i], None, filter) {
                self.items.remove(i);
                removed = true;
                proof {
                    k = k + 1;
                    assert(self.items@ =~= unselected(orig.take(k), None, f) + orig.skip(k));
                }
            } else {
                i = i + 1;
                proof {
                    k = k + 1;
                    assert(self.items@ =~= unselected(orig.take(k), None, f) + orig.skip(k));
                }
            }
        }
        proof {
            if k < orig.len() {
                assert(self.items@.len() > i);
            }
            assert(orig.take(k) =~= orig);
            assert(self.items@ =~= unselected(orig, None, f));
        }
        removed
    }

    /// Removes every item of collection `c` whose attributes are exactly
    /// `attrs`.
    fn remove_alike(&mut self, c: &String, attrs: &Vec<(String, String)>)
        ensures
            final(self)@ == unlike(old(self)@, c@, native_view(attrs@)),
            final(self).spec_next_id() == old(self).spec_next_id(),
    {
        let ghost a = native_view(attrs@);
        let ghost orig = self.items@;
        let ghost mut k: int = 0;
        let mut i: usize = 0;
        while i < self.items.len()
            invariant
                0 <= k <= orig.len(),
                a == native_view(attrs@),
                self.items@ == unlike(orig.take(k), c@, a) + orig.skip(k),
                i == unlike(orig.take(k), c@, a).len(),
                self.next_id == old(self).next_id,
                orig == old(self).items@,
            decreases orig.len() - k,
        {
            assert(orig.take(k + 1).drop_last() =~= orig.take(k));
            assert(orig.take(k + 1).last() == orig[k]);
            assert(self.items@[i as int] == orig[k]);
            if alike_exec(&self.items[i], c, attrs) {
                self.items.remove(i);
                proof {
                    k = k + 1;
                    assert(self.items@ =~= unlike(orig.take(k), c@, a) + orig.skip(k));
                }
            } else {
                i = i + 1;
                proof {
                    k = k + 1;
                    assert(self.items@ =~= unlike(orig.take(k), c@, a) + orig.skip(k));
                }
            }
        }
        proof {
            if k < orig.len() {
                assert(self.items@.len() > i);
            }
            assert(orig.take(k) =~= orig);
            assert(self.items@ =~= unlike(orig, c@, a));
        }
    }

    /// Creates an item in `collection`; with `replace`, the items of that
    /// collection whose attributes are exactly `attributes` go first. The
    /// new item comes last, and a copy of it is returned.
    pub fn create_item(
        &mut self,
        collection: String,
        attributes: Vec<(String, String)>,
        label: String,
        secret: String,
        replace: bool,
    ) -> (r: Item)
        ensures
            ({
                let kept = if replace {
                    unlike(old(self)@, collection@, native_view(attributes@))
                } else {
                    old(self)@
                };
                &&& final(self)@.len() == kept.len() + 1
                &&& final(self)@.drop_last() == kept
            }),
            final(self)@.last().collection == collection,
            final(self)@.last().item.path@ == item_path(collection@, old(self).spec_next_id()),
            final(self)@.last().item.label == label,
            final(self)@.last().item.attributes@ == attributes@,
            final(self)@.last().item.secret == Some(secret),
            same_item(r, final(self)@.last().item),
    {
        if replace {
            self.remove_alike(&collection, &attributes);
        }
        let ghost kept = self.items@;
        let id = self.next_id;
        let mut path = collection.clone();
        proof {
            reveal_strlit("/");
        }
        path.append("/");
        path.append(format_u64(id).as_str());
        if self.next_id < u64::MAX {
            self.next_id = self.next_id + 1;
        }
        assert(path@ =~= item_path(collection@, id));
        let item = Item { path, label, attributes, secret: Some(secret) };
        let r = copy_item(&item);
        self.items.push(Stored { collection, item });
        assert(self.items@.drop_last() =~= kept);
        r
    }

    /// Stores `password` as a secret store does: in `collection`, else in
    /// the default collection, replacing the items there whose attributes
    /// are exactly `attributes`.
    pub fn store_password(
        &mut self,
        collection: Option<String>,
        attributes: Vec<(String, String)>,
        label: String,
        password: String,
    ) -> (r: bool)
        ensures
            r,
            ({
                let c = match collection {
                    Some(c) => c@,
                    None => "/org/freedesktop/secrets/aliases/default"@,
                };
                &&& final(self)@.drop_last() == unlike(old(self)@, c, native_view(attributes@))
                &&& final(self)@.len() == final(self)@.drop_last().len() + 1
                &&& final(self)@.last().collection@ == c
            }),
            final(self)@.last().item.label == label,
            final(self)@.last().item.attributes@ == attributes@,
            final(self)@.last().item.secret == Some(password),
    {
        let c = match collection {
            Some(c) => c,
            None => default_collection(),
        };
        self.create_item(c, attributes, label, password, true);
        true
    }

    /// Removes the first stored item whose path is `path`; the service's
    /// error for a missing object when there is none.
    pub fn delete_item(&mut self, path: &String) -> (r: Result<(), NativeError>)
        ensures
            (forall|i: int| 0 <= i < old(self)@.len() ==> #[trigger] old(self)@[i].item.path@ != path@)
                ==> (r matches Err(e) && e.code == NO_SUCH_OBJECT && final(self)@ == old(self)@),
            forall|i: int|
                0 <= i < old(self)@.len() && #[trigger] old(self)@[i].item.path@ == path@ && (forall|j: int|
                    0 <= j < i ==> #[trigger] old(self)@[j].item.path@ != path@) ==> (r is Ok
                    && final(self)@ == old(self)@.remove(i)),
    {
        let mut i: usize = 0;
        while i < self.items.len()
            invariant
                i <= self.items@.len(),
                self.items@ == old(self).items@,
                self.next_id == old(self).next_id,
                forall|j: int| 0 <= j < i ==> #[trigger] self.items@[j].item.path@ != path@,
            decreases self.items@.len() - i,
        {
            if self.items[i].item.path == *path {
                let ghost before = self.items@;
                self.items.remove(i);
                proof {
                    assert forall|m: int|
                        0 <= m < before.len() && #[trigger] before[m].item.path@ == path@ && (forall|j: int|
                            0 <= j < m ==> #[trigger] before[j].item.path@ != path@) implies m == i by {
                        if m > i {
                            assert(before[i as int].item.path@ == path@);
                        }
                    }
                }
                return Ok(());
            }
            i = i + 1;
        }
        Err(NativeError { code: NO_SUCH_OBJECT, message: String::from_str("no such item") })
    }
}

} // verus!
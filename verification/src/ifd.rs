use vstd::prelude::*;
use crate::data::{Entry, EntryModel};
use crate::error::{TagError, TagErrorKind};
use crate::tag::{declares_its_tag, may_refuse, spec_tag_of, AnyTag, Tag};
use std::collections::HashMap;
use vstd::std_specs::iter::IteratorSpec;

verus! {

broadcast use vstd::std_specs::hash::group_hash_axioms;

/// IFD (Image File Directory): the entries of an image, each under its tag.
#[derive(Debug, Clone)]
pub struct ImageFileDirectory(HashMap<u32, Entry>);

impl View for ImageFileDirectory {
    type V = Map<AnyTag, EntryModel>;

    /// The entry of each tag.
    closed spec fn view(&self) -> Map<AnyTag, EntryModel> {
        Map::new(
            |t: AnyTag| self.0@.contains_key(t.spec_key()),
            |t: AnyTag| self.0@[t.spec_key()]@,
        )
    }
}

impl ImageFileDirectory {
    /// Every stored key is the key of a tag.
    pub closed spec fn wf(&self) -> bool {
        forall|k: u32| #[trigger]
            self.0@.contains_key(k) ==> AnyTag::spec_from_key(k).spec_key() == k
    }

    /// An empty directory.
    pub fn new() -> (r: Self)
        ensures
            r@ == Map::<AnyTag, EntryModel>::empty(),
            r.wf(),
    {
        let r = ImageFileDirectory(HashMap::new());
        assert(r@ =~= Map::<AnyTag, EntryModel>::empty());
        r
    }

    /// Puts the entry under the tag; the entry that the tag had, if any, is returned.
    pub fn insert_tag(&mut self, tag: AnyTag, entry: Entry) -> (r: Option<Entry>)
        requires
            old(self).wf(),
        ensures
            final(self).wf(),
            final(self)@ == old(self)@.insert(tag, entry@),
            match r {
                Some(e) => old(self)@.contains_key(tag) && e@ == old(self)@[tag],
                None => !old(self)@.contains_key(tag),
            },
    {
        let ghost old_map = self.0@;
        let r = self.0.insert(tag.key(), entry);
        proof {
            assert forall|t: AnyTag| t.spec_key() == tag.spec_key() implies t == tag by {
                crate::tag::lemma_key_injective(t, tag);
            }
            assert(self@ =~= old(self)@.insert(tag, entry@));
        }
        r
    }

    /// Puts the entry under the tag that `T` stands for.
    ///
    /// # Errors
    ///
    /// The error of `AnyTag::try_from::<T>`, with the directory unchanged.
    pub fn insert<T: Tag>(&mut self, entry: Entry) -> (r: Result<Option<Entry>, TagError<T>>)
        requires
            old(self).wf(),
        ensures
            final(self).wf(),
            (r matches Ok(o) ==> declares_its_tag::<T>() && final(self)@ == old(self)@.insert(
                spec_tag_of::<T>(),
                entry@,
            ) && match o {
                Some(e) => old(self)@.contains_key(spec_tag_of::<T>()) && e@ == old(self)@[spec_tag_of::<T>()],
                None => !old(self)@.contains_key(spec_tag_of::<T>()),
            }),
            (r matches Err(e) ==> may_refuse::<T>() && e.spec_kind() == (TagErrorKind::UnauthorizedTag {
                tag_id: T::spec_id(),
            }) && final(self)@ == old(self)@),
            !may_refuse::<T>() ==> (r is Ok),
    {
        let anytag = match AnyTag::try_from::<T>() {
            Ok(t) => t,
            Err(e) => return Err(e),
        };
        let res = self.insert_tag(anytag, entry);
        Ok(res)
    }

    /// The entry of the tag.
    pub fn get_tag(&self, tag: AnyTag) -> (r: Option<&Entry>)
        ensures
            match r {
                Some(e) => self@.contains_key(tag) && e@ == self@[tag],
                None => !self@.contains_key(tag),
            },
    {
        self.0.get(&tag.key())
    }

    /// The entry of the tag that `T` stands for.
    ///
    /// # Errors
    ///
    /// The error of `AnyTag::try_from::<T>`.
    pub fn get<T: Tag>(&self) -> (r: Result<Option<&Entry>, TagError<T>>)
        ensures
            (r matches Ok(o) ==> declares_its_tag::<T>() && match o {
                Some(e) => self@.contains_key(spec_tag_of::<T>()) && e@ == self@[spec_tag_of::<T>()],
                None => !self@.contains_key(spec_tag_of::<T>()),
            }),
            (r matches Err(e) ==> may_refuse::<T>() && e.spec_kind() == (TagErrorKind::UnauthorizedTag {
                tag_id: T::spec_id(),
            })),
            !may_refuse::<T>() ==> (r is Ok),
    {
        let anytag = match AnyTag::try_from::<T>() {
            Ok(t) => t,
            Err(e) => return Err(e),
        };
        Ok(self.get_tag(anytag))
    }

    /// The order in which the tags are walked. It is left open, but it is one order for
    /// one directory: `iter`, `tags` and `entries` of an unchanged directory all follow it.
    pub closed spec fn spec_walk(&self) -> std::collections::hash_map::Iter<'_, u32, Entry> {
        vstd::std_specs::hash::spec_hash_map_iter(&self.0)
    }

    /// Lists the entries with their tags, each once, in the order in which the map is
    /// walked; that order is left open.
    pub fn iter(&self) -> (r: Iter)
        requires
            self.wf(),
        ensures
            r@.len() == r.spec_items().len(),
            r@ == r.spec_items(),
            lists_map(r@, self@),
            r@.map_values(|p: (AnyTag, Entry)| p.0) == tags_of(self.spec_walk().remaining()),
    {
        let mut items: Vec<(AnyTag, Entry)> = Vec::new();
        let ghost m = self.0@;
        for kv in it: self.0.iter()
            invariant
                m == self.0@,
                self.wf(),
                it.seq() == vstd::std_specs::hash::spec_hash_map_iter(&self.0).remaining(),
                items@.len() == it.index(),
                forall|i: int|
                    0 <= i < it.index() ==> #[trigger] items@[i] == (
                        AnyTag::spec_from_key(*it.seq()[i].0),
                        *it.seq()[i].1,
                    ),
        {
            let (k, v) = kv;
            items.push((AnyTag::from_key(*k), *v));
        }
        proof {
            let sq = vstd::std_specs::hash::spec_hash_map_iter(&self.0).remaining();
            vstd::std_specs::hash::axiom_spec_hash_map_iter(&self.0);
            assert(items@.len() == sq.len());
            assert forall|i: int| 0 <= i < items@.len() implies self@.contains_key(
                #[trigger] items@[i].0,
            ) && self@[items@[i].0] == items@[i].1@ by {
                assert(m.contains_key(*sq[i].0));
            }
            assert(items@.map_values(|p: (AnyTag, Entry)| p.0) =~= tags_of(self.spec_walk().remaining()));
            assert forall|t: AnyTag| #[trigger] self@.contains_key(t) implies exists|i: int|
                0 <= i < items@.len() && #[trigger] items@[i].0 == t by {
                let k = t.spec_key();
                assert(m.contains_key(k));
                assert(sq.contains((&k, &m[k])));
                let i = choose|i: int| 0 <= i < sq.len() && sq[i] == (&k, &m[k]);
                crate::tag::lemma_key_injective(t, t);
                assert(items@[i].0 == t);
            }
            assert forall|i: int, j: int|
                0 <= i < items@.len() && 0 <= j < items@.len() && i != j implies #[trigger] items@[i].0
                != #[trigger] items@[j].0 by {
                assert(sq.no_duplicates());
                if items@[i].0 == items@[j].0 {
                    assert(m.contains_key(*sq[i].0));
                    assert(m.contains_key(*sq[j].0));
                    assert(*sq[i].0 == *sq[j].0);
                    assert(*sq[i].1 == m[*sq[i].0]);
                    assert(*sq[j].1 == m[*sq[j].0]);
                    assert(sq[i] == sq[j]);
                }
            }
        }
        Iter { items, next: 0 }
    }

    /// Lists the tags, each once, in an order that is left open.
    pub fn tags(&self) -> (r: Tags)
        requires
            self.wf(),
        ensures
            r@.to_set() == self@.dom(),
            r@.no_duplicates(),
            r@ == tags_of(self.spec_walk().remaining()),
    {
        let inner = self.iter();
        let r = Tags { inner };
        proof {
            assert(r@ =~= tags_of(self.spec_walk().remaining()));
            assert forall|t: AnyTag| r@.contains(t) <==> self@.contains_key(t) by {
                if r@.contains(t) {
                    let i = choose|i: int| 0 <= i < r@.len() && r@[i] == t;
                    assert(inner@[i].0 == t);
                }
                if self@.contains_key(t) {
                    let i = choose|i: int| 0 <= i < inner@.len() && #[trigger] inner@[i].0 == t;
                    assert(r@[i] == t);
                }
            }
            assert(r@.to_set() =~= self@.dom());
        }
        r
    }

    /// Lists the entries, each with a tag of its own, in an order that is left open.
    pub fn entries(&self) -> (r: Entries)
        requires
            self.wf(),
        ensures
            exists|order: Seq<AnyTag>|
                order.to_set() == self@.dom() && order.no_duplicates() && order.len() == r@.len()
                    && forall|i: int| 0 <= i < order.len() ==> r@[i]@ == self@[#[trigger] order[i]],
            r@.len() == tags_of(self.spec_walk().remaining()).len(),
            forall|i: int| 0 <= i < r@.len() ==> r@[i]@ == self@[#[trigger] tags_of(self.spec_walk().remaining())[i]],
    {
        let inner = self.iter();
        let r = Entries { inner };
        proof {
            let order = inner@.map_values(|p: (AnyTag, Entry)| p.0);
            assert(order == tags_of(self.spec_walk().remaining()));
            assert forall|t: AnyTag| order.contains(t) <==> self@.contains_key(t) by {
                if order.contains(t) {
                    let i = choose|i: int| 0 <= i < order.len() && order[i] == t;
                    assert(inner@[i].0 == t);
                }
                if self@.contains_key(t) {
                    let i = choose|i: int| 0 <= i < inner@.len() && #[trigger] inner@[i].0 == t;
                    assert(order[i] == t);
                }
            }
            assert(order.to_set() =~= self@.dom());
            assert forall|i: int| 0 <= i < order.len() implies r@[i]@ == self@[#[trigger] order[i]] by {
                assert(inner@[i].0 == order[i]);
            }
            assert(order.no_duplicates()) by {
                assert forall|i: int, j: int| 0 <= i < order.len() && 0 <= j < order.len() && i != j implies order[i] != order[j] by {
                    assert(inner@[i].0 != inner@[j].0);
                }
            }
        }
        r
    }
}

/// The tags of the keys that a walk of the stored map gives, in its order.
pub open spec fn tags_of(walk: Seq<(&u32, &Entry)>) -> Seq<AnyTag> {
    walk.map_values(|p: (&u32, &Entry)| AnyTag::spec_from_key(*p.0))
}

/// Whether a list holds each entry of the map once, with its tag.
pub open spec fn lists_map(items: Seq<(AnyTag, Entry)>, m: Map<AnyTag, EntryModel>) -> bool {
    &&& forall|i: int|
        0 <= i < items.len() ==> m.contains_key(#[trigger] items[i].0) && m[items[i].0]
            == items[i].1@
    &&& forall|t: AnyTag| #[trigger]
        m.contains_key(t) ==> exists|i: int| 0 <= i < items.len() && #[trigger] items[i].0 == t
    &&& forall|i: int, j: int|
        0 <= i < items.len() && 0 <= j < items.len() && i != j ==> #[trigger] items[i].0
            != #[trigger] items[j].0
}

/// The entries of a directory with their tags, one after the other.
pub struct Iter {
    items: Vec<(AnyTag, Entry)>,
    next: usize,
}

impl View for Iter {
    type V = Seq<(AnyTag, Entry)>;

    /// The entries that are still to come.
    closed spec fn view(&self) -> Seq<(AnyTag, Entry)> {
        if self.next <= self.items@.len() {
            self.items@.skip(self.next as int)
        } else {
            Seq::empty()
        }
    }
}

impl Iter {
    pub closed spec fn spec_items(&self) -> Seq<(AnyTag, Entry)> {
        self.items@
    }

    /// The next entry with its tag, if any is left.
    pub fn next(&mut self) -> (r: Option<(AnyTag, Entry)>)
        ensures
            old(self)@.len() > 0 ==> r == Some(old(self)@[0]) && final(self)@ == old(self)@.drop_first(),
            old(self)@.len() == 0 ==> r is None && final(self)@ == old(self)@,
    {
        if self.next < self.items.len() {
            let item = self.items[self.next];
            self.next = self.next + 1;
            assert(self@ =~= old(self)@.drop_first());
            Some(item)
        } else {
            None
        }
    }

    /// The number of entries left.
    pub fn len(&self) -> (r: usize)
        ensures
            r == self@.len(),
    {
        if self.next < self.items.len() {
            self.items.len() - self.next
        } else {
            0
        }
    }

    /// The bounds of the number of items left: exactly their number.
    pub fn size_hint(&self) -> (r: (usize, Option<usize>))
        ensures
            r.0 == self@.len(),
            r.1 == Some(self@.len() as usize),
    {
        let n = self.len();
        (n, Some(n))
    }
}

/// The tags of a directory, one after the other.
pub struct Tags {
    inner: Iter,
}

impl View for Tags {
    type V = Seq<AnyTag>;

    /// The tags that are still to come.
    closed spec fn view(&self) -> Seq<AnyTag> {
        self.inner@.map_values(|p: (AnyTag, Entry)| p.0)
    }
}

impl Tags {
    /// The next tag, if any is left.
    pub fn next(&mut self) -> (r: Option<AnyTag>)
        ensures
            old(self)@.len() > 0 ==> r == Some(old(self)@[0]) && final(self)@ == old(self)@.drop_first(),
            old(self)@.len() == 0 ==> r is None && final(self)@ == old(self)@,
    {
        let r = match self.inner.next() {
            Some(p) => Some(p.0),
            None => None,
        };
        assert(self@ =~= old(self)@.skip(if old(self)@.len() > 0 { 1 } else { 0 }));
        r
    }

    /// The number of tags left.
    pub fn len(&self) -> (r: usize)
        ensures
            r == self@.len(),
    {
        self.inner.len()
    }

    /// The bounds of the number of items left: exactly their number.
    pub fn size_hint(&self) -> (r: (usize, Option<usize>))
        ensures
            r.0 == self@.len(),
            r.1 == Some(self@.len() as usize),
    {
        let n = self.len();
        (n, Some(n))
    }
}

/// The entries of a directory, one after the other.
pub struct Entries {
    inner: Iter,
}

impl View for Entries {
    type V = Seq<Entry>;

    /// The entries that are still to come.
    closed spec fn view(&self) -> Seq<Entry> {
        self.inner@.map_values(|p: (AnyTag, Entry)| p.1)
    }
}

impl Entries {
    /// The next entry, if any is left.
    pub fn next(&mut self) -> (r: Option<Entry>)
        ensures
            old(self)@.len() > 0 ==> r == Some(old(self)@[0]) && final(self)@ == old(self)@.drop_first(),
            old(self)@.len() == 0 ==> r is None && final(self)@ == old(self)@,
    {
        let r = match self.inner.next() {
            Some(p) => Some(p.1),
            None => None,
        };
        assert(self@ =~= old(self)@.skip(if old(self)@.len() > 0 { 1 } else { 0 }));
        r
    }

    /// The number of entries left.
    pub fn len(&self) -> (r: usize)
        ensures
            r == self@.len(),
    {
        self.inner.len()
    }

    /// The bounds of the number of items left: exactly their number.
    pub fn size_hint(&self) -> (r: (usize, Option<usize>))
        ensures
            r.0 == self@.len(),
            r.1 == Some(self@.len() as usize),
    {
        let n = self.len();
        (n, Some(n))
    }
}

/// After an entry is put under a tag, the directory holds that entry under that tag, and
/// every other tag keeps what it held.
pub proof fn lemma_get_after_insert(ifd: Map<AnyTag, EntryModel>, tag: AnyTag, entry: EntryModel, other: AnyTag)
    ensures
        ifd.insert(tag, entry).contains_key(tag),
        ifd.insert(tag, entry)[tag] == entry,
        other != tag ==> (ifd.insert(tag, entry).contains_key(other) == ifd.contains_key(other)),
        other != tag && ifd.contains_key(other) ==> ifd.insert(tag, entry)[other] == ifd[other],
{
}

} // verus!

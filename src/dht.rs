use vstd::prelude::*;

use crate::entries::{same_entry, same_text, Entry, EntryView};
use crate::validation::{
    entry_verdict, link_verdict, source_ids, validate_entry, validate_link, LinkType, Operation,
    Rejection,
};

verus! {

/// The address of an entry, derived from its content alone: identical content
/// always yields the identical address. `tombstone` marks the address of the
/// deletion record of `entry` rather than of the entry itself.
#[derive(Debug)]
pub struct Address {
    pub tombstone: bool,
    pub entry: Entry,
}

pub struct AddressView {
    pub tombstone: bool,
    pub entry: EntryView,
}

impl View for Address {
    type V = AddressView;

    open spec fn view(&self) -> AddressView {
        AddressView { tombstone: self.tombstone, entry: self.entry@ }
    }
}

impl Clone for Address {
    fn clone(&self) -> (r: Self)
        ensures
            r@ == self@,
    {
        Address { tombstone: self.tombstone, entry: self.entry.clone() }
    }
}

/// The views of a sequence of addresses.
pub open spec fn addresses_view(s: Seq<Address>) -> Seq<AddressView> {
    s.map_values(|x: Address| x@)
}

/// The content address of an entry.
pub open spec fn address_of(e: EntryView) -> AddressView {
    AddressView { tombstone: false, entry: e }
}

/// The address of the deletion record of an entry.
pub open spec fn tombstone_of(e: EntryView) -> AddressView {
    AddressView { tombstone: true, entry: e }
}

/// Computes the content address of an entry; it needs no store and no prior write.
pub fn entry_address(e: &Entry) -> (a: Address)
    ensures
        a@ == address_of(e@),
{
    Address { tombstone: false, entry: e.clone() }
}

/// Whether two addresses are the same.
pub fn same_address(a: &Address, b: &Address) -> (r: bool)
    ensures
        r == (a@ == b@),
{
    a.tombstone == b.tombstone && same_entry(&a.entry, &b.entry)
}

/// A typed, directed edge between two committed entries.
pub struct Link {
    pub base: Address,
    pub target: Address,
    pub link_type: LinkType,
    pub tag: String,
}

pub struct LinkView {
    pub base: AddressView,
    pub target: AddressView,
    pub link_type: LinkType,
    pub tag: Seq<char>,
}

impl View for Link {
    type V = LinkView;

    open spec fn view(&self) -> LinkView {
        LinkView {
            base: self.base@,
            target: self.target@,
            link_type: self.link_type,
            tag: self.tag@,
        }
    }
}

/// Errors of the store's operations.
#[derive(Clone, Copy, Debug, PartialEq, Eq, Structural)]
pub enum ZomeError {
    /// A validation rule refused the write.
    Validation(Rejection),
    /// The address does not resolve to a live entry of the kind asked for.
    NotFound,
}

/// A replica of the content-addressed store: committed entries, the entries that
/// were deleted, and the links between entries.
pub struct Dht {
    entries: Vec<Entry>,
    deleted: Vec<Entry>,
    links: Vec<Link>,
}

pub struct DhtView {
    pub entries: Seq<EntryView>,
    pub deleted: Seq<EntryView>,
    pub links: Seq<LinkView>,
}

impl View for Dht {
    type V = DhtView;

    closed spec fn view(&self) -> DhtView {
        DhtView {
            entries: self.entries@.map_values(|e: Entry| e@),
            deleted: self.deleted@.map_values(|e: Entry| e@),
            links: self.links@.map_values(|l: Link| l@),
        }
    }
}

impl DhtView {
    /// No entry, deletion or link is held twice.
    pub open spec fn wf(self) -> bool {
        &&& self.entries.no_duplicates()
        &&& self.deleted.no_duplicates()
        &&& self.links.no_duplicates()
    }

    pub open spec fn committed(self, e: EntryView) -> bool {
        self.entries.contains(e)
    }

    /// Committed and not deleted.
    pub open spec fn live(self, e: EntryView) -> bool {
        self.entries.contains(e) && !self.deleted.contains(e)
    }

    /// What reading an address gives.
    pub open spec fn resolve(self, a: AddressView) -> Option<EntryView> {
        if !a.tombstone && self.live(a.entry) {
            Some(a.entry)
        } else {
            None
        }
    }

    /// Whether a link of type `t` leads from `base` to `target`.
    pub open spec fn has_link(self, base: AddressView, target: AddressView, t: LinkType) -> bool {
        exists|i: int|
            0 <= i < self.links.len() && (#[trigger] self.links[i]).base == base
                && self.links[i].target == target && self.links[i].link_type == t
    }

    /// The store once `e` is committed: content addressing makes a second commit of
    /// the same content a no-op.
    pub open spec fn with_entry(self, e: EntryView) -> DhtView {
        if self.entries.contains(e) {
            self
        } else {
            DhtView { entries: self.entries.push(e), ..self }
        }
    }

    /// The store once `e` is deleted.
    pub open spec fn without_entry(self, e: EntryView) -> DhtView {
        if self.deleted.contains(e) {
            self
        } else {
            DhtView { deleted: self.deleted.push(e), ..self }
        }
    }

    /// The store once the link `l` is added.
    pub open spec fn with_link(self, l: LinkView) -> DhtView {
        if self.links.contains(l) {
            self
        } else {
            DhtView { links: self.links.push(l), ..self }
        }
    }
}

/// Committing an entry keeps what was committed and adds `e`.
pub proof fn lemma_with_entry_commits(v: DhtView, e: EntryView, x: EntryView)
    ensures
        v.with_entry(e).committed(e),
        v.committed(x) ==> v.with_entry(e).committed(x),
        v.with_entry(e).deleted == v.deleted,
        v.with_entry(e).links == v.links,
{
    if !v.entries.contains(e) {
        assert(v.with_entry(e).entries[v.entries.len() as int] == e);
        if v.committed(x) {
            let k = choose|k: int| 0 <= k < v.entries.len() && v.entries[k] == x;
            assert(v.with_entry(e).entries[k] == x);
        }
    }
}

/// Committing an entry keeps every entry held once.
pub proof fn lemma_with_entry_wf(v: DhtView, e: EntryView)
    requires
        v.wf(),
    ensures
        v.with_entry(e).wf(),
{
    if !v.entries.contains(e) {
        let w = v.with_entry(e).entries;
        assert forall|i: int, j: int| 0 <= i < w.len() && 0 <= j < w.len() && i != j implies w[i]
            != w[j] by {
            if i == v.entries.len() {
                assert(v.entries[j] == w[j]);
            } else if j == v.entries.len() {
                assert(v.entries[i] == w[i]);
            }
        }
    }
}

/// Deleting an entry records its deletion and changes nothing else.
pub proof fn lemma_without_entry_deletes(v: DhtView, e: EntryView)
    ensures
        v.without_entry(e).deleted.contains(e),
        v.without_entry(e).entries == v.entries,
        v.without_entry(e).links == v.links,
{
    if !v.deleted.contains(e) {
        assert(v.without_entry(e).deleted[v.deleted.len() as int] == e);
    }
}

/// Adding a link keeps every link and adds `l`, and leaves the entries alone.
pub proof fn lemma_with_link_links(
    v: DhtView,
    l: LinkView,
    base: AddressView,
    target: AddressView,
    t: LinkType,
)
    ensures
        v.with_link(l).has_link(l.base, l.target, l.link_type),
        v.has_link(base, target, t) ==> v.with_link(l).has_link(base, target, t),
        v.with_link(l).entries == v.entries,
        v.with_link(l).deleted == v.deleted,
{
    let w = v.with_link(l).links;
    if v.links.contains(l) {
        let k = choose|k: int| 0 <= k < v.links.len() && v.links[k] == l;
        assert(w[k] == l);
    } else {
        assert(w[v.links.len() as int] == l);
    }
    if v.has_link(base, target, t) {
        let k = choose|k: int|
            0 <= k < v.links.len() && (#[trigger] v.links[k]).base == base && v.links[k].target
                == target && v.links[k].link_type == t;
        assert(w[k] == v.links[k]);
    }
}

impl Dht {
    /// An empty store.
    pub fn new() -> (d: Dht)
        ensures
            d@.entries == Seq::<EntryView>::empty(),
            d@.deleted == Seq::<EntryView>::empty(),
            d@.links == Seq::<LinkView>::empty(),
            d@.wf(),
    {
        let d = Dht { entries: Vec::new(), deleted: Vec::new(), links: Vec::new() };
        assert(d@.entries =~= Seq::<EntryView>::empty());
        assert(d@.deleted =~= Seq::<EntryView>::empty());
        assert(d@.links =~= Seq::<LinkView>::empty());
        d
    }

    /// How many entries have been committed, deleted ones included.
    pub fn entry_count(&self) -> (n: usize)
        ensures
            n == self@.entries.len(),
    {
        self.entries.len()
    }

    /// How many links the store holds.
    pub fn link_count(&self) -> (n: usize)
        ensures
            n == self@.links.len(),
    {
        self.links.len()
    }

    fn find_entry(v: &Vec<Entry>, e: &Entry) -> (r: bool)
        ensures
            r == v@.map_values(|x: Entry| x@).contains(e@),
    {
        let ghost s = v@.map_values(|x: Entry| x@);
        let mut i: usize = 0;
        while i < v.len()
            invariant
                i <= v@.len(),
                s == v@.map_values(|x: Entry| x@),
                forall|j: int| 0 <= j < i ==> s[j] != e@,
            decreases v@.len() - i,
        {
            if same_entry(&v[i], e) {
                assert(s[i as int] == e@);
                return true;
            }
            i = i + 1;
        }
        false
    }

    /// Whether `e` has been committed.
    pub fn is_committed(&self, e: &Entry) -> (r: bool)
        ensures
            r == self@.committed(e@),
    {
        Dht::find_entry(&self.entries, e)
    }

    /// Whether `e` is committed and not deleted.
    pub fn is_live(&self, e: &Entry) -> (r: bool)
        ensures
            r == self@.live(e@),
    {
        Dht::find_entry(&self.entries, e) && !Dht::find_entry(&self.deleted, e)
    }

    /// Validates `entry` as a creation signed by `sources` and, if it passes, commits
    /// it at its content address.
    pub fn commit_entry(&mut self, entry: &Entry, sources: &Vec<String>) -> (r: Result<
        Address,
        ZomeError,
    >)
        requires
            old(self)@.wf(),
        ensures
            final(self)@.wf(),
            match entry_verdict(Operation::Create, entry@, source_ids(sources@)) {
                Ok(_) => r matches Ok(a) && a@ == address_of(entry@) && final(self)@
                    == old(self)@.with_entry(entry@),
                Err(why) => r == Err::<Address, ZomeError>(ZomeError::Validation(why))
                    && final(self)@ == old(self)@,
            },
    {
        match validate_entry(Operation::Create, entry, sources) {
            Err(why) => Err(ZomeError::Validation(why)),
            Ok(()) => {
                if !Dht::find_entry(&self.entries, entry) {
                    self.entries.push(entry.clone());
                    assert(self@.entries =~= old(self)@.entries.push(entry@));
                }
                Ok(entry_address(entry))
            },
        }
    }

    /// Reads the entry at `a`: `None` when it was never committed, has been
    /// deleted, or `a` is the address of a deletion record.
    pub fn get_entry(&self, a: &Address) -> (r: Option<Entry>)
        ensures
            r matches Some(e) ==> self@.resolve(a@) == Some(e@),
            r is None ==> self@.resolve(a@) is None,
    {
        if !a.tombstone && self.is_live(&a.entry) {
            Some(a.entry.clone())
        } else {
            None
        }
    }

    /// Marks the entry at `a` deleted, as signed by `sources`, and returns the address
    /// of the deletion record.
    pub fn remove_entry(&mut self, a: &Address, sources: &Vec<String>) -> (r: Result<
        Address,
        ZomeError,
    >)
        requires
            old(self)@.wf(),
        ensures
            final(self)@.wf(),
            old(self)@.resolve(a@) is None ==> r == Err::<Address, ZomeError>(ZomeError::NotFound)
                && final(self)@ == old(self)@,
            old(self)@.resolve(a@) is Some ==> match entry_verdict(
                Operation::Delete,
                a@.entry,
                source_ids(sources@),
            ) {
                Ok(_) => r matches Ok(t) && t@ == tombstone_of(a@.entry) && final(self)@
                    == old(self)@.without_entry(a@.entry),
                Err(why) => r == Err::<Address, ZomeError>(ZomeError::Validation(why))
                    && final(self)@ == old(self)@,
            },
    {
        if a.tombstone || !self.is_live(&a.entry) {
            return Err(ZomeError::NotFound);
        }
        match validate_entry(Operation::Delete, &a.entry, sources) {
            Err(why) => Err(ZomeError::Validation(why)),
            Ok(()) => {
                self.deleted.push(a.entry.clone());
                assert(self@.deleted =~= old(self)@.deleted.push(a@.entry));
                Ok(Address { tombstone: true, entry: a.entry.clone() })
            },
        }
    }

    fn find_link(&self, l: &Link) -> (r: bool)
        ensures
            r == self@.links.contains(l@),
    {
        let ghost s = self@.links;
        let mut i: usize = 0;
        while i < self.links.len()
            invariant
                i <= self.links@.len(),
                s == self@.links,
                s == self.links@.map_values(|x: Link| x@),
                forall|j: int| 0 <= j < i ==> s[j] != l@,
            decreases self.links@.len() - i,
        {
            let x = &self.links[i];
            if same_address(&x.base, &l.base) && same_address(&x.target, &l.target) && x.link_type
                == l.link_type && same_text(&x.tag, &l.tag) {
                assert(s[i as int] == l@);
                return true;
            }
            i = i + 1;
        }
        false
    }

    /// Adds a link of type `t` from `base` to `target`. Both must be addresses of
    /// committed entries, and the schema must declare the link between their kinds.
    pub fn link_entries(&mut self, base: &Address, target: &Address, t: LinkType, tag: &String) -> (r:
        Result<(), ZomeError>)
        requires
            old(self)@.wf(),
        ensures
            final(self)@.wf(),
            !(!base@.tombstone && old(self)@.committed(base@.entry) && !target@.tombstone && old(
                self,
            )@.committed(target@.entry)) ==> r == Err::<(), ZomeError>(ZomeError::NotFound)
                && final(self)@ == old(self)@,
            (!base@.tombstone && old(self)@.committed(base@.entry) && !target@.tombstone && old(
                self,
            )@.committed(target@.entry)) ==> match link_verdict(
                t,
                base@.entry.kind(),
                target@.entry.kind(),
            ) {
                Ok(_) => r is Ok && final(self)@ == old(self)@.with_link(
                    LinkView { base: base@, target: target@, link_type: t, tag: tag@ },
                ),
                Err(why) => r == Err::<(), ZomeError>(ZomeError::Validation(why)) && final(self)@
                    == old(self)@,
            },
    {
        if base.tombstone || target.tombstone || !self.is_committed(&base.entry)
            || !self.is_committed(&target.entry) {
            return Err(ZomeError::NotFound);
        }
        match validate_link(t, base.entry.kind(), target.entry.kind()) {
            Err(why) => Err(ZomeError::Validation(why)),
            Ok(()) => {
                let l = Link { base: base.clone(), target: target.clone(), link_type: t, tag: tag.clone() };
                if !self.find_link(&l) {
                    self.links.push(l);
                    assert(self@.links =~= old(self)@.links.push(l@));
                }
                Ok(())
            },
        }
    }

    /// The targets of the links of type `t` from `base`, in no promised order.
    pub fn get_links(&self, base: &Address, t: LinkType) -> (r: Vec<Address>)
        ensures
            forall|a: AddressView|
                addresses_view(r@).contains(a) <==> self@.has_link(base@, a, t),
    {
        let ghost s = self@.links;
        let mut r: Vec<Address> = Vec::new();
        let mut i: usize = 0;
        while i < self.links.len()
            invariant
                i <= self.links@.len(),
                s == self@.links,
                s == self.links@.map_values(|x: Link| x@),
                forall|a: AddressView|
                    #[trigger] addresses_view(r@).contains(a) <==> exists|j: int|
                        0 <= j < i && (#[trigger] s[j]).base == base@ && s[j].target == a
                            && s[j].link_type == t,
            decreases self.links@.len() - i,
        {
            let x = &self.links[i];
            if same_address(&x.base, base) && x.link_type == t {
                let ghost r0 = addresses_view(r@);
                r.push(x.target.clone());
                proof {
                    let r1 = addresses_view(r@);
                    assert(r1 =~= r0.push(s[i as int].target));
                    assert forall|a: AddressView| #[trigger] r1.contains(a) <==> exists|j: int|
                        0 <= j < i + 1 && (#[trigger] s[j]).base == base@ && s[j].target == a
                            && s[j].link_type == t by {
                        assert(s[i as int] == x@);
                        assert(r1[r0.len() as int] == s[i as int].target);
                        if r1.contains(a) {
                            if a == s[i as int].target {
                                assert(s[i as int].base == base@ && s[i as int].target == a
                                    && s[i as int].link_type == t);
                            } else {
                                let k = choose|k: int| 0 <= k < r1.len() && r1[k] == a;
                                assert(r0[k] == a);
                                assert(r0.contains(a));
                            }
                        }
                        if exists|j: int|
                            0 <= j < i + 1 && (#[trigger] s[j]).base == base@ && s[j].target == a
                                && s[j].link_type == t {
                            let j = choose|j: int|
                                0 <= j < i + 1 && (#[trigger] s[j]).base == base@ && s[j].target
                                    == a && s[j].link_type == t;
                            if j == i {
                                assert(r1[r0.len() as int] == a);
                            } else {
                                assert(r0.contains(a));
                                let k = choose|k: int| 0 <= k < r0.len() && r0[k] == a;
                                assert(r1[k] == a);
                            }
                        }
                    }
                }
            } else {
                proof {
                    let r0 = addresses_view(r@);
                    assert forall|a: AddressView| #[trigger] r0.contains(a) <==> exists|j: int|
                        0 <= j < i + 1 && (#[trigger] s[j]).base == base@ && s[j].target == a
                            && s[j].link_type == t by {
                        if exists|j: int|
                            0 <= j < i + 1 && (#[trigger] s[j]).base == base@ && s[j].target == a
                                && s[j].link_type == t {
                            let j = choose|j: int|
                                0 <= j < i + 1 && (#[trigger] s[j]).base == base@ && s[j].target
                                    == a && s[j].link_type == t;
                            assert(j != i);
                        }
                    }
                }
            }
            i = i + 1;
        }
        r
    }
}

} // verus!

//! The document root: its pages, its string metadata, and the lookup and
//! update of a block by its id.
use crate::schema::{duplicate_pages, Block, BlockV, DocumentV, Page, PageV};
use crate::text::{from_str, str_eq};
use vstd::prelude::*;

verus! {

/// The map that a list of entries describes: a later entry for a key
/// overrides an earlier one.
pub open spec fn map_of(es: Seq<(Seq<char>, Seq<char>)>) -> Map<Seq<char>, Seq<char>>
    decreases es.len(),
{
    if es.len() == 0 {
        Map::empty()
    } else {
        map_of(es.drop_last()).insert(es.last().0, es.last().1)
    }
}

/// `i` is the last entry whose key is `k`.
pub open spec fn last_with_key(es: Seq<(Seq<char>, Seq<char>)>, k: Seq<char>, i: int) -> bool {
    &&& 0 <= i < es.len()
    &&& es[i].0 == k
    &&& forall|j: int| i < j < es.len() ==> es[j].0 != k
}

proof fn lemma_map_of_absent(es: Seq<(Seq<char>, Seq<char>)>, k: Seq<char>)
    requires
        forall|j: int| 0 <= j < es.len() ==> es[j].0 != k,
    ensures
        !map_of(es).dom().contains(k),
    decreases es.len(),
{
    if es.len() > 0 {
        lemma_map_of_absent(es.drop_last(), k);
    }
}

proof fn lemma_map_of_last(es: Seq<(Seq<char>, Seq<char>)>, k: Seq<char>, i: int)
    requires
        last_with_key(es, k, i),
    ensures
        map_of(es).dom().contains(k),
        map_of(es)[k] == es[i].1,
    decreases es.len(),
{
    if i < es.len() - 1 {
        lemma_map_of_last(es.drop_last(), k, i);
    }
}

proof fn lemma_map_of_update(es: Seq<(Seq<char>, Seq<char>)>, k: Seq<char>, v: Seq<char>, i: int)
    requires
        last_with_key(es, k, i),
    ensures
        map_of(es.update(i, (k, v))) =~= map_of(es).insert(k, v),
    decreases es.len(),
{
    let es2 = es.update(i, (k, v));
    if i == es.len() - 1 {
        assert(es2.drop_last() =~= es.drop_last());
    } else {
        assert(es2.drop_last() =~= es.drop_last().update(i, (k, v)));
        lemma_map_of_update(es.drop_last(), k, v, i);
    }
}

/// String metadata of a document: a map from keys to values.
#[derive(Clone, Debug)]
pub struct Metadata {
    entries: Vec<(String, String)>,
}

impl View for Metadata {
    type V = Map<Seq<char>, Seq<char>>;

    closed spec fn view(&self) -> Map<Seq<char>, Seq<char>> {
        map_of(self.entry_views())
    }
}

impl Metadata {
    pub closed spec fn entry_views(&self) -> Seq<(Seq<char>, Seq<char>)> {
        self.entries@.map_values(|e: (String, String)| (e.0@, e.1@))
    }

    pub fn new() -> (m: Metadata)
        ensures
            m@ == Map::<Seq<char>, Seq<char>>::empty(),
    {
        Metadata { entries: Vec::new() }
    }

    /// Index of the last entry whose key is `key`, if any.
    fn find(&self, key: &str) -> (r: Option<usize>)
        ensures
            match r {
                Some(i) => last_with_key(self.entry_views(), key@, i as int),
                None => forall|j: int|
                    0 <= j < self.entry_views().len() ==> self.entry_views()[j].0 != key@,
            },
    {
        let mut i = self.entries.len();
        while i > 0
            invariant
                i <= self.entries@.len(),
                forall|j: int| i <= j < self.entry_views().len() ==> self.entry_views()[j].0 != key@,
            decreases i,
        {
            if str_eq(self.entries[i - 1].0.as_str(), key) {
                return Some(i - 1);
            }
            i = i - 1;
        }
        None
    }

    /// Sets the value of `key`, replacing any value it had.
    pub fn insert(&mut self, key: String, value: String)
        ensures
            final(self)@ == old(self)@.insert(key@, value@),
    {
        match self.find(key.as_str()) {
            Some(i) => {
                proof {
                    lemma_map_of_update(self.entry_views(), key@, value@, i as int);
                }
                let ghost kv = key@;
                let ghost vv = value@;
                self.entries.set(i, (key, value));
                assert(self.entry_views() =~= old(self).entry_views().update(i as int, (kv, vv)));
            },
            None => {
                let ghost kv = key@;
                let ghost vv = value@;
                self.entries.push((key, value));
                assert(self.entry_views().drop_last() =~= old(self).entry_views());
            },
        }
    }

    pub fn get(&self, key: &str) -> (r: Option<&String>)
        ensures
            match r {
                Some(v) => self@.dom().contains(key@) && self@[key@] == v@,
                None => !self@.dom().contains(key@),
            },
    {
        match self.find(key) {
            Some(i) => {
                proof {
                    lemma_map_of_last(self.entry_views(), key@, i as int);
                }
                Some(&self.entries[i].1)
            },
            None => {
                proof {
                    lemma_map_of_absent(self.entry_views(), key@);
                }
                None
            },
        }
    }

    pub fn duplicate(&self) -> (m: Metadata)
        ensures
            m@ == self@,
    {
        let v = self.to_vec();
        Metadata { entries: v }
    }

    pub fn contains_key(&self, key: &str) -> (b: bool)
        ensures
            b == self@.dom().contains(key@),
    {
        self.get(key).is_some()
    }

    /// The entries, one per key, in the order in which the keys were first set.
    pub fn to_vec(&self) -> (v: Vec<(String, String)>)
        ensures
            map_of(v@.map_values(|e: (String, String)| (e.0@, e.1@))) == self@,
    {
        let mut v: Vec<(String, String)> = Vec::new();
        let mut i: usize = 0;
        while i < self.entries.len()
            invariant
                i <= self.entries@.len(),
                v@.map_values(|e: (String, String)| (e.0@, e.1@)) =~= self.entry_views().take(
                    i as int,
                ),
            decreases self.entries@.len() - i,
        {
            let k = from_str(self.entries[i].0.as_str());
            let val = from_str(self.entries[i].1.as_str());
            v.push((k, val));
            assert(self.entry_views().take(i + 1) =~= self.entry_views().take(i as int).push(
                self.entry_views()[i as int],
            ));
            i = i + 1;
        }
        assert(self.entry_views().take(self.entries@.len() as int) =~= self.entry_views());
        v
    }
}

#[derive(Clone, Debug)]
pub struct Document {
    pub file_name: String,
    pub pages: Vec<Page>,
    pub metadata: Metadata,
}

impl View for Document {
    type V = DocumentV;

    open spec fn view(&self) -> DocumentV {
        DocumentV {
            file_name: self.file_name@,
            pages: self.pages@.map_values(|p: Page| p@),
            metadata: self.metadata@,
        }
    }
}

/// Block `i` of page `p` has the id `id`.
pub open spec fn block_at_has_id(d: DocumentV, p: int, i: int, id: Seq<char>) -> bool {
    &&& 0 <= p < d.pages.len()
    &&& 0 <= i < d.pages[p].blocks.len()
    &&& d.pages[p].blocks[i].id == id
}

/// Page `p` has no block with the id `id`.
pub open spec fn page_lacks_id(pg: PageV, id: Seq<char>) -> bool {
    forall|i: int| 0 <= i < pg.blocks.len() ==> pg.blocks[i].id != id
}

/// Block `i` of page `p` is the first block with the id `id`, in page order
/// and then in block order.
pub open spec fn first_with_id(d: DocumentV, p: int, i: int, id: Seq<char>) -> bool {
    &&& block_at_has_id(d, p, i, id)
    &&& forall|q: int| 0 <= q < p ==> page_lacks_id(#[trigger] d.pages[q], id)
    &&& forall|j: int| 0 <= j < i ==> d.pages[p].blocks[j].id != id
}

/// No block of the document has the id `id`.
pub open spec fn lacks_id(d: DocumentV, id: Seq<char>) -> bool {
    forall|q: int| 0 <= q < d.pages.len() ==> page_lacks_id(#[trigger] d.pages[q], id)
}

/// The document with the text of block `i` of page `p` set to `t`.
pub open spec fn with_block_text(d: DocumentV, p: int, i: int, t: Seq<char>) -> DocumentV {
    let pg = d.pages[p];
    let b = pg.blocks[i];
    DocumentV {
        pages: d.pages.update(
            p,
            PageV { blocks: pg.blocks.update(i, BlockV { text: t, ..b }), ..pg },
        ),
        ..d
    }
}

impl Document {
    pub fn new(file_name: String, pages: Vec<Page>) -> (d: Document)
        ensures
            d@ == (DocumentV {
                file_name: file_name@,
                pages: pages@.map_values(|p: Page| p@),
                metadata: Map::empty(),
            }),
    {
        Document { file_name, pages, metadata: Metadata::new() }
    }

    /// A copy of the document.
    pub fn duplicate(&self) -> (d: Document)
        ensures
            d@ == self@,
    {
        Document {
            file_name: from_str(self.file_name.as_str()),
            pages: duplicate_pages(&self.pages),
            metadata: self.metadata.duplicate(),
        }
    }

    /// Where the first block with the given id stands: its page and its index.
    pub fn locate_block(&self, block_id: &str) -> (r: Option<(usize, usize)>)
        ensures
            match r {
                Some((p, i)) => first_with_id(self@, p as int, i as int, block_id@),
                None => lacks_id(self@, block_id@),
            },
    {
        let mut p: usize = 0;
        while p < self.pages.len()
            invariant
                p <= self.pages@.len(),
                forall|q: int| 0 <= q < p ==> page_lacks_id(#[trigger] self@.pages[q], block_id@),
            decreases self.pages@.len() - p,
        {
            let page = &self.pages[p];
            let mut i: usize = 0;
            while i < page.blocks.len()
                invariant
                    p < self.pages@.len(),
                    *page == self.pages@[p as int],
                    i <= page.blocks@.len(),
                    forall|q: int| 0 <= q < p ==> page_lacks_id(#[trigger] self@.pages[q], block_id@),
                    forall|j: int| 0 <= j < i ==> self@.pages[p as int].blocks[j].id != block_id@,
                decreases page.blocks@.len() - i,
            {
                if str_eq(page.blocks[i].id.as_str(), block_id) {
                    return Some((p, i));
                }
                i = i + 1;
            }
            assert(page_lacks_id(self@.pages[p as int], block_id@));
            p = p + 1;
        }
        None
    }

    /// The first block with the given id, with the blocks before and after it
    /// on its page.
    pub fn find_block_with_context(&self, block_id: &str) -> (r: Option<
        (Option<&Block>, &Block, Option<&Block>),
    >)
        ensures
            match r {
                Some((prev, b, next)) => exists|p: int, i: int|
                    {
                        &&& first_with_id(self@, p, i, block_id@)
                        &&& b@ == self@.pages[p].blocks[i]
                        &&& match prev {
                            Some(x) => i > 0 && x@ == self@.pages[p].blocks[i - 1],
                            None => i == 0,
                        }
                        &&& match next {
                            Some(x) => i + 1 < self@.pages[p].blocks.len() && x@
                                == self@.pages[p].blocks[i + 1],
                            None => i + 1 >= self@.pages[p].blocks.len(),
                        }
                    },
                None => lacks_id(self@, block_id@),
            },
    {
        match self.locate_block(block_id) {
            Some((p, i)) => {
                let blocks = &self.pages[p].blocks;
                assert(i < blocks.len());
                let prev = if i > 0 {
                    Some(&blocks[i - 1])
                } else {
                    None
                };
                let next = if i + 1 < blocks.len() {
                    Some(&blocks[i + 1])
                } else {
                    None
                };
                Some((prev, &blocks[i], next))
            },
            None => None,
        }
    }

    /// Sets the text of the first block with the given id; false when no
    /// block has that id.
    pub fn update_block_text(&mut self, block_id: &str, new_text: &str) -> (found: bool)
        ensures
            found == !lacks_id(old(self)@, block_id@),
            found ==> exists|p: int, i: int|
                first_with_id(old(self)@, p, i, block_id@) && final(self)@ == with_block_text(
                    old(self)@,
                    p,
                    i,
                    new_text@,
                ),
            !found ==> final(self)@ == old(self)@,
    {
        match self.locate_block(block_id) {
            Some((p, i)) => {
                let t = from_str(new_text);
                let ghost d0 = self@;
                self.pages[p].blocks[i].text = t;
                assert(self@.pages =~= with_block_text(d0, p as int, i as int, new_text@).pages) by {
                    assert(self@.pages[p as int].blocks =~= with_block_text(
                        d0,
                        p as int,
                        i as int,
                        new_text@,
                    ).pages[p as int].blocks);
                }
                true
            },
            None => false,
        }
    }
}

} // verus!

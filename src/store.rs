use vstd::prelude::*;

verus! {

/// What a comment is, mathematically: who wrote it and what they wrote.
pub struct CommentView {
    pub user: Seq<char>,
    pub body: Seq<char>,
}

/// One comment on a page. It has no identity beyond its place in the page's sequence.
#[derive(Debug, Clone, PartialEq, Eq)]
pub struct Comment {
    pub user: String,
    pub body: String,
}

impl View for Comment {
    type V = CommentView;

    open spec fn view(&self) -> CommentView {
        CommentView { user: self.user@, body: self.body@ }
    }
}

/// The fields of a submitted comment form, borrowed from the request.
#[derive(Debug, Clone, PartialEq, Eq)]
pub struct CommentForm<'req> {
    pub user: &'req str,
    pub body: &'req str,
}

/// The views of a sequence of comments, in the same order.
pub open spec fn comments_view(s: Seq<Comment>) -> Seq<CommentView> {
    s.map_values(|c: Comment| c@)
}

/// The model of a store: each created page identifier mapped to its comments.
pub type StoreModel = Map<Seq<char>, Seq<CommentView>>;

/// What a lookup of `p` gives on a store: `None` for a page never created.
pub open spec fn lookup(m: StoreModel, p: Seq<char>) -> Option<Seq<CommentView>> {
    if m.contains_key(p) {
        Some(m[p])
    } else {
        None
    }
}

/// The comments of `p`, or none at all where the page does not exist.
pub open spec fn comments_or_empty(m: StoreModel, p: Seq<char>) -> Seq<CommentView> {
    if m.contains_key(p) {
        m[p]
    } else {
        Seq::empty()
    }
}

/// The store after making sure that page `p` exists.
pub open spec fn ensured(m: StoreModel, p: Seq<char>) -> StoreModel {
    m.insert(p, comments_or_empty(m, p))
}

/// The store after appending comment `c` to page `p`, creating the page if needed.
pub open spec fn appended(m: StoreModel, p: Seq<char>, c: CommentView) -> StoreModel {
    m.insert(p, comments_or_empty(m, p).push(c))
}

/// The store after appending each comment of `cs` to page `p`, in order.
pub open spec fn appended_all(m: StoreModel, p: Seq<char>, cs: Seq<CommentView>) -> StoreModel
    decreases cs.len(),
{
    if cs.len() == 0 {
        m
    } else {
        appended(appended_all(m, p, cs.drop_last()), p, cs.last())
    }
}

/// A page that was never created is not found, and creating or extending another page
/// does not create it.
pub proof fn lemma_uncreated_not_found(m: StoreModel, p: Seq<char>, q: Seq<char>, c: CommentView)
    requires
        !m.contains_key(p),
        q != p,
    ensures
        lookup(m, p) is None,
        lookup(StoreModel::empty(), p) is None,
        lookup(ensured(m, q), p) is None,
        lookup(appended(m, q, c), p) is None,
{
}

/// Making sure that a new page exists, then looking it up, finds it with no comments.
pub proof fn lemma_ensure_then_lookup(m: StoreModel, p: Seq<char>)
    requires
        !m.contains_key(p),
    ensures
        lookup(ensured(m, p), p) == Some(Seq::<CommentView>::empty()),
{
}

/// Making sure that a page exists never changes the comments it already has.
pub proof fn lemma_ensure_keeps_comments(m: StoreModel, p: Seq<char>)
    ensures
        lookup(ensured(m, p), p) == Some(comments_or_empty(m, p)),
        m.contains_key(p) ==> ensured(m, p) == m,
{
    if m.contains_key(p) {
        assert(ensured(m, p) =~= m);
    }
}

/// Appending one or more comments one by one to a new page gives back exactly those
/// comments, in the order of the calls, none merged; with no append the page stays absent.
pub proof fn lemma_appends_in_order(m: StoreModel, p: Seq<char>, cs: Seq<CommentView>)
    requires
        !m.contains_key(p),
    ensures
        cs.len() > 0 ==> lookup(appended_all(m, p, cs), p) == Some(cs),
        cs.len() == 0 ==> lookup(appended_all(m, p, cs), p) is None,
    decreases cs.len(),
{
    if cs.len() > 0 {
        lemma_appends_in_order(m, p, cs.drop_last());
        assert(comments_or_empty(appended_all(m, p, cs.drop_last()), p) =~= cs.drop_last());
        assert(cs.drop_last().push(cs.last()) =~= cs);
    }
}

/// Appending the same comment twice stores it twice.
pub proof fn lemma_append_twice(m: StoreModel, p: Seq<char>, c: CommentView)
    ensures
        lookup(appended(appended(m, p, c), p, c), p) == Some(comments_or_empty(m, p).push(c).push(c)),
        comments_or_empty(appended(appended(m, p, c), p, c), p).len() == comments_or_empty(m, p).len() + 2,
{
}

/// An in-memory mapping from page identifier to the ordered comments of that page.
///
/// Pages are kept in the order they were created, each identifier at most once.
#[derive(Debug, Clone)]
pub struct CommentStore {
    pages: Vec<(String, Vec<Comment>)>,
}

impl View for CommentStore {
    type V = StoreModel;

    closed spec fn view(&self) -> StoreModel {
        Map::new(
            |k: Seq<char>| exists|i: int| self.has_id_at(k, i),
            |k: Seq<char>| comments_view(self.pages@[self.index_of(k)].1@),
        )
    }
}

impl CommentStore {
    /// No identifier names two pages.
    pub closed spec fn wf(&self) -> bool {
        forall|i: int, j: int|
            0 <= i < self.pages@.len() && 0 <= j < self.pages@.len() && i != j
                ==> #[trigger] self.pages@[i].0@ != #[trigger] self.pages@[j].0@
    }

    spec fn has_id_at(&self, k: Seq<char>, i: int) -> bool {
        0 <= i < self.pages@.len() && self.pages@[i].0@ == k
    }

    spec fn index_of(&self, k: Seq<char>) -> int {
        choose|i: int| self.has_id_at(k, i)
    }

    proof fn lemma_view_at(&self, i: int)
        requires
            self.wf(),
            0 <= i < self.pages@.len(),
        ensures
            self@.contains_key(self.pages@[i].0@),
            self@[self.pages@[i].0@] == comments_view(self.pages@[i].1@),
    {
        let k = self.pages@[i].0@;
        assert(self.has_id_at(k, i));
        let j = self.index_of(k);
        assert(self.has_id_at(k, j));
        assert(i == j);
    }

    proof fn lemma_view_absent(&self, k: Seq<char>)
        requires
            forall|i: int| 0 <= i < self.pages@.len() ==> #[trigger] self.pages@[i].0@ != k,
        ensures
            !self@.contains_key(k),
    {
        if exists|i: int| self.has_id_at(k, i) {
            let i = choose|i: int| self.has_id_at(k, i);
            assert(self.pages@[i].0@ != k);
        }
    }

    proof fn lemma_same_ids(&self, n: &CommentStore)
        requires
            self.wf(),
            n.pages@.len() == self.pages@.len(),
            forall|j: int| 0 <= j < self.pages@.len() ==> #[trigger] n.pages@[j].0@ == self.pages@[j].0@,
        ensures
            n.wf(),
            n@.dom() == self@.dom(),
    {
        assert forall|i: int, j: int|
            0 <= i < n.pages@.len() && 0 <= j < n.pages@.len() && i != j
            implies #[trigger] n.pages@[i].0@ != #[trigger] n.pages@[j].0@ by {
            assert(self.pages@[i].0@ != self.pages@[j].0@);
        }
        assert forall|k: Seq<char>| n@.contains_key(k) implies self@.contains_key(k) by {
            let i = n.index_of(k);
            assert(n.has_id_at(k, i));
            assert(self.has_id_at(k, i));
        }
        assert forall|k: Seq<char>| self@.contains_key(k) implies n@.contains_key(k) by {
            let i = self.index_of(k);
            assert(self.has_id_at(k, i));
            assert(n.has_id_at(k, i));
        }
        assert(n@.dom() =~= self@.dom());
    }

    proof fn lemma_replace(&self, n: &CommentStore, i: int, v: Vec<Comment>)
        requires
            self.wf(),
            0 <= i < self.pages@.len(),
            n.pages@ == self.pages@.update(i, (self.pages@[i].0, v)),
        ensures
            n.wf(),
            n@ == self@.insert(self.pages@[i].0@, comments_view(v@)),
    {
        let k = self.pages@[i].0@;
        self.lemma_same_ids(n);
        n.lemma_view_at(i);
        assert forall|q: Seq<char>| #[trigger] self@.contains_key(q) && q != k
            implies n@[q] == self@[q] by {
            let j = self.index_of(q);
            assert(self.has_id_at(q, j));
            self.lemma_view_at(j);
            n.lemma_view_at(j);
        }
        assert(n@ =~= self@.insert(k, comments_view(v@)));
    }

    proof fn lemma_push(&self, n: &CommentStore, key: String, v: Vec<Comment>)
        requires
            self.wf(),
            !self@.contains_key(key@),
            n.pages@ == self.pages@.push((key, v)),
        ensures
            n.wf(),
            n@ == self@.insert(key@, comments_view(v@)),
    {
        let last = self.pages@.len() as int;
        assert forall|i: int| 0 <= i < last implies #[trigger] self.pages@[i].0@ != key@ by {
            self.lemma_view_at(i);
        }
        assert forall|i: int, j: int|
            0 <= i < n.pages@.len() && 0 <= j < n.pages@.len() && i != j
            implies #[trigger] n.pages@[i].0@ != #[trigger] n.pages@[j].0@ by {
            if i < last && j < last {
                assert(self.pages@[i].0@ != self.pages@[j].0@);
            }
        }
        n.lemma_view_at(last);
        assert forall|q: Seq<char>| #[trigger] n@.contains_key(q) && q != key@
            implies self@.contains_key(q) && n@[q] == self@[q] by {
            let j = n.index_of(q);
            assert(n.has_id_at(q, j));
            assert(self.has_id_at(q, j));
            self.lemma_view_at(j);
            n.lemma_view_at(j);
        }
        assert forall|q: Seq<char>| #[trigger] self@.contains_key(q)
            implies n@.contains_key(q) by {
            let j = self.index_of(q);
            assert(self.has_id_at(q, j));
            assert(n.has_id_at(q, j));
        }
        assert(n@ =~= self@.insert(key@, comments_view(v@)));
    }

    /// An empty store: no page exists.
    pub fn new() -> (r: CommentStore)
        ensures
            r.wf(),
            r@ == StoreModel::empty(),
    {
        let r = CommentStore { pages: Vec::new() };
        assert(r@ =~= StoreModel::empty());
        r
    }

    /// The position of page `k`, if it exists.
    fn find(&self, k: &String) -> (r: Option<usize>)
        requires
            self.wf(),
        ensures
            match r {
                Some(i) => i < self.pages@.len() && self.pages@[i as int].0@ == k@,
                None => !self@.contains_key(k@),
            },
    {
        let mut i: usize = 0;
        while i < self.pages.len()
            invariant
                i <= self.pages@.len(),
                forall|j: int| 0 <= j < i ==> #[trigger] self.pages@[j].0@ != k@,
            decreases self.pages@.len() - i,
        {
            if self.pages[i].0 == *k {
                return Some(i);
            }
            i = i + 1;
        }
        proof {
            self.lemma_view_absent(k@);
        }
        None
    }

    /// The comments of page `page_id`, or `None` if the page was never created.
    pub fn comments_for_page(&self, page_id: &str) -> (r: Option<&Vec<Comment>>)
        requires
            self.wf(),
        ensures
            r is Some <==> self@.contains_key(page_id@),
            r matches Some(v) ==> comments_view(v@) == self@[page_id@],
    {
        let key = page_id.to_owned();
        match self.find(&key) {
            None => None,
            Some(i) => {
                proof {
                    self.lemma_view_at(i as int);
                }
                Some(&self.pages[i].1)
            },
        }
    }

    /// The comments of the page at position `i`, with what changing them does to the model.
    fn comments_at(&mut self, i: usize) -> (r: &mut Vec<Comment>)
        requires
            old(self).wf(),
            i < old(self).pages@.len(),
        ensures
            *r == old(self).pages@[i as int].1,
            final(self).wf(),
            final(self)@ == old(self)@.insert(
                old(self).pages@[i as int].0@,
                comments_view(final(r)@),
            ),
    {
        proof {
            assert forall|n: CommentStore|
                n.pages@ == self.pages@.update(i as int, (self.pages@[i as int].0, n.pages@[i as int].1))
                implies n.wf() && #[trigger] n@ == self@.insert(self.pages@[i as int].0@, comments_view(n.pages@[i as int].1@)) by {
                self.lemma_replace(&n, i as int, n.pages@[i as int].1);
            }
        }
        self.slot(i)
    }

    /// The comments of the page at position `i`, as a place in the page list.
    fn slot(&mut self, i: usize) -> (r: &mut Vec<Comment>)
        requires
            i < old(self).pages@.len(),
        ensures
            *r == old(self).pages@[i as int].1,
            final(self).pages@ == old(self).pages@.update(i as int, (old(self).pages@[i as int].0, *final(r))),
    {
        let entry = &mut self.pages[i];
        &mut entry.1
    }

    /// The comments of page `page_id`, to read or extend; `None` if the page was never
    /// created. The lookup creates nothing.
    pub fn fetch_comments_for_page(&mut self, page_id: &str) -> (r: Option<&mut Vec<Comment>>)
        requires
            old(self).wf(),
        ensures
            r is Some <==> old(self)@.contains_key(page_id@),
            r is None ==> *final(self) == *old(self),
            r matches Some(v) ==> comments_view(v@) == old(self)@[page_id@],
            r matches Some(v) ==> final(self).wf(),
            r matches Some(v) ==> final(self)@ == old(self)@.insert(page_id@, comments_view(final(v)@)),
    {
        let key = page_id.to_owned();
        match self.find(&key) {
            None => None,
            Some(i) => {
                proof {
                    self.lemma_view_at(i as int);
                }
                Some(self.comments_at(i))
            },
        }
    }

    /// The comments of page `page_id`, to read or extend; the page is created, with no
    /// comments, if it did not exist.
    pub fn fetch_or_create_comments_for_page(&mut self, page_id: &str) -> (r: &mut Vec<Comment>)
        requires
            old(self).wf(),
        ensures
            comments_view(r@) == comments_or_empty(old(self)@, page_id@),
            final(self).wf(),
            final(self)@ == old(self)@.insert(page_id@, comments_view(final(r)@)),
    {
        let key = page_id.to_owned();
        let i = match self.find(&key) {
            Some(i) => {
                proof {
                    self.lemma_view_at(i as int);
                }
                i
            },
            None => {
                let ghost before = *self;
                self.pages.push((key, Vec::new()));
                proof {
                    let after = *self;
                    before.lemma_push(&after, after.pages@.last().0, after.pages@.last().1);
                    self.lemma_view_at(before.pages@.len() as int);
                    assert(comments_view(Seq::<Comment>::empty()) =~= Seq::empty());
                }
                self.pages.len() - 1
            },
        };
        proof {
            assert(self.pages@[i as int].0@ == page_id@);
            assert forall|x: Seq<CommentView>|
                #[trigger] self@.insert(page_id@, x) == old(self)@.insert(page_id@, x) by {
                assert(self@.insert(page_id@, x) =~= old(self)@.insert(page_id@, x));
            }
        }
        self.comments_at(i)
    }
}

impl Default for CommentStore {
    fn default() -> (r: CommentStore)
        ensures
            r.wf(),
            r@ == StoreModel::empty(),
    {
        CommentStore::new()
    }
}

} // verus!

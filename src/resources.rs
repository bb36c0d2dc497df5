use vstd::prelude::*;

verus! {

/// A stored record: an identifier that the store assigns and a name that the caller gives.
#[derive(Clone, Debug)]
pub struct Resource {
    pub id: usize,
    pub name: String,
}

/// What a caller hands in to create a resource.
#[derive(Clone, Debug)]
pub struct NewResource {
    pub name: String,
}

/// A request for one page of the store: pages count from one, and page zero reads as page one.
#[derive(Clone, Copy, Debug)]
pub struct Pageable {
    pub page: usize,
    pub limit: usize,
}

/// One page of a listing. `count` is the number of whole pages of `limit` items that the
/// store holds (its length divided by `limit`, rounded down).
#[derive(Clone, Debug)]
pub struct PaginatedList<T> {
    pub page: usize,
    pub limit: usize,
    pub count: usize,
    pub data: Vec<T>,
}

/// The errors of the store's operations.
#[derive(Clone, Copy, Debug, PartialEq, Eq, Structural)]
pub enum StoreError {
    /// No resource has the requested id, or the requested page starts past the end.
    NotFound,
    /// A page was requested with a limit of zero.
    InvalidLimit,
}

/// True when some resource of `s` has identifier `id`.
pub open spec fn has_id(s: Seq<Resource>, id: usize) -> bool {
    exists|i: int| 0 <= i < s.len() && s[i].id == id
}

/// The identifiers of `s` rise strictly from front to back.
pub open spec fn ids_ascending(s: Seq<Resource>) -> bool {
    forall|i: int, j: int| 0 <= i < j < s.len() ==> s[i].id < s[j].id
}

/// No two resources of `s` share an identifier.
pub open spec fn ids_distinct(s: Seq<Resource>) -> bool {
    forall|i: int, j: int| 0 <= i < s.len() && 0 <= j < s.len() && i != j ==> s[i].id != s[j].id
}

/// Where the page `page` of `limit` items starts.
pub open spec fn page_offset(page: usize, limit: usize) -> int {
    if page > 0 {
        (page - 1) * limit
    } else {
        0
    }
}

/// The items of page `page`: up to `limit` of them, from its offset on, in store order.
pub open spec fn page_data(s: Seq<Resource>, page: usize, limit: usize) -> Seq<Resource> {
    let start = page_offset(page, limit);
    let end = if start + limit <= s.len() {
        start + limit
    } else {
        s.len() as int
    };
    s.subrange(start, end)
}

/// What a listing of `s` gives: an error, or the page count and the page's items.
pub open spec fn list_outcome(s: Seq<Resource>, page: usize, limit: usize) -> Result<
    (nat, Seq<Resource>),
    StoreError,
> {
    if limit == 0 {
        Err(StoreError::InvalidLimit)
    } else if page_offset(page, limit) >= s.len() {
        Err(StoreError::NotFound)
    } else {
        Ok((s.len() / (limit as nat), page_data(s, page, limit)))
    }
}

/// The identifier that the next created resource gets: one past that of the last resource,
/// or one in an empty store.
pub open spec fn next_id(s: Seq<Resource>) -> int {
    if s.len() == 0 {
        1
    } else {
        s.last().id + 1
    }
}

/// `s` with every resource of identifier `id` taken out, the others kept in order.
pub open spec fn without_id(s: Seq<Resource>, id: usize) -> Seq<Resource> {
    s.filter(|r: Resource| r.id != id)
}

/// An ordered collection of resources; its identifiers always rise from front to back.
pub struct ResourceStore {
    items: Vec<Resource>,
}

impl View for ResourceStore {
    type V = Seq<Resource>;

    closed spec fn view(&self) -> Seq<Resource> {
        self.items@
    }
}

impl ResourceStore {
    #[verifier::type_invariant]
    spec fn inv(self) -> bool {
        ids_ascending(self.items@)
    }

    /// An empty store.
    pub fn new() -> (r: ResourceStore)
        ensures
            r@ == Seq::<Resource>::empty(),
    {
        ResourceStore { items: Vec::new() }
    }

    /// Whether the identifier that `create` would assign fits in a `usize`.
    pub fn can_create(&self) -> (r: bool)
        ensures
            r == (next_id(self@) <= usize::MAX),
    {
        let n = self.items.len();
        n == 0 || self.items[n - 1].id < usize::MAX
    }
}

/// Looks up the resource with identifier `id`.
pub fn get_one(id: usize, store: &ResourceStore) -> (r: Result<Resource, StoreError>)
    ensures
        r is Err <==> !has_id(store@, id),
        r matches Ok(res) ==> res.id == id && store@.contains(res),
        r matches Err(e) ==> e == StoreError::NotFound,
{
    let items = &store.items;
    let mut i: usize = 0;
    while i < items.len()
        invariant
            i <= items@.len(),
            items@ == store@,
            forall|k: int| 0 <= k < i ==> items@[k].id != id,
        decreases items@.len() - i,
    {
        if items[i].id == id {
            let found = Resource { id: items[i].id, name: items[i].name.clone() };
            proof { assert(store@[i as int] == found); }
            return Ok(found);
        }
        i = i + 1;
    }
    Err(StoreError::NotFound)
}

/// Lists the page that `pageable` asks for. A limit of zero is refused, and so is a page
/// whose offset lies at or past the end of the store.
pub fn get(pageable: Pageable, store: &ResourceStore) -> (r: Result<PaginatedList<Resource>, StoreError>)
    ensures
        match (r, list_outcome(store@, pageable.page, pageable.limit)) {
            (Ok(list), Ok((count, data))) => {
                &&& list.page == pageable.page
                &&& list.limit == pageable.limit
                &&& list.count == count
                &&& list.data@ == data
            },
            (Err(e), Err(f)) => e == f,
            _ => false,
        },
{
    let items = &store.items;
    let len = items.len();
    let limit = pageable.limit;
    if limit == 0 {
        return Err(StoreError::InvalidLimit);
    }
    let offset: Option<usize> = if pageable.page > 0 {
        (pageable.page - 1).checked_mul(limit)
    } else {
        Some(0)
    };
    let start: usize = match offset {
        Some(v) => v,
        None => {
            return Err(StoreError::NotFound);
        },
    };
    if start >= len {
        return Err(StoreError::NotFound);
    }
    let end: usize = if limit <= len - start {
        start + limit
    } else {
        len
    };
    let mut data: Vec<Resource> = Vec::new();
    let mut i: usize = start;
    while i < end
        invariant
            start <= i,
            i <= end,
            end <= len,
            len == items@.len(),
            data@ == items@.subrange(start as int, i as int),
        decreases end - i,
    {
        let item = Resource { id: items[i].id, name: items[i].name.clone() };
        proof {
            assert(item == items@[i as int]);
        }
        data.push(item);
        proof {
            assert(data@ =~= items@.subrange(start as int, i + 1));
        }
        i = i + 1;
    }
    Ok(PaginatedList { page: pageable.page, limit, count: len / limit, data })
}

/// Appends a resource named as `request` asks, with the identifier one past that of the
/// current last resource (one in an empty store), and returns it.
pub fn create(request: NewResource, store: &mut ResourceStore) -> (r: Resource)
    requires
        next_id(old(store)@) <= usize::MAX,
    ensures
        r.id == next_id(old(store)@),
        r.name == request.name,
        final(store)@ == old(store)@.push(r),
        ids_distinct(final(store)@),
{
    proof {
        use_type_invariant(&*store);
    }
    let n = store.items.len();
    let id: usize = if n == 0 {
        1
    } else {
        store.items[n - 1].id + 1
    };
    let resource = Resource { id, name: request.name };
    let mut items: Vec<Resource> = Vec::new();
    std::mem::swap(&mut items, &mut store.items);
    items.push(Resource { id, name: resource.name.clone() });
    store.items = items;
    proof {
        use_type_invariant(&*store);
    }
    resource
}

/// Removes every resource with identifier `id`; a missing id leaves the store as it was.
pub fn delete(id: usize, store: &mut ResourceStore)
    ensures
        final(store)@ == without_id(old(store)@, id),
        ids_distinct(final(store)@),
{
    proof {
        use_type_invariant(&*store);
    }
    let len = store.items.len();
    let mut kept: Vec<Resource> = Vec::new();
    let mut i: usize = 0;
    while i < len
        invariant
            i <= len == store.items@.len(),
            ids_ascending(store.items@),
            ids_ascending(kept@),
            kept@.len() > 0 ==> forall|j: int| i <= j < len ==> kept@.last().id < store.items@[j].id,
            kept@ == without_id(store.items@.subrange(0, i as int), id),
        decreases len - i,
    {
        let ghost prefix = store.items@.subrange(0, i as int + 1);
        if store.items[i].id != id {
            kept.push(Resource { id: store.items[i].id, name: store.items[i].name.clone() });
        }
        proof {
            assert(prefix.drop_last() =~= store.items@.subrange(0, i as int));
            reveal(Seq::filter);
        }
        i = i + 1;
    }
    proof {
        assert(store.items@.subrange(0, len as int) =~= store.items@);
    }
    store.items = kept;
    proof {
        use_type_invariant(&*store);
    }
}

/// After the resource with identifier `id` is deleted, no resource has that identifier,
/// so a lookup of it fails.
pub proof fn lemma_delete_then_lookup_fails(s: Seq<Resource>, id: usize)
    ensures
        !has_id(without_id(s, id), id),
{
    let pred = |r: Resource| r.id != id;
    assert forall|i: int| 0 <= i < s.filter(pred).len() implies s.filter(pred)[i].id != id by {
        s.lemma_filter_pred(pred, i);
    }
}

/// Deleting an identifier that no resource has leaves the store as it was.
pub proof fn lemma_delete_missing_is_noop(s: Seq<Resource>, id: usize)
    requires
        !has_id(s, id),
    ensures
        without_id(s, id) == s,
    decreases s.len(),
{
    reveal(Seq::filter);
    if s.len() > 0 {
        let rest = s.drop_last();
        assert(!has_id(rest, id)) by {
            if has_id(rest, id) {
                let i = choose|i: int| 0 <= i < rest.len() && rest[i].id == id;
                assert(s[i].id == id);
            }
        }
        lemma_delete_missing_is_noop(rest, id);
        assert(s.last().id != id);
        assert(rest.push(s.last()) =~= s);
    }
}

/// Deleting one identifier keeps every resource that has another.
pub proof fn lemma_delete_keeps_others(s: Seq<Resource>, id: usize, i: int)
    requires
        0 <= i < s.len(),
        s[i].id != id,
    ensures
        without_id(s, id).contains(s[i]),
{
    s.lemma_filter_contains(|r: Resource| r.id != id, i);
}

/// Page zero and page one of the same limit list the same outcome: the same error, or the
/// same page count and items (the returned `page` field echoes the request).
pub proof fn lemma_page_zero_is_page_one(s: Seq<Resource>, limit: usize)
    ensures
        list_outcome(s, 0, limit) == list_outcome(s, 1, limit),
{
}

} // verus!

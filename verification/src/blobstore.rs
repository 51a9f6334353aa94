//! Host-side `wasi:blobstore` logic: object names streamed in pages, the
//! one-shot life cycle of an outgoing value, object identity, and the
//! in-memory object store of the default backend.

use vstd::prelude::*;
use vstd::string::StringExecFns;

use crate::error::owned;
use crate::sdk::ObjectMetadata;

verus! {

/// Host-side service for `wasi:blobstore`.
#[derive(Debug)]
pub struct WasiBlobstore;

/// Options used to connect to the blobstore.
#[derive(Debug, Clone, Copy, Default)]
pub struct ConnectOptions;

// ----------------------------------------------------------------------
// Streamed object names
// ----------------------------------------------------------------------

/// Stream of object names with position tracking for paginated reads.
pub struct StreamObjectNames {
    /// The full list of object names in this stream.
    names: Vec<String>,
    /// Current read offset into `names`.
    offset: usize,
}

/// How many names a read of `len` from `offset` hands out.
pub open spec fn page_len(total: nat, offset: nat, len: nat) -> nat {
    if len <= total - offset {
        len
    } else {
        (total - offset) as nat
    }
}

/// All pages of size `len` from `offset` on, concatenated.
pub open spec fn read_pages(names: Seq<String>, offset: nat, len: nat) -> Seq<String>
    decreases names.len() - offset,
{
    if offset >= names.len() || len == 0 {
        Seq::empty()
    } else {
        let take = page_len(names.len(), offset, len);
        names.subrange(offset as int, (offset + take) as int) + read_pages(
            names,
            offset + take,
            len,
        )
    }
}

impl StreamObjectNames {
    #[verifier::type_invariant]
    closed spec fn offset_in_bounds(&self) -> bool {
        self.offset <= self.names.len()
    }

    /// All names of the stream.
    pub closed spec fn names_view(&self) -> Seq<String> {
        self.names@
    }

    /// How many names have been read or skipped so far.
    pub closed spec fn offset_view(&self) -> nat {
        self.offset as nat
    }

    /// Create a new stream from a complete list of object names.
    pub fn new(names: Vec<String>) -> (res: StreamObjectNames)
        ensures
            res.names_view() == names@,
            res.offset_view() == 0,
    {
        StreamObjectNames { names, offset: 0 }
    }

    /// How many names have been read or skipped so far.
    pub fn offset(&self) -> (res: usize)
        ensures
            res == self.offset_view(),
            res <= self.names_view().len(),
    {
        proof {
            use_type_invariant(self);
        }
        self.offset
    }

    /// The names not yet read or skipped.
    pub fn remaining(&self) -> (res: Vec<String>)
        ensures
            res@ == self.names_view().skip(self.offset_view() as int),
    {
        proof {
            use_type_invariant(self);
        }
        let mut out: Vec<String> = Vec::new();
        let mut i = self.offset;
        while i < self.names.len()
            invariant
                self.offset <= i <= self.names.len(),
                out@ == self.names@.subrange(self.offset as int, i as int),
            decreases self.names.len() - i,
        {
            out.push(self.names[i].clone());
            i = i + 1;
            assert(out@ =~= self.names@.subrange(self.offset as int, i as int));
        }
        out
    }

    /// Reads the next page of at most `len` names. Returns the page and
    /// whether the stream is exhausted afterwards.
    pub fn read(&mut self, len: usize) -> (res: (Vec<String>, bool))
        ensures
            final(self).names_view() == old(self).names_view(),
            ({
                let take = page_len(
                    old(self).names_view().len(),
                    old(self).offset_view(),
                    len as nat,
                );
                &&& res.0@ == old(self).names_view().subrange(
                    old(self).offset_view() as int,
                    (old(self).offset_view() + take) as int,
                )
                &&& final(self).offset_view() == old(self).offset_view() + take
                &&& res.1 == (final(self).offset_view() >= final(self).names_view().len())
            }),
    {
        proof {
            use_type_invariant(&*self);
        }
        let remaining = self.names.len() - self.offset;
        let take = if len <= remaining {
            len
        } else {
            remaining
        };
        let mut batch: Vec<String> = Vec::new();
        let mut i = self.offset;
        let end = self.offset + take;
        while i < end
            invariant
                self.offset <= i <= end <= self.names.len(),
                batch@ == self.names@.subrange(self.offset as int, i as int),
            decreases end - i,
        {
            batch.push(self.names[i].clone());
            i = i + 1;
            assert(batch@ =~= self.names@.subrange(self.offset as int, i as int));
        }
        self.offset = end;
        let done = self.offset >= self.names.len();
        (batch, done)
    }

    /// Skips at most `num` names. Returns how many were skipped and whether
    /// the stream is exhausted afterwards.
    pub fn skip(&mut self, num: usize) -> (res: (usize, bool))
        ensures
            final(self).names_view() == old(self).names_view(),
            res.0 == page_len(old(self).names_view().len(), old(self).offset_view(), num as nat),
            final(self).offset_view() == old(self).offset_view() + res.0,
            res.1 == (final(self).offset_view() >= final(self).names_view().len()),
    {
        proof {
            use_type_invariant(&*self);
        }
        let remaining = self.names.len() - self.offset;
        let skip = if num <= remaining {
            num
        } else {
            remaining
        };
        self.offset = self.offset + skip;
        (skip, self.offset >= self.names.len())
    }
}

/// Reading a stream page by page, with any positive page size, hands out
/// every remaining name exactly once and in order.
pub proof fn law_pages_cover_remaining(names: Seq<String>, offset: nat, len: nat)
    requires
        offset <= names.len(),
        len > 0,
    ensures
        read_pages(names, offset, len) == names.skip(offset as int),
    decreases names.len() - offset,
{
    if offset >= names.len() {
        assert(names.skip(offset as int) =~= Seq::<String>::empty());
    } else {
        let take = page_len(names.len(), offset, len);
        law_pages_cover_remaining(names, offset + take, len);
        assert(names.subrange(offset as int, (offset + take) as int) + names.skip(
            (offset + take) as int,
        ) =~= names.skip(offset as int));
    }
}

/// Skipping `n` names and then reading hands out the same names as reading
/// past those `n`: the names after the skipped ones.
pub proof fn law_skip_then_read(names: Seq<String>, offset: nat, n: nat, len: nat)
    requires
        offset <= names.len(),
    ensures
        ({
            let skipped = offset + page_len(names.len(), offset, n);
            let take = page_len(names.len(), skipped, len);
            names.subrange(skipped as int, (skipped + take) as int) == names.skip(offset as int).subrange(
                page_len(names.len(), offset, n) as int,
                (page_len(names.len(), offset, n) + take) as int,
            )
        }),
{
    let skipped = offset + page_len(names.len(), offset, n);
    let take = page_len(names.len(), skipped, len);
    assert(names.subrange(skipped as int, (skipped + take) as int) =~= names.skip(
        offset as int,
    ).subrange(
        page_len(names.len(), offset, n) as int,
        (page_len(names.len(), offset, n) + take) as int,
    ));
}

// ----------------------------------------------------------------------
// Outgoing values
// ----------------------------------------------------------------------

/// The outcome of requesting the write body in state (`taken`, `finished`):
/// whether it is granted, and the state afterwards.
pub open spec fn take_outcome(taken: bool, finished: bool) -> (bool, bool, bool) {
    if finished || taken {
        (false, taken, finished)
    } else {
        (true, true, finished)
    }
}

/// The outcome of finishing in state (`taken`, `finished`): whether it
/// succeeds, and the state afterwards.
pub open spec fn finalize_outcome(taken: bool, finished: bool) -> (bool, bool, bool) {
    if finished || !taken {
        (false, taken, finished)
    } else {
        (true, taken, true)
    }
}

/// The write life cycle of an outgoing value: its body can be requested
/// once, and the value finished once, after its body was requested.
#[derive(Debug, Clone, Copy)]
pub struct OutgoingValue {
    capacity: usize,
    write_body_taken: bool,
    finished: bool,
}

impl OutgoingValue {
    /// Capacity of the in-memory buffer the body is written to.
    pub closed spec fn capacity_view(&self) -> usize {
        self.capacity
    }

    pub closed spec fn write_body_taken_view(&self) -> bool {
        self.write_body_taken
    }

    pub closed spec fn finished_view(&self) -> bool {
        self.finished
    }

    /// Create a new outgoing value with an in-memory buffer capacity.
    pub fn new(capacity: usize) -> (res: OutgoingValue)
        ensures
            res.capacity_view() == capacity,
            !res.write_body_taken_view(),
            !res.finished_view(),
    {
        OutgoingValue { capacity, write_body_taken: false, finished: false }
    }

    /// Capacity of the in-memory buffer the body is written to.
    pub fn capacity(&self) -> (res: usize)
        ensures
            res == self.capacity_view(),
    {
        self.capacity
    }

    /// Hands out the write body: succeeds once, and only before the value
    /// is finished.
    pub fn take_write_body(&mut self) -> (res: Result<(), ()>)
        ensures
            final(self).capacity_view() == old(self).capacity_view(),
            (res is Ok, final(self).write_body_taken_view(), final(self).finished_view())
                == take_outcome(old(self).write_body_taken_view(), old(self).finished_view()),
    {
        if self.finished || self.write_body_taken {
            return Err(());
        }
        self.write_body_taken = true;
        Ok(())
    }

    /// Finishes the value: succeeds once, and only after the write body was
    /// requested.
    pub fn finalize(&mut self) -> (res: Result<(), &'static str>)
        ensures
            final(self).capacity_view() == old(self).capacity_view(),
            (res is Ok, final(self).write_body_taken_view(), final(self).finished_view())
                == finalize_outcome(old(self).write_body_taken_view(), old(self).finished_view()),
            old(self).finished_view() ==> (res matches Err(m) && m@
                == "outgoing value already finished"@),
            !old(self).finished_view() && !old(self).write_body_taken_view() ==> (res matches Err(m)
                && m@ == "outgoing value write body was never requested"@),
    {
        if self.finished {
            return Err("outgoing value already finished");
        }
        if !self.write_body_taken {
            return Err("outgoing value write body was never requested");
        }
        self.finished = true;
        Ok(())
    }
}

/// The write body is handed out at most once: after it was granted, every
/// later request is refused, whatever finishing happened in between.
pub proof fn law_write_body_is_one_shot(taken: bool, finished: bool)
    ensures
        ({
            let t = take_outcome(taken, finished);
            t.0 ==> !take_outcome(t.1, t.2).0 && !take_outcome(
                finalize_outcome(t.1, t.2).1,
                finalize_outcome(t.1, t.2).2,
            ).0
        }),
{
}

/// A value is finished at most once, and only after its body was granted;
/// once finished, neither the body nor a second finish is granted.
pub proof fn law_finish_is_single_use(taken: bool, finished: bool)
    ensures
        ({
            let f = finalize_outcome(taken, finished);
            &&& f.0 ==> taken && !finished
            &&& f.0 ==> !finalize_outcome(f.1, f.2).0 && !take_outcome(f.1, f.2).0
        }),
{
}

// ----------------------------------------------------------------------
// Object identity
// ----------------------------------------------------------------------

/// The container and name that identify an object.
#[derive(Debug, Clone)]
pub struct ObjectId {
    pub container: String,
    pub object: String,
}

/// Whether `src` and `dest` name the same object. Moving an object onto
/// itself is a no-op: deleting the source would lose the data.
pub fn same_object(src: &ObjectId, dest: &ObjectId) -> (res: bool)
    ensures
        res == (src.container@ == dest.container@ && src.object@ == dest.object@),
{
    src.container == dest.container && src.object == dest.object
}

/// The error reported when a copy or move finds no source object:
/// `source object not found: {container}/{object}`.
pub fn source_not_found(src: &ObjectId) -> (res: String)
    ensures
        res@ == "source object not found: "@ + src.container@ + "/"@ + src.object@,
{
    let mut msg = owned("source object not found: ");
    msg.append(src.container.as_str());
    msg.append("/");
    msg.append(src.object.as_str());
    msg
}


// ----------------------------------------------------------------------
// In-memory container
// ----------------------------------------------------------------------

pub open spec fn has_key(es: Seq<(String, Vec<u8>)>, k: Seq<char>) -> bool {
    exists|i: int| 0 <= i < es.len() && (#[trigger] es[i]).0@ == k
}

pub open spec fn index_of(es: Seq<(String, Vec<u8>)>, k: Seq<char>) -> int {
    choose|i: int| 0 <= i < es.len() && (#[trigger] es[i]).0@ == k
}

/// The objects held by an entry list, by name.
pub open spec fn entries_view(es: Seq<(String, Vec<u8>)>) -> Map<Seq<char>, Seq<u8>> {
    Map::new(|k: Seq<char>| has_key(es, k), |k: Seq<char>| es[index_of(es, k)].1@)
}

pub open spec fn keys_unique(es: Seq<(String, Vec<u8>)>) -> bool {
    forall|i: int, j: int|
        0 <= i < es.len() && 0 <= j < es.len() && i != j ==> (#[trigger] es[i]).0@ != (
        #[trigger] es[j]).0@
}

proof fn lemma_index_of(es: Seq<(String, Vec<u8>)>, i: int)
    requires
        keys_unique(es),
        0 <= i < es.len(),
    ensures
        has_key(es, es[i].0@),
        index_of(es, es[i].0@) == i,
{
    let k = es[i].0@;
    assert(has_key(es, k));
    let j = index_of(es, k);
    if j != i {
        assert(es[j].0@ == k);
    }
}

proof fn lemma_view_update(es: Seq<(String, Vec<u8>)>, i: int, e: (String, Vec<u8>))
    requires
        keys_unique(es),
        0 <= i < es.len(),
        e.0@ == es[i].0@,
    ensures
        keys_unique(es.update(i, e)),
        entries_view(es.update(i, e)) =~= entries_view(es).insert(e.0@, e.1@),
{
    let es2 = es.update(i, e);
    assert forall|a: int, b: int|
        0 <= a < es2.len() && 0 <= b < es2.len() && a != b implies (#[trigger] es2[a]).0@ != (
        #[trigger] es2[b]).0@ by {
        assert(es2[a].0@ == es[a].0@);
        assert(es2[b].0@ == es[b].0@);
    }
    lemma_index_of(es2, i);
    assert forall|k: Seq<char>| #[trigger] has_key(es2, k) <==> has_key(es, k) || k == e.0@ by {
        if has_key(es2, k) {
            let a = choose|a: int| 0 <= a < es2.len() && (#[trigger] es2[a]).0@ == k;
            assert(es[a].0@ == k);
        }
        if has_key(es, k) {
            let a = choose|a: int| 0 <= a < es.len() && (#[trigger] es[a]).0@ == k;
            assert(es2[a].0@ == k);
        }
    }
    assert forall|k: Seq<char>| has_key(es2, k) && k != e.0@ implies #[trigger] es2[index_of(
        es2,
        k,
    )].1@ == es[index_of(es, k)].1@ by {
        let a = index_of(es2, k);
        assert(es2[a].0@ == k);
        assert(a != i);
        assert(es[a].0@ == k);
        lemma_index_of(es, a);
    }
}

proof fn lemma_view_push(es: Seq<(String, Vec<u8>)>, e: (String, Vec<u8>))
    requires
        keys_unique(es),
        !has_key(es, e.0@),
    ensures
        keys_unique(es.push(e)),
        entries_view(es.push(e)) =~= entries_view(es).insert(e.0@, e.1@),
{
    let es2 = es.push(e);
    let n = es.len() as int;
    assert forall|a: int, b: int|
        0 <= a < es2.len() && 0 <= b < es2.len() && a != b implies (#[trigger] es2[a]).0@ != (
        #[trigger] es2[b]).0@ by {
        if a < n && b < n {
            assert(es2[a] == es[a] && es2[b] == es[b]);
        } else if a < n {
            assert(es2[a] == es[a]);
        } else {
            assert(es2[b] == es[b]);
        }
    }
    lemma_index_of(es2, n);
    assert forall|k: Seq<char>| #[trigger] has_key(es2, k) <==> has_key(es, k) || k == e.0@ by {
        if has_key(es2, k) {
            let a = choose|a: int| 0 <= a < es2.len() && (#[trigger] es2[a]).0@ == k;
            if a < n {
                assert(es[a].0@ == k);
            }
        }
        if has_key(es, k) {
            let a = choose|a: int| 0 <= a < es.len() && (#[trigger] es[a]).0@ == k;
            assert(es2[a].0@ == k);
        }
    }
    assert forall|k: Seq<char>| has_key(es2, k) && k != e.0@ implies #[trigger] es2[index_of(
        es2,
        k,
    )].1@ == es[index_of(es, k)].1@ by {
        let a = index_of(es2, k);
        assert(es2[a].0@ == k);
        assert(a != n);
        assert(es[a] == es2[a]);
        lemma_index_of(es, a);
    }
}

proof fn lemma_view_remove(es: Seq<(String, Vec<u8>)>, i: int)
    requires
        keys_unique(es),
        0 <= i < es.len(),
    ensures
        keys_unique(es.remove(i)),
        entries_view(es.remove(i)) =~= entries_view(es).remove(es[i].0@),
{
    let es2 = es.remove(i);
    let k0 = es[i].0@;
    assert forall|a: int, b: int|
        0 <= a < es2.len() && 0 <= b < es2.len() && a != b implies (#[trigger] es2[a]).0@ != (
        #[trigger] es2[b]).0@ by {
        let a1 = if a < i { a } else { a + 1 };
        let b1 = if b < i { b } else { b + 1 };
        assert(es2[a] == es[a1]);
        assert(es2[b] == es[b1]);
    }
    assert forall|k: Seq<char>| #[trigger] has_key(es2, k) <==> has_key(es, k) && k != k0 by {
        if has_key(es2, k) {
            let a = choose|a: int| 0 <= a < es2.len() && (#[trigger] es2[a]).0@ == k;
            let a1 = if a < i { a } else { a + 1 };
            assert(es2[a] == es[a1]);
            assert(es[a1].0@ == k);
            assert(a1 != i);
        }
        if has_key(es, k) && k != k0 {
            let a = choose|a: int| 0 <= a < es.len() && (#[trigger] es[a]).0@ == k;
            assert(a != i);
            let a2 = if a < i { a } else { a - 1 };
            assert(es2[a2] == es[a]);
        }
    }
    assert forall|k: Seq<char>| has_key(es2, k) implies #[trigger] es2[index_of(es2, k)].1@
        == es[index_of(es, k)].1@ by {
        let a = index_of(es2, k);
        assert(es2[a].0@ == k);
        let a1 = if a < i { a } else { a + 1 };
        assert(es2[a] == es[a1]);
        lemma_index_of(es, a1);
    }
}

/// The names of a list of names, as a set.
pub open spec fn names_set(names: Seq<String>) -> Set<Seq<char>> {
    Set::new(|k: Seq<char>| exists|j: int| 0 <= j < names.len() && (#[trigger] names[j])@ == k)
}

/// An in-memory blobstore container: its name, creation time and objects.
pub struct InMemContainer {
    name: String,
    created_at: u64,
    objects: Vec<(String, Vec<u8>)>,
}

impl View for InMemContainer {
    type V = Map<Seq<char>, Seq<u8>>;

    closed spec fn view(&self) -> Map<Seq<char>, Seq<u8>> {
        entries_view(self.objects@)
    }
}

impl InMemContainer {
    #[verifier::type_invariant]
    closed spec fn names_unique(&self) -> bool {
        keys_unique(self.objects@)
    }

    pub closed spec fn name_view(&self) -> Seq<char> {
        self.name@
    }

    pub closed spec fn created_at_view(&self) -> u64 {
        self.created_at
    }

    /// An empty container named `name`, created at `created_at` (seconds
    /// since the Unix epoch).
    pub fn new(name: String, created_at: u64) -> (res: InMemContainer)
        ensures
            res.name_view() == name@,
            res.created_at_view() == created_at,
            res@ == Map::<Seq<char>, Seq<u8>>::empty(),
    {
        let res = InMemContainer { name, created_at, objects: Vec::new() };
        assert(res@ =~= Map::<Seq<char>, Seq<u8>>::empty());
        res
    }

    /// The name of the container.
    pub fn name(&self) -> (res: String)
        ensures
            res@ == self.name_view(),
    {
        self.name.clone()
    }

    /// Returns the metadata for the container.
    pub fn info(&self) -> (res: crate::sdk::ContainerMetadata)
        ensures
            res.name@ == self.name_view(),
            res.created_at == self.created_at_view(),
    {
        crate::sdk::ContainerMetadata { name: self.name.clone(), created_at: self.created_at }
    }

    fn find(&self, name: &String) -> (res: Option<usize>)
        ensures
            match res {
                Some(i) => i < self.objects@.len() && self.objects@[i as int].0@ == name@,
                None => !has_key(self.objects@, name@),
            },
    {
        let mut i: usize = 0;
        while i < self.objects.len()
            invariant
                i <= self.objects.len(),
                forall|j: int| 0 <= j < i ==> (#[trigger] self.objects@[j]).0@ != name@,
            decreases self.objects.len() - i,
        {
            if self.objects[i].0 == *name {
                return Some(i);
            }
            i = i + 1;
        }
        None
    }

    /// Get the value stored under `name`, if any.
    pub fn get_data(&self, name: &String) -> (res: Option<Vec<u8>>)
        ensures
            match res {
                Some(d) => self@.contains_key(name@) && d@ == self@[name@],
                None => !self@.contains_key(name@),
            },
    {
        proof {
            use_type_invariant(self);
        }
        match self.find(name) {
            Some(i) => {
                proof {
                    lemma_index_of(self.objects@, i as int);
                }
                Some(self.objects[i].1.clone())
            },
            None => None,
        }
    }

    /// Store `data` under `name`, replacing what was there.
    pub fn write_data(&mut self, name: String, data: Vec<u8>)
        ensures
            final(self)@ == old(self)@.insert(name@, data@),
            final(self).name_view() == old(self).name_view(),
            final(self).created_at_view() == old(self).created_at_view(),
    {
        proof {
            use_type_invariant(&*self);
        }
        let ghost k = name@;
        let ghost d = data@;
        let found = self.find(&name);
        let mut objects: Vec<(String, Vec<u8>)> = Vec::new();
        std::mem::swap(&mut objects, &mut self.objects);
        match found {
            Some(i) => {
                proof {
                    lemma_view_update(objects@, i as int, (name, data));
                }
                objects.set(i, (name, data));
            },
            None => {
                proof {
                    lemma_view_push(objects@, (name, data));
                }
                objects.push((name, data));
            },
        }
        self.objects = objects;
    }

    /// Delete the value stored under `name`; deleting a missing name is not
    /// an error.
    pub fn delete_object(&mut self, name: &String)
        ensures
            final(self)@ == old(self)@.remove(name@),
            final(self).name_view() == old(self).name_view(),
            final(self).created_at_view() == old(self).created_at_view(),
    {
        proof {
            use_type_invariant(&*self);
        }
        match self.find(name) {
            Some(i) => {
                let mut objects: Vec<(String, Vec<u8>)> = Vec::new();
                std::mem::swap(&mut objects, &mut self.objects);
                proof {
                    lemma_view_remove(objects@, i as int);
                }
                objects.remove(i);
                self.objects = objects;
            },
            None => {
                assert(self@ =~= self@.remove(name@));
            },
        }
    }

    /// Delete every object named in `names`; missing names are skipped.
    pub fn delete_objects(&mut self, names: &Vec<String>)
        ensures
            final(self)@ == old(self)@.remove_keys(names_set(names@)),
            final(self).name_view() == old(self).name_view(),
            final(self).created_at_view() == old(self).created_at_view(),
    {
        let ghost start = self@;
        let mut i: usize = 0;
        while i < names.len()
            invariant
                i <= names.len(),
                self@ == start.remove_keys(names_set(names@.take(i as int))),
                self.name_view() == old(self).name_view(),
                self.created_at_view() == old(self).created_at_view(),
            decreases names.len() - i,
        {
            self.delete_object(&names[i]);
            proof {
                let a = names@.take(i as int);
                let b = names@.take(i + 1);
                assert forall|k: Seq<char>| names_set(b).contains(k) <==> names_set(a).insert(names@[i as int]@).contains(k)
                    by {
                    if names_set(b).contains(k) {
                        let j = choose|j: int| 0 <= j < b.len() && (#[trigger] b[j])@ == k;
                        if j < i {
                            assert(a[j] == b[j]);
                        }
                    }
                    if names_set(a).contains(k) {
                        let j = choose|j: int| 0 <= j < a.len() && (#[trigger] a[j])@ == k;
                        assert(b[j] == a[j]);
                    }
                    if k == names@[i as int]@ {
                        assert(b[i as int] == names@[i as int]);
                    }
                }
                assert(names_set(b) =~= names_set(a).insert(names@[i as int]@));
                assert(self@ =~= start.remove_keys(names_set(names@.take(i + 1))));
            }
            i = i + 1;
        }
        assert(names@.take(names.len() as int) =~= names@);
    }

    /// Remove every object, leaving the container empty.
    pub fn clear(&mut self)
        ensures
            final(self)@ == Map::<Seq<char>, Seq<u8>>::empty(),
            final(self).name_view() == old(self).name_view(),
            final(self).created_at_view() == old(self).created_at_view(),
    {
        self.objects = Vec::new();
        assert(self@ =~= Map::<Seq<char>, Seq<u8>>::empty());
    }

    /// Check if the object exists.
    pub fn has_object(&self, name: &String) -> (res: bool)
        ensures
            res == self@.contains_key(name@),
    {
        self.find(name).is_some()
    }

    /// The names of all objects in the container, each once.
    pub fn list_objects(&self) -> (res: Vec<String>)
        ensures
            forall|i: int| 0 <= i < res@.len() ==> self@.contains_key(#[trigger] res@[i]@),
            forall|k: Seq<char>|
                #[trigger] self@.contains_key(k) ==> exists|i: int|
                    0 <= i < res@.len() && (#[trigger] res@[i])@ == k,
            forall|i: int, j: int|
                0 <= i < res@.len() && 0 <= j < res@.len() && i != j ==> (#[trigger] res@[i])@
                    != (#[trigger] res@[j])@,
    {
        proof {
            use_type_invariant(self);
        }
        let mut out: Vec<String> = Vec::new();
        let mut i: usize = 0;
        while i < self.objects.len()
            invariant
                i <= self.objects.len(),
                keys_unique(self.objects@),
                out@.len() == i,
                forall|j: int| 0 <= j < i ==> (#[trigger] out@[j])@ == self.objects@[j].0@,
            decreases self.objects.len() - i,
        {
            out.push(self.objects[i].0.clone());
            i = i + 1;
        }
        proof {
            assert forall|i: int| 0 <= i < out@.len() implies self@.contains_key(
                #[trigger] out@[i]@,
            ) by {
                assert(out@[i]@ == self.objects@[i].0@);
                assert(has_key(self.objects@, self.objects@[i].0@));
            }
            assert forall|k: Seq<char>| #[trigger] self@.contains_key(k) implies exists|i: int|
                0 <= i < out@.len() && (#[trigger] out@[i])@ == k by {
                let j = choose|j: int| 0 <= j < self.objects@.len() && (#[trigger] self.objects@[j]).0@ == k;
                assert(out@[j]@ == k);
            }
            assert forall|a: int, b: int|
                0 <= a < out@.len() && 0 <= b < out@.len() && a != b implies (#[trigger] out@[a])@
                != (#[trigger] out@[b])@ by {
                assert(out@[a]@ == self.objects@[a].0@);
                assert(out@[b]@ == self.objects@[b].0@);
            }
        }
        out
    }

    /// Metadata for the object stored under `name`, as seen at `now`
    /// (seconds since the Unix epoch); `None` when there is no such object.
    pub fn object_info(&self, name: &String, now: u64) -> (res: Option<ObjectMetadata>)
        ensures
            match res {
                Some(m) => self@.contains_key(name@) && m.name@ == name@ && m.container@
                    == self.name_view() && m.created_at == now && m.size == self@[name@].len(),
                None => !self@.contains_key(name@),
            },
    {
        proof {
            use_type_invariant(self);
        }
        match self.find(name) {
            Some(i) => {
                proof {
                    lemma_index_of(self.objects@, i as int);
                }
                let size = self.objects[i].1.len() as u64;
                Some(ObjectMetadata { name: name.clone(), container: self.name.clone(), created_at: now, size })
            },
            None => None,
        }
    }
}

/// What a read of a container gives back after a write: the written data
/// under the written name, and every other object as it was.
pub proof fn law_read_after_write(objects: Map<Seq<char>, Seq<u8>>, name: Seq<char>, data: Seq<u8>, other: Seq<char>)
    ensures
        objects.insert(name, data).contains_key(name),
        objects.insert(name, data)[name] == data,
        other != name ==> (objects.insert(name, data).contains_key(other) == objects.contains_key(other)),
        other != name && objects.contains_key(other) ==> objects.insert(name, data)[other] == objects[other],
{
}

/// After a delete the object is gone, and every other object is untouched.
pub proof fn law_delete_removes_only_target(objects: Map<Seq<char>, Seq<u8>>, name: Seq<char>, other: Seq<char>)
    ensures
        !objects.remove(name).contains_key(name),
        other != name ==> (objects.remove(name).contains_key(other) == objects.contains_key(other)),
        other != name && objects.contains_key(other) ==> objects.remove(name)[other] == objects[other],
{
}

/// A second write to the same name replaces the first.
pub proof fn law_overwrite(objects: Map<Seq<char>, Seq<u8>>, name: Seq<char>, first: Seq<u8>, second: Seq<u8>)
    ensures
        objects.insert(name, first).insert(name, second) =~= objects.insert(name, second),
{
}

// ----------------------------------------------------------------------
// In-memory store of containers
// ----------------------------------------------------------------------

pub open spec fn has_container(cs: Seq<InMemContainer>, k: Seq<char>) -> bool {
    exists|i: int| 0 <= i < cs.len() && (#[trigger] cs[i]).name_view() == k
}

pub open spec fn container_index(cs: Seq<InMemContainer>, k: Seq<char>) -> int {
    choose|i: int| 0 <= i < cs.len() && (#[trigger] cs[i]).name_view() == k
}

/// The containers of a list, by name, each as its objects.
pub open spec fn containers_view(cs: Seq<InMemContainer>) -> Map<Seq<char>, Map<Seq<char>, Seq<u8>>> {
    Map::new(|k: Seq<char>| has_container(cs, k), |k: Seq<char>| cs[container_index(cs, k)]@)
}

/// The creation times of the containers of a list, by name.
pub open spec fn containers_created(cs: Seq<InMemContainer>) -> Map<Seq<char>, u64> {
    Map::new(|k: Seq<char>| has_container(cs, k), |k: Seq<char>| cs[container_index(cs, k)].created_at_view())
}

pub open spec fn container_names_unique(cs: Seq<InMemContainer>) -> bool {
    forall|i: int, j: int|
        0 <= i < cs.len() && 0 <= j < cs.len() && i != j ==> (#[trigger] cs[i]).name_view() != (
        #[trigger] cs[j]).name_view()
}

proof fn lemma_container_index(cs: Seq<InMemContainer>, i: int)
    requires
        container_names_unique(cs),
        0 <= i < cs.len(),
    ensures
        has_container(cs, cs[i].name_view()),
        container_index(cs, cs[i].name_view()) == i,
{
    let k = cs[i].name_view();
    assert(has_container(cs, k));
    let j = container_index(cs, k);
    if j != i {
        assert(cs[j].name_view() == k);
    }
}

proof fn lemma_containers_update(cs: Seq<InMemContainer>, i: int, c: InMemContainer)
    requires
        container_names_unique(cs),
        0 <= i < cs.len(),
        c.name_view() == cs[i].name_view(),
    ensures
        container_names_unique(cs.update(i, c)),
        containers_view(cs.update(i, c)) =~= containers_view(cs).insert(c.name_view(), c@),
        containers_created(cs.update(i, c)) =~= containers_created(cs).insert(c.name_view(), c.created_at_view()),
{
    let cs2 = cs.update(i, c);
    assert forall|a: int, b: int|
        0 <= a < cs2.len() && 0 <= b < cs2.len() && a != b implies (#[trigger] cs2[a]).name_view() != (
        #[trigger] cs2[b]).name_view() by {
        assert(cs2[a].name_view() == cs[a].name_view());
        assert(cs2[b].name_view() == cs[b].name_view());
    }
    lemma_container_index(cs2, i);
    assert forall|k: Seq<char>| #[trigger] has_container(cs2, k) <==> has_container(cs, k) by {
        if has_container(cs2, k) {
            let a = choose|a: int| 0 <= a < cs2.len() && (#[trigger] cs2[a]).name_view() == k;
            assert(cs[a].name_view() == k);
        }
        if has_container(cs, k) {
            let a = choose|a: int| 0 <= a < cs.len() && (#[trigger] cs[a]).name_view() == k;
            assert(cs2[a].name_view() == k);
        }
    }
    assert forall|k: Seq<char>| has_container(cs2, k) && k != c.name_view() implies #[trigger] cs2[container_index(
        cs2,
        k,
    )] == cs[container_index(cs, k)] by {
        let a = container_index(cs2, k);
        assert(cs2[a].name_view() == k);
        assert(a != i);
        assert(cs[a].name_view() == k);
        lemma_container_index(cs, a);
    }
}

proof fn lemma_containers_push(cs: Seq<InMemContainer>, c: InMemContainer)
    requires
        container_names_unique(cs),
        !has_container(cs, c.name_view()),
    ensures
        container_names_unique(cs.push(c)),
        containers_view(cs.push(c)) =~= containers_view(cs).insert(c.name_view(), c@),
        containers_created(cs.push(c)) =~= containers_created(cs).insert(c.name_view(), c.created_at_view()),
{
    let cs2 = cs.push(c);
    let n = cs.len() as int;
    assert forall|a: int, b: int|
        0 <= a < cs2.len() && 0 <= b < cs2.len() && a != b implies (#[trigger] cs2[a]).name_view() != (
        #[trigger] cs2[b]).name_view() by {
        if a < n && b < n {
            assert(cs2[a] == cs[a] && cs2[b] == cs[b]);
        } else if a < n {
            assert(cs2[a] == cs[a]);
        } else {
            assert(cs2[b] == cs[b]);
        }
    }
    lemma_container_index(cs2, n);
    assert forall|k: Seq<char>| #[trigger] has_container(cs2, k) <==> has_container(cs, k) || k == c.name_view() by {
        if has_container(cs2, k) {
            let a = choose|a: int| 0 <= a < cs2.len() && (#[trigger] cs2[a]).name_view() == k;
            if a < n {
                assert(cs[a].name_view() == k);
            }
        }
        if has_container(cs, k) {
            let a = choose|a: int| 0 <= a < cs.len() && (#[trigger] cs[a]).name_view() == k;
            assert(cs2[a].name_view() == k);
        }
    }
    assert forall|k: Seq<char>| has_container(cs2, k) && k != c.name_view() implies #[trigger] cs2[container_index(
        cs2,
        k,
    )] == cs[container_index(cs, k)] by {
        let a = container_index(cs2, k);
        assert(cs2[a].name_view() == k);
        assert(a != n);
        assert(cs[a] == cs2[a]);
        lemma_container_index(cs, a);
    }
}

proof fn lemma_containers_remove(cs: Seq<InMemContainer>, i: int)
    requires
        container_names_unique(cs),
        0 <= i < cs.len(),
    ensures
        container_names_unique(cs.remove(i)),
        containers_view(cs.remove(i)) =~= containers_view(cs).remove(cs[i].name_view()),
        containers_created(cs.remove(i)) =~= containers_created(cs).remove(cs[i].name_view()),
{
    let cs2 = cs.remove(i);
    let k0 = cs[i].name_view();
    assert forall|a: int, b: int|
        0 <= a < cs2.len() && 0 <= b < cs2.len() && a != b implies (#[trigger] cs2[a]).name_view() != (
        #[trigger] cs2[b]).name_view() by {
        let a1 = if a < i { a } else { a + 1 };
        let b1 = if b < i { b } else { b + 1 };
        assert(cs2[a] == cs[a1]);
        assert(cs2[b] == cs[b1]);
    }
    assert forall|k: Seq<char>| #[trigger] has_container(cs2, k) <==> has_container(cs, k) && k != k0 by {
        if has_container(cs2, k) {
            let a = choose|a: int| 0 <= a < cs2.len() && (#[trigger] cs2[a]).name_view() == k;
            let a1 = if a < i { a } else { a + 1 };
            assert(cs2[a] == cs[a1]);
            assert(cs[a1].name_view() == k);
            assert(a1 != i);
        }
        if has_container(cs, k) && k != k0 {
            let a = choose|a: int| 0 <= a < cs.len() && (#[trigger] cs[a]).name_view() == k;
            assert(a != i);
            let a2 = if a < i { a } else { a - 1 };
            assert(cs2[a2] == cs[a]);
        }
    }
    assert forall|k: Seq<char>| has_container(cs2, k) implies #[trigger] cs2[container_index(cs2, k)]
        == cs[container_index(cs, k)] by {
        let a = container_index(cs2, k);
        assert(cs2[a].name_view() == k);
        let a1 = if a < i { a } else { a + 1 };
        assert(cs2[a] == cs[a1]);
        lemma_container_index(cs, a1);
    }
}

/// The error reported for a missing container: `container not found: {name}`.
pub fn container_not_found(name: &String) -> (res: String)
    ensures
        res@ == "container not found: "@ + name@,
{
    let mut msg = owned("container not found: ");
    msg.append(name.as_str());
    msg
}

/// A change to the objects of a container.
enum ContainerOp {
    Write(String, Vec<u8>),
    Delete(String),
    DeleteMany(Vec<String>),
    Clear,
}

/// The objects of a container after a change.
spec fn op_result(objects: Map<Seq<char>, Seq<u8>>, op: ContainerOp) -> Map<Seq<char>, Seq<u8>> {
    match op {
        ContainerOp::Write(o, d) => objects.insert(o@, d@),
        ContainerOp::Delete(o) => objects.remove(o@),
        ContainerOp::DeleteMany(names) => objects.remove_keys(names_set(names@)),
        ContainerOp::Clear => Map::empty(),
    }
}

/// The in-memory store of the default blobstore backend: containers by
/// name.
pub struct BlobstoreDefault {
    containers: Vec<InMemContainer>,
}

impl View for BlobstoreDefault {
    type V = Map<Seq<char>, Map<Seq<char>, Seq<u8>>>;

    closed spec fn view(&self) -> Map<Seq<char>, Map<Seq<char>, Seq<u8>>> {
        containers_view(self.containers@)
    }
}

/// What a copy of `src` to `dest` leaves in a store, when it succeeds: the
/// source object's data under the destination name.
pub open spec fn copied(
    store: Map<Seq<char>, Map<Seq<char>, Seq<u8>>>,
    src: (Seq<char>, Seq<char>),
    dest: (Seq<char>, Seq<char>),
) -> Map<Seq<char>, Map<Seq<char>, Seq<u8>>> {
    store.insert(dest.0, store[dest.0].insert(dest.1, store[src.0][src.1]))
}

/// What a move of `src` to `dest` leaves in a store, when it succeeds: the
/// copy, with the source object then deleted.
pub open spec fn moved(
    store: Map<Seq<char>, Map<Seq<char>, Seq<u8>>>,
    src: (Seq<char>, Seq<char>),
    dest: (Seq<char>, Seq<char>),
) -> Map<Seq<char>, Map<Seq<char>, Seq<u8>>> {
    let c = copied(store, src, dest);
    c.insert(src.0, c[src.0].remove(src.1))
}

/// Why a copy or move of `src` to `dest` fails, if it does: a missing
/// source container, source object, or destination container, checked in
/// that order.
pub open spec fn transfer_error(
    store: Map<Seq<char>, Map<Seq<char>, Seq<u8>>>,
    src: (Seq<char>, Seq<char>),
    dest: (Seq<char>, Seq<char>),
) -> Option<Seq<char>> {
    if !store.contains_key(src.0) {
        Some("container not found: "@ + src.0)
    } else if !store[src.0].contains_key(src.1) {
        Some("source object not found: "@ + src.0 + "/"@ + src.1)
    } else if !store.contains_key(dest.0) {
        Some("container not found: "@ + dest.0)
    } else {
        None
    }
}

pub open spec fn id_view(id: ObjectId) -> (Seq<char>, Seq<char>) {
    (id.container@, id.object@)
}

impl BlobstoreDefault {
    #[verifier::type_invariant]
    closed spec fn unique_names(&self) -> bool {
        container_names_unique(self.containers@)
    }

    /// The creation time of each container, by name.
    pub closed spec fn created(&self) -> Map<Seq<char>, u64> {
        containers_created(self.containers@)
    }

    /// An empty store.
    pub fn new() -> (res: BlobstoreDefault)
        ensures
            res@ == Map::<Seq<char>, Map<Seq<char>, Seq<u8>>>::empty(),
            res.created() == Map::<Seq<char>, u64>::empty(),
    {
        let res = BlobstoreDefault { containers: Vec::new() };
        assert(res@ =~= Map::<Seq<char>, Map<Seq<char>, Seq<u8>>>::empty());
        assert(res.created() =~= Map::<Seq<char>, u64>::empty());
        res
    }

    fn find(&self, name: &String) -> (res: Option<usize>)
        ensures
            match res {
                Some(i) => i < self.containers@.len() && self.containers@[i as int].name_view() == name@,
                None => !has_container(self.containers@, name@),
            },
    {
        let mut i: usize = 0;
        while i < self.containers.len()
            invariant
                i <= self.containers.len(),
                forall|j: int| 0 <= j < i ==> (#[trigger] self.containers@[j]).name_view() != name@,
            decreases self.containers.len() - i,
        {
            if self.containers[i].name() == *name {
                return Some(i);
            }
            i = i + 1;
        }
        None
    }

    /// Creates an empty container named `name`, created at `now`; an
    /// existing container of that name is replaced.
    pub fn create_container(&mut self, name: String, now: u64)
        ensures
            final(self)@ == old(self)@.insert(name@, Map::<Seq<char>, Seq<u8>>::empty()),
            final(self).created() == old(self).created().insert(name@, now),
    {
        proof {
            use_type_invariant(&*self);
        }
        let found = self.find(&name);
        let container = InMemContainer::new(name, now);
        let mut cs: Vec<InMemContainer> = Vec::new();
        std::mem::swap(&mut cs, &mut self.containers);
        match found {
            Some(i) => {
                proof {
                    lemma_containers_update(cs@, i as int, container);
                }
                cs.set(i, container);
            },
            None => {
                proof {
                    lemma_containers_push(cs@, container);
                }
                cs.push(container);
            },
        }
        self.containers = cs;
    }

    /// The container named `name`, or an error when there is none.
    pub fn get_container(&self, name: &String) -> (res: Result<&InMemContainer, String>)
        ensures
            match res {
                Ok(c) => self@.contains_key(name@) && c@ == self@[name@] && c.name_view() == name@
                    && c.created_at_view() == self.created()[name@],
                Err(e) => !self@.contains_key(name@) && e@ == "container not found: "@ + name@,
            },
    {
        proof {
            use_type_invariant(self);
        }
        match self.find(name) {
            Some(i) => {
                proof {
                    lemma_container_index(self.containers@, i as int);
                }
                Ok(&self.containers[i])
            },
            None => Err(container_not_found(name)),
        }
    }

    /// Deletes the container named `name`; deleting a missing container is
    /// not an error.
    pub fn delete_container(&mut self, name: &String)
        ensures
            final(self)@ == old(self)@.remove(name@),
            final(self).created() == old(self).created().remove(name@),
    {
        proof {
            use_type_invariant(&*self);
        }
        match self.find(name) {
            Some(i) => {
                let mut cs: Vec<InMemContainer> = Vec::new();
                std::mem::swap(&mut cs, &mut self.containers);
                proof {
                    lemma_containers_remove(cs@, i as int);
                }
                cs.remove(i);
                self.containers = cs;
            },
            None => {
                assert(self@ =~= self@.remove(name@));
                assert(self.created() =~= self.created().remove(name@));
            },
        }
    }

    /// Whether a container named `name` exists.
    pub fn container_exists(&self, name: &String) -> (res: bool)
        ensures
            res == self@.contains_key(name@),
    {
        self.find(name).is_some()
    }

    /// Applies `op` to the container at `i`.
    fn change_container(&mut self, i: usize, op: ContainerOp)
        requires
            i < old(self).containers@.len(),
        ensures
            ({
                let k = old(self).containers@[i as int].name_view();
                final(self)@ == old(self)@.insert(k, op_result(old(self)@[k], op))
            }),
            final(self).created() == old(self).created(),
            final(self).containers@.len() == old(self).containers@.len(),
            forall|j: int|
                0 <= j < final(self).containers@.len() ==> (#[trigger] final(self).containers@[j]).name_view()
                    == old(self).containers@[j].name_view(),
    {
        proof {
            use_type_invariant(&*self);
            lemma_container_index(self.containers@, i as int);
        }
        let mut cs: Vec<InMemContainer> = Vec::new();
        std::mem::swap(&mut cs, &mut self.containers);
        let ghost before = cs@;
        let mut c = cs.remove(i);
        match op {
            ContainerOp::Write(object, d) => c.write_data(object, d),
            ContainerOp::Delete(object) => c.delete_object(&object),
            ContainerOp::DeleteMany(names) => c.delete_objects(&names),
            ContainerOp::Clear => c.clear(),
        }
        cs.insert(i, c);
        assert(cs@ =~= before.update(i as int, c));
        proof {
            lemma_containers_update(before, i as int, c);
            lemma_container_index(before, i as int);
            assert(containers_created(cs@) =~= containers_created(before));
        }
        self.containers = cs;
    }

    fn change_named(&mut self, container: &String, op: ContainerOp) -> (res: Result<(), String>)
        ensures
            final(self).created() == old(self).created(),
            old(self)@.contains_key(container@) ==> res is Ok && final(self)@ == old(self)@.insert(
                container@,
                op_result(old(self)@[container@], op),
            ),
            !old(self)@.contains_key(container@) ==> res is Err && res->Err_0@ == "container not found: "@
                + container@ && final(self)@ == old(self)@,
    {
        proof {
            use_type_invariant(&*self);
        }
        match self.find(container) {
            Some(i) => {
                proof {
                    lemma_container_index(self.containers@, i as int);
                }
                self.change_container(i, op);
                Ok(())
            },
            None => Err(container_not_found(container)),
        }
    }

    /// Stores `data` under `object` in the container named `container`, or
    /// fails, changing nothing, when there is no such container.
    pub fn write_data(&mut self, container: &String, object: String, data: Vec<u8>) -> (res: Result<(), String>)
        ensures
            final(self).created() == old(self).created(),
            old(self)@.contains_key(container@) ==> res is Ok && final(self)@ == old(self)@.insert(
                container@,
                old(self)@[container@].insert(object@, data@),
            ),
            !old(self)@.contains_key(container@) ==> res is Err && res->Err_0@ == "container not found: "@
                + container@ && final(self)@ == old(self)@,
    {
        self.change_named(container, ContainerOp::Write(object, data))
    }

    /// Deletes `object` from the container named `container` (a missing
    /// object is not an error), or fails, changing nothing, when there is no
    /// such container.
    pub fn delete_object(&mut self, container: &String, object: &String) -> (res: Result<(), String>)
        ensures
            final(self).created() == old(self).created(),
            old(self)@.contains_key(container@) ==> res is Ok && final(self)@ == old(self)@.insert(
                container@,
                old(self)@[container@].remove(object@),
            ),
            !old(self)@.contains_key(container@) ==> res is Err && res->Err_0@ == "container not found: "@
                + container@ && final(self)@ == old(self)@,
    {
        self.change_named(container, ContainerOp::Delete(object.clone()))
    }

    /// Deletes every object named in `names` from the container named
    /// `container`, or fails, changing nothing, when there is no such
    /// container.
    pub fn delete_objects(&mut self, container: &String, names: Vec<String>) -> (res: Result<(), String>)
        ensures
            final(self).created() == old(self).created(),
            old(self)@.contains_key(container@) ==> res is Ok && final(self)@ == old(self)@.insert(
                container@,
                old(self)@[container@].remove_keys(names_set(names@)),
            ),
            !old(self)@.contains_key(container@) ==> res is Err && res->Err_0@ == "container not found: "@
                + container@ && final(self)@ == old(self)@,
    {
        self.change_named(container, ContainerOp::DeleteMany(names))
    }

    /// Removes every object of the container named `container`, or fails,
    /// changing nothing, when there is no such container.
    pub fn clear(&mut self, container: &String) -> (res: Result<(), String>)
        ensures
            final(self).created() == old(self).created(),
            old(self)@.contains_key(container@) ==> res is Ok && final(self)@ == old(self)@.insert(
                container@,
                Map::<Seq<char>, Seq<u8>>::empty(),
            ),
            !old(self)@.contains_key(container@) ==> res is Err && res->Err_0@ == "container not found: "@
                + container@ && final(self)@ == old(self)@,
    {
        self.change_named(container, ContainerOp::Clear)
    }

    /// Copies the object `src` to `dest`, replacing what `dest` held. Fails,
    /// changing nothing, when the source container, the source object or the
    /// destination container does not exist.
    pub fn copy_object(&mut self, src: ObjectId, dest: ObjectId) -> (res: Result<(), String>)
        ensures
            final(self).created() == old(self).created(),
            match transfer_error(old(self)@, id_view(src), id_view(dest)) {
                Some(e) => res is Err && res->Err_0@ == e && final(self)@ == old(self)@,
                None => res is Ok && final(self)@ == copied(old(self)@, id_view(src), id_view(dest)),
            },
    {
        proof {
            use_type_invariant(&*self);
        }
        let si = match self.find(&src.container) {
            Some(i) => i,
            None => return Err(container_not_found(&src.container)),
        };
        proof {
            lemma_container_index(self.containers@, si as int);
        }
        let data = match self.containers[si].get_data(&src.object) {
            Some(d) => d,
            None => return Err(source_not_found(&src)),
        };
        let di = match self.find(&dest.container) {
            Some(i) => i,
            None => return Err(container_not_found(&dest.container)),
        };
        proof {
            lemma_container_index(self.containers@, di as int);
        }
        self.change_container(di, ContainerOp::Write(dest.object, data));
        Ok(())
    }

    /// Moves the object `src` to `dest`: a copy, then a delete of the
    /// source. Moving an object onto itself changes nothing. Fails, changing
    /// nothing, as `copy_object` does.
    pub fn move_object(&mut self, src: ObjectId, dest: ObjectId) -> (res: Result<(), String>)
        ensures
            final(self).created() == old(self).created(),
            id_view(src) == id_view(dest) ==> res is Ok && final(self)@ == old(self)@,
            id_view(src) != id_view(dest) ==> match transfer_error(old(self)@, id_view(src), id_view(dest)) {
                Some(e) => res is Err && res->Err_0@ == e && final(self)@ == old(self)@,
                None => res is Ok && final(self)@ == moved(old(self)@, id_view(src), id_view(dest)),
            },
    {
        if same_object(&src, &dest) {
            assert(id_view(src) =~= id_view(dest));
            return Ok(());
        }
        proof {
            use_type_invariant(&*self);
        }
        let si = match self.find(&src.container) {
            Some(i) => i,
            None => return Err(container_not_found(&src.container)),
        };
        proof {
            lemma_container_index(self.containers@, si as int);
        }
        let data = match self.containers[si].get_data(&src.object) {
            Some(d) => d,
            None => return Err(source_not_found(&src)),
        };
        let di = match self.find(&dest.container) {
            Some(i) => i,
            None => return Err(container_not_found(&dest.container)),
        };
        proof {
            lemma_container_index(self.containers@, di as int);
        }
        self.change_container(di, ContainerOp::Write(dest.object, data));
        proof {
            use_type_invariant(&*self);
            lemma_container_index(self.containers@, si as int);
        }
        self.change_container(si, ContainerOp::Delete(src.object));
        Ok(())
    }
}

/// A copy leaves the source object as it was and gives the destination
/// the source's data; every other object is untouched.
pub proof fn law_copy_keeps_source(
    store: Map<Seq<char>, Map<Seq<char>, Seq<u8>>>,
    src: (Seq<char>, Seq<char>),
    dest: (Seq<char>, Seq<char>),
    other: (Seq<char>, Seq<char>),
)
    requires
        transfer_error(store, src, dest) is None,
        other != dest,
    ensures
        copied(store, src, dest)[dest.0][dest.1] == store[src.0][src.1],
        copied(store, src, dest).contains_key(src.0) && copied(store, src, dest)[src.0].contains_key(src.1),
        src != dest ==> copied(store, src, dest)[src.0][src.1] == store[src.0][src.1],
        copied(store, src, dest).dom() == store.dom(),
        store.contains_key(other.0) ==> (copied(store, src, dest)[other.0].contains_key(other.1)
            == store[other.0].contains_key(other.1)),
        store.contains_key(other.0) && store[other.0].contains_key(other.1) ==> copied(store, src, dest)[other.0][other.1]
            == store[other.0][other.1],
{
    assert(copied(store, src, dest).dom() =~= store.dom());
}

/// A move of an object to another place leaves the data at the
/// destination and nothing at the source; every other object is untouched.
pub proof fn law_move_transfers(
    store: Map<Seq<char>, Map<Seq<char>, Seq<u8>>>,
    src: (Seq<char>, Seq<char>),
    dest: (Seq<char>, Seq<char>),
    other: (Seq<char>, Seq<char>),
)
    requires
        transfer_error(store, src, dest) is None,
        src != dest,
        other != dest,
        other != src,
    ensures
        moved(store, src, dest)[dest.0][dest.1] == store[src.0][src.1],
        !moved(store, src, dest)[src.0].contains_key(src.1),
        moved(store, src, dest).dom() == store.dom(),
        store.contains_key(other.0) ==> (moved(store, src, dest)[other.0].contains_key(other.1)
            == store[other.0].contains_key(other.1)),
        store.contains_key(other.0) && store[other.0].contains_key(other.1) ==> moved(store, src, dest)[other.0][other.1]
            == store[other.0][other.1],
{
    assert(moved(store, src, dest).dom() =~= store.dom());
}

} // verus!

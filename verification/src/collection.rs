//! Id-indexed containers of transit objects, and the bundle of the four
//! collections a rule-application run works on.

use vstd::prelude::*;

use crate::objects::{Codes, EntityModel, Line, model_insert, Route, StopArea, StopPoint};

verus! {

/// The first position whose object has the given id, if any.
pub open spec fn spec_find_id(ms: Seq<EntityModel>, id: Seq<char>) -> Option<int>
    decreases ms.len(),
{
    if ms.len() == 0 {
        None
    } else if ms[0].id == id {
        Some(0)
    } else {
        match spec_find_id(ms.drop_first(), id) {
            None => None,
            Some(j) => Some(j + 1),
        }
    }
}

/// A found position is in range and carries the id that was looked up.
pub proof fn lemma_find_id_some(ms: Seq<EntityModel>, id: Seq<char>, i: int)
    requires
        spec_find_id(ms, id) == Some(i),
    ensures
        0 <= i < ms.len(),
        ms[i].id == id,
    decreases ms.len(),
{
    if ms.len() > 0 && ms[0].id != id {
        match spec_find_id(ms.drop_first(), id) {
            None => {},
            Some(j) => {
                lemma_find_id_some(ms.drop_first(), id, j);
            },
        }
    }
}

/// If no object carries the id, the lookup finds nothing.
proof fn lemma_find_id_none(ms: Seq<EntityModel>, id: Seq<char>)
    requires
        forall|j: int| 0 <= j < ms.len() ==> ms[j].id != id,
    ensures
        spec_find_id(ms, id) is None,
    decreases ms.len(),
{
    if ms.len() > 0 {
        lemma_find_id_none(ms.drop_first(), id);
    }
}

/// The lookup finds the first position carrying the id.
proof fn lemma_find_id_first(ms: Seq<EntityModel>, id: Seq<char>, i: int)
    requires
        0 <= i < ms.len(),
        ms[i].id == id,
        forall|j: int| 0 <= j < i ==> ms[j].id != id,
    ensures
        spec_find_id(ms, id) == Some(i),
    decreases ms.len(),
{
    if i > 0 {
        assert(ms.drop_first()[i - 1].id == id);
        assert(forall|j: int| 0 <= j < i - 1 ==> ms.drop_first()[j].id != id);
        lemma_find_id_first(ms.drop_first(), id, i - 1);
    }
}

/// A typed container of transit objects, looked up by id and mutated in
/// place at a looked-up position.
pub struct CollectionWithId<T> {
    items: Vec<T>,
}

impl<T: Codes> View for CollectionWithId<T> {
    type V = Seq<T>;

    closed spec fn view(&self) -> Seq<T> {
        self.items@
    }
}

impl<T: Codes> CollectionWithId<T> {
    /// The ids and code sets of the contained objects, in order.
    pub open spec fn models(&self) -> Seq<EntityModel> {
        self@.map_values(|t: T| t.model())
    }

    /// An empty collection.
    pub fn new() -> (c: Self)
        ensures
            c.models() == Seq::<EntityModel>::empty(),
    {
        let c = CollectionWithId { items: Vec::new() };
        proof {
            assert(c.models() =~= Seq::<EntityModel>::empty());
        }
        c
    }

    /// How many objects the collection holds.
    pub fn len(&self) -> (n: usize)
        ensures
            n == self.models().len(),
    {
        self.items.len()
    }

    /// Appends one object.
    pub fn push(&mut self, item: T)
        ensures
            final(self).models() == old(self).models().push(item.model()),
    {
        let ghost pre = self.models();
        let ghost m = item.model();
        self.items.push(item);
        proof {
            assert(final(self).models() =~= pre.push(m));
        }
    }

    /// Read access to the object at a position.
    pub fn get(&self, i: usize) -> (r: &T)
        requires
            i < self.models().len(),
        ensures
            r.model() == self.models()[i as int],
    {
        &self.items[i]
    }

    /// The position of the object with the given id, if any.
    pub fn get_idx(&self, id: &String) -> (r: Option<usize>)
        ensures
            match r {
                Some(i) => spec_find_id(self.models(), id@) == Some(i as int),
                None => spec_find_id(self.models(), id@) is None,
            },
    {
        let ghost ms = self.models();
        let mut i: usize = 0;
        while i < self.items.len()
            invariant
                ms == self.models(),
                i <= ms.len(),
                ms.len() == self.items@.len(),
                forall|j: int| 0 <= j < i ==> ms[j].id != id@,
            decreases self.items@.len() - i,
        {
            proof {
                assert(ms[i as int] == self.items@[i as int].model());
            }
            let item_id = self.items[i].id();
            if *item_id == *id {
                proof {
                    lemma_find_id_first(ms, id@, i as int);
                }
                return Some(i);
            }
            i += 1;
        }
        proof {
            lemma_find_id_none(ms, id@);
        }
        None
    }

    /// Attaches one code pair to the object at a position; the other
    /// objects are untouched.
    pub fn insert_code_at(&mut self, i: usize, system: String, code: String)
        requires
            i < old(self).models().len(),
        ensures
            final(self).models() == old(self).models().update(
                i as int,
                model_insert(old(self).models()[i as int], (system@, code@)),
            ),
    {
        let ghost pre = self.models();
        let ghost pair = (system@, code@);
        let mut item = self.items.remove(i);
        item.insert_code_pair(system, code);
        let ghost m = item.model();
        self.items.insert(i, item);
        proof {
            assert(m == model_insert(pre[i as int], pair));
            assert(final(self).models() =~= pre.update(i as int, m));
        }
    }
}

/// The mathematical content of the four collections together.
pub ghost struct CollectionsModel {
    pub lines: Seq<EntityModel>,
    pub routes: Seq<EntityModel>,
    pub stop_points: Seq<EntityModel>,
    pub stop_areas: Seq<EntityModel>,
}

/// The four typed collections a rule-application run mutates.
pub struct Collections {
    pub lines: CollectionWithId<Line>,
    pub routes: CollectionWithId<Route>,
    pub stop_points: CollectionWithId<StopPoint>,
    pub stop_areas: CollectionWithId<StopArea>,
}

impl Collections {
    /// The ids and code sets held by the four collections.
    pub open spec fn model(&self) -> CollectionsModel {
        CollectionsModel {
            lines: self.lines.models(),
            routes: self.routes.models(),
            stop_points: self.stop_points.models(),
            stop_areas: self.stop_areas.models(),
        }
    }

    /// Four empty collections.
    pub fn new() -> (c: Self)
        ensures
            c.model().lines.len() == 0,
            c.model().routes.len() == 0,
            c.model().stop_points.len() == 0,
            c.model().stop_areas.len() == 0,
    {
        Collections {
            lines: CollectionWithId::new(),
            routes: CollectionWithId::new(),
            stop_points: CollectionWithId::new(),
            stop_areas: CollectionWithId::new(),
        }
    }
}

} // verus!

//! The variables of a run: a map from names to values, kept as a list of
//! bindings in which no name stands twice.

use vstd::prelude::*;

verus! {

/// The map that a list of bindings stands for, a later binding of a name
/// replacing an earlier one.
pub open spec fn bindings(names: Seq<String>, values: Seq<Option<i64>>) -> Map<
    Seq<char>,
    Option<i64>,
>
    decreases names.len(),
{
    if names.len() == 0 {
        Map::empty()
    } else {
        bindings(names.drop_last(), values.drop_last()).insert(names.last()@, values.last())
    }
}

/// No name stands twice.
pub open spec fn distinct(names: Seq<String>) -> bool {
    forall|i: int, j: int| 0 <= i < j < names.len() ==> names[i]@ != names[j]@
}

/// A name that stands in the list is bound to the value at its place.
pub proof fn lemma_bindings_lookup(names: Seq<String>, values: Seq<Option<i64>>, i: int)
    requires
        names.len() == values.len(),
        distinct(names),
        0 <= i < names.len(),
    ensures
        bindings(names, values).dom().contains(names[i]@),
        bindings(names, values)[names[i]@] == values[i],
    decreases names.len(),
{
    if i < names.len() - 1 {
        lemma_bindings_lookup(names.drop_last(), values.drop_last(), i);
    }
}

/// A name that stands nowhere in the list is not bound.
pub proof fn lemma_bindings_absent(names: Seq<String>, values: Seq<Option<i64>>, name: Seq<char>)
    requires
        forall|i: int| 0 <= i < names.len() ==> names[i]@ != name,
    ensures
        !bindings(names, values).dom().contains(name),
    decreases names.len(),
{
    if names.len() > 0 {
        lemma_bindings_absent(names.drop_last(), values.drop_last(), name);
    }
}

/// Writing a value at the place of a name binds the name to the value and
/// leaves the other names alone.
pub proof fn lemma_bindings_update(
    names: Seq<String>,
    values: Seq<Option<i64>>,
    i: int,
    value: Option<i64>,
)
    requires
        names.len() == values.len(),
        distinct(names),
        0 <= i < names.len(),
    ensures
        bindings(names, values.update(i, value)) == bindings(names, values).insert(
            names[i]@,
            value,
        ),
    decreases names.len(),
{
    let front = bindings(names.drop_last(), values.drop_last());
    if i < names.len() - 1 {
        lemma_bindings_update(names.drop_last(), values.drop_last(), i, value);
        assert(values.update(i, value).drop_last() =~= values.drop_last().update(i, value));
        assert(front.insert(names[i]@, value).insert(names.last()@, values.last()) =~= front.insert(
            names.last()@,
            values.last(),
        ).insert(names[i]@, value));
    } else {
        assert(values.update(i, value).drop_last() =~= values.drop_last());
        assert(front.insert(names[i]@, value) =~= front.insert(names[i]@, values[i]).insert(
            names[i]@,
            value,
        ));
    }
}

/// The variables of a run.
pub struct VariableTable {
    names: Vec<String>,
    values: Vec<Option<i64>>,
}

impl View for VariableTable {
    type V = Map<Seq<char>, Option<i64>>;

    closed spec fn view(&self) -> Map<Seq<char>, Option<i64>> {
        bindings(self.names@, self.values@)
    }
}

impl VariableTable {
    /// Every name has its value and stands once.
    pub closed spec fn wf(&self) -> bool {
        self.names@.len() == self.values@.len() && distinct(self.names@)
    }

    /// A table without variables.
    pub fn new() -> (table: Self)
        ensures
            table.wf(),
            table@ == Map::<Seq<char>, Option<i64>>::empty(),
    {
        Self { names: Vec::new(), values: Vec::new() }
    }

    /// The place of `name` in the list.
    fn find(&self, name: &String) -> (place: Option<usize>)
        requires
            self.wf(),
        ensures
            match place {
                Some(i) => i < self.names@.len() && self.names@[i as int]@ == name@,
                None => forall|i: int| 0 <= i < self.names@.len() ==> self.names@[i]@ != name@,
            },
    {
        let mut i: usize = 0;
        while i < self.names.len()
            invariant
                i <= self.names@.len(),
                forall|j: int| 0 <= j < i ==> self.names@[j]@ != name@,
            decreases self.names@.len() - i,
        {
            if self.names[i] == *name {
                return Some(i);
            }
            i += 1;
        }
        None
    }

    /// What `name` is bound to, if it is bound.
    pub fn get(&self, name: &String) -> (value: Option<Option<i64>>)
        requires
            self.wf(),
        ensures
            value == if self@.dom().contains(name@) {
                Some(self@[name@])
            } else {
                None
            },
    {
        match self.find(name) {
            Some(i) => {
                proof {
                    lemma_bindings_lookup(self.names@, self.values@, i as int);
                }
                Some(self.values[i])
            },
            None => {
                proof {
                    lemma_bindings_absent(self.names@, self.values@, name@);
                }
                None
            },
        }
    }

    /// Binds `name` to `value`, in place of what it was bound to.
    pub fn insert(&mut self, name: String, value: Option<i64>)
        requires
            old(self).wf(),
        ensures
            final(self).wf(),
            final(self)@ == old(self)@.insert(name@, value),
    {
        match self.find(&name) {
            Some(i) => {
                proof {
                    lemma_bindings_update(self.names@, self.values@, i as int, value);
                }
                self.values.set(i, value);
            },
            None => {
                self.names.push(name);
                self.values.push(value);
                proof {
                    assert(self.names@.drop_last() =~= old(self).names@);
                    assert(self.values@.drop_last() =~= old(self).values@);
                }
            },
        }
    }
}

} // verus!

use vstd::prelude::*;

verus! {

/// A value together with the unit it is given in.
#[derive(Debug, Clone)]
pub struct UnitValue<T> {
    pub value: T,
    pub unit: String,
}

impl<T> UnitValue<T> {
    pub fn new(value: T, unit: String) -> (made: Self)
        ensures
            made.value == value,
            made.unit == unit,
    {
        Self { value, unit }
    }
}

/// The values of one channel at one moment, by field name. A value is kept
/// as the decimal text it is written out with.
#[derive(Debug, Clone)]
pub struct Reading {
    entries: Vec<(String, UnitValue<String>)>,
}

/// The mapping that a list of entries stands for: a later entry replaces an
/// earlier one of the same name.
pub open spec fn entries_map(entries: Seq<(String, UnitValue<String>)>) -> Map<
    Seq<char>,
    (Seq<char>, Seq<char>),
>
    decreases entries.len(),
{
    if entries.len() == 0 {
        Map::empty()
    } else {
        entries_map(entries.drop_last()).insert(
            entries.last().0@,
            (entries.last().1.value@, entries.last().1.unit@),
        )
    }
}

impl View for Reading {
    type V = Map<Seq<char>, (Seq<char>, Seq<char>)>;

    /// From field name to the value's text and its unit.
    closed spec fn view(&self) -> Map<Seq<char>, (Seq<char>, Seq<char>)> {
        entries_map(self.entries@)
    }
}

impl Reading {
    pub fn new() -> (reading: Self)
        ensures
            reading@ == Map::<Seq<char>, (Seq<char>, Seq<char>)>::empty(),
    {
        Reading { entries: Vec::new() }
    }

    /// Sets the value of `name`, replacing the one it had.
    pub fn insert(&mut self, name: String, value: UnitValue<String>)
        ensures
            final(self)@ == old(self)@.insert(name@, (value.value@, value.unit@)),
    {
        let ghost before = self.entries@;
        self.entries.push((name, value));
        assert(self.entries@.drop_last() =~= before);
    }

    /// The value of `name`, if the reading has one.
    pub fn get(&self, name: &String) -> (found: Option<&UnitValue<String>>)
        ensures
            found is Some == self@.contains_key(name@),
            found matches Some(v) ==> self@[name@] == (v.value@, v.unit@),
    {
        let mut i: usize = self.entries.len();
        assert(self.entries@.take(i as int) =~= self.entries@);
        while i > 0
            invariant
                i <= self.entries.len(),
                self@.contains_key(name@) == entries_map(self.entries@.take(i as int)).contains_key(
                    name@,
                ),
                self@.contains_key(name@) ==> self@[name@] == entries_map(
                    self.entries@.take(i as int),
                )[name@],
            decreases i,
        {
            assert(self.entries@.take(i as int).drop_last() =~= self.entries@.take(i - 1));
            i -= 1;
            if self.entries[i].0 == *name {
                return Some(&self.entries[i].1);
            }
        }
        None
    }
}

} // verus!

//! Tab-completion choices: the values of each positional slot, and the values of each
//! `key=value` argument.

use vstd::prelude::*;

use crate::text;
use crate::text::text_eq;

verus! {

/// The texts of each slot.
pub open spec fn slot_views(slots: Seq<Vec<&'static str>>) -> Seq<Seq<Seq<char>>> {
    slots.map_values(|v: Vec<&'static str>| text::str_views(v@))
}

/// The texts of each slot, as they are declared.
pub open spec fn declared_views(slots: Seq<&[&'static str]>) -> Seq<Seq<Seq<char>>> {
    slots.map_values(|v: &[&'static str]| text::str_views(v@))
}

/// The choices of a slot; none beyond the last.
pub open spec fn slot_at(slots: Seq<Seq<Seq<char>>>, i: nat) -> Seq<Seq<char>> {
    if i < slots.len() {
        slots[i as int]
    } else {
        Seq::empty()
    }
}

/// An owned copy of a list of choices.
pub fn copy_choices(choices: &[&'static str]) -> (r: Vec<&'static str>)
    ensures
        r@ == choices@,
{
    let mut out: Vec<&'static str> = Vec::new();
    let mut i: usize = 0;
    while i < choices.len()
        invariant
            i <= choices.len(),
            out@ == choices@.take(i as int),
        decreases choices.len() - i,
    {
        out.push(choices[i]);
        assert(choices@.take(i + 1) =~= choices@.take(i as int).push(choices@[i as int]));
        i += 1;
    }
    assert(choices@.take(choices@.len() as int) =~= choices@);
    out
}

/// An owned copy of a list of slots.
pub fn copy_slots(slots: &[&[&'static str]]) -> (r: Vec<Vec<&'static str>>)
    ensures
        slot_views(r@) == declared_views(slots@),
{
    let mut out: Vec<Vec<&'static str>> = Vec::new();
    let mut i: usize = 0;
    while i < slots.len()
        invariant
            i <= slots.len(),
            slot_views(out@) == declared_views(slots@.take(i as int)),
        decreases slots.len() - i,
    {
        let ghost before = out@;
        out.push(copy_choices(slots[i]));
        assert(slots@.take(i + 1) =~= slots@.take(i as int).push(slots@[i as int]));
        assert(slot_views(out@) =~= slot_views(before).push(text::str_views(slots@[i as int]@)));
        assert(declared_views(slots@.take(i + 1)) =~= declared_views(slots@.take(i as int)).push(
            text::str_views(slots@[i as int]@),
        ));
        i += 1;
    }
    assert(slots@.take(slots@.len() as int) =~= slots@);
    out
}

/// The choices of slot `i`.
pub fn slot<'a>(slots: &'a Vec<Vec<&'static str>>, i: usize) -> (r: &'a [&'static str])
    ensures
        text::str_views(r@) == slot_at(slot_views(slots@), i as nat),
{
    if i < slots.len() {
        slots[i].as_slice()
    } else {
        let none: &[&'static str] = &[];
        assert(text::str_views(none@) =~= Seq::<Seq<char>>::empty());
        none
    }
}

/// No choices.
pub fn no_choices() -> (r: &'static [&'static str])
    ensures
        text::str_views(r@) == Seq::<Seq<char>>::empty(),
{
    let none: &'static [&'static str] = &[];
    assert(text::str_views(none@) =~= Seq::<Seq<char>>::empty());
    none
}

/// The values of `key=value` arguments, by bare key. Declaring a key again replaces its
/// values.
pub struct ValueTable {
    pub pairs: Vec<(&'static str, Vec<&'static str>)>,
}

/// The map that a list of declarations amounts to.
pub open spec fn declared(pairs: Seq<(&'static str, Vec<&'static str>)>) -> Map<
    Seq<char>,
    Seq<Seq<char>>,
>
    decreases pairs.len(),
{
    if pairs.len() == 0 {
        Map::empty()
    } else {
        declared(pairs.drop_last()).insert(
            pairs.last().0@,
            text::str_views(pairs.last().1@),
        )
    }
}

impl View for ValueTable {
    type V = Map<Seq<char>, Seq<Seq<char>>>;

    open spec fn view(&self) -> Map<Seq<char>, Seq<Seq<char>>> {
        declared(self.pairs@)
    }
}

/// The values declared for a key; none for a key that was not declared.
pub open spec fn values_of(table: Map<Seq<char>, Seq<Seq<char>>>, key: Seq<char>) -> Seq<
    Seq<char>,
> {
    if table.dom().contains(key) {
        table[key]
    } else {
        Seq::empty()
    }
}

impl ValueTable {
    pub fn new() -> (r: ValueTable)
        ensures
            r@ == Map::<Seq<char>, Seq<Seq<char>>>::empty(),
    {
        ValueTable { pairs: Vec::new() }
    }

    pub fn insert(&mut self, key: &'static str, values: &[&'static str])
        ensures
            final(self)@ == old(self)@.insert(key@, text::str_views(values@)),
    {
        let ghost before = self.pairs@;
        self.pairs.push((key, copy_choices(values)));
        assert(self.pairs@.drop_last() =~= before);
    }

    pub fn get<'a>(&'a self, key: &str) -> (r: &'a [&'static str])
        ensures
            text::str_views(r@) == values_of(self@, key@),
    {
        let mut i: usize = self.pairs.len();
        assert(self.pairs@.take(i as int) =~= self.pairs@);
        while i > 0
            invariant
                i <= self.pairs.len(),
                values_of(self@, key@) == values_of(declared(self.pairs@.take(i as int)), key@),
            decreases i,
        {
            let ghost t = self.pairs@.take(i as int);
            assert(t.drop_last() =~= self.pairs@.take(i - 1));
            assert(t.last() == self.pairs@[i - 1]);
            if text_eq(self.pairs[i - 1].0, key) {
                return self.pairs[i - 1].1.as_slice();
            }
            i -= 1;
        }
        no_choices()
    }
}

// ---------------------------------------------------------------------------
// Laws
// ---------------------------------------------------------------------------

/// The values that are found under a key are those that were put there last; other keys keep
/// theirs, and a key that nothing was put under has none.
pub proof fn values_are_found_under_their_key()
    ensures
        forall|
            t: &mut ValueTable,
            key: &'static str,
            values: &[&'static str],
            u: (),
            after: &ValueTable,
            asked: &str,
            r: &[&'static str],
        |
            #![trigger call_ensures(ValueTable::insert, (t, key, values), u), call_ensures(
                ValueTable::get,
                (after, asked),
                r,
            )]
            call_ensures(ValueTable::insert, (t, key, values), u) && call_ensures(
                ValueTable::get,
                (after, asked),
                r,
            ) && after@ == (*final(t))@ ==> {
                &&& asked@ == key@ ==> text::str_views(r@) == text::str_views(values@)
                &&& asked@ != key@ && (*t)@.dom().contains(asked@) ==> text::str_views(r@) == (
                *t)@[asked@]
                &&& asked@ != key@ && !(*t)@.dom().contains(asked@) ==> r@.len() == 0
            },
{
    assert forall|r: &[&'static str]| text::str_views(r@).len() == r@.len() by {}
}

} // verus!

use vstd::prelude::*;

verus! {

/// A key as the shutdown listener sees it.
#[derive(Clone, Copy, Debug, PartialEq, Eq, Structural)]
pub enum Key {
    Alt,
    Char(char),
    Other,
}

/// Every key of `chord` is among the keys held down.
pub open spec fn chord_in(pressed: Seq<Key>, chord: Seq<Key>) -> bool {
    forall|i: int| 0 <= i < chord.len() ==> pressed.contains(#[trigger] chord[i])
}

fn holds_key(pressed: &Vec<Key>, k: Key) -> (r: bool)
    ensures
        r == pressed@.contains(k),
{
    let mut i: usize = 0;
    while i < pressed.len()
        invariant
            0 <= i <= pressed.len(),
            forall|j: int| 0 <= j < i ==> pressed@[j] != k,
        decreases pressed.len() - i,
    {
        if pressed[i] == k {
            return true;
        }
        i = i + 1;
    }
    false
}

/// Whether the operator holds the whole shutdown chord down.
pub fn chord_held(pressed: &Vec<Key>, chord: &Vec<Key>) -> (r: bool)
    ensures
        r == chord_in(pressed@, chord@),
{
    let mut i: usize = 0;
    while i < chord.len()
        invariant
            0 <= i <= chord.len(),
            forall|j: int| 0 <= j < i ==> pressed@.contains(#[trigger] chord@[j]),
        decreases chord.len() - i,
    {
        if !holds_key(pressed, chord[i]) {
            return false;
        }
        i = i + 1;
    }
    true
}

} // verus!

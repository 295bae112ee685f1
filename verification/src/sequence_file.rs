//! A file of sequences: main sequences and sub-sequences, each kept under
//! its name.
use vstd::prelude::*;
use crate::map::StrMap;
use crate::workflow::Sequence;

verus! {

/// The main sequences and the sub-sequences of a file, by name.
#[derive(Debug)]
pub struct SequenceFile {
    pub main_sequences: StrMap<Sequence>,
    pub sub_sequences: StrMap<Sequence>,
}

/// A file as two maps from names to sequences.
pub ghost struct SequenceFileV {
    pub main: Map<Seq<char>, Sequence>,
    pub sub: Map<Seq<char>, Sequence>,
}

impl View for SequenceFile {
    type V = SequenceFileV;

    open spec fn view(&self) -> SequenceFileV {
        SequenceFileV { main: self.main_sequences@, sub: self.sub_sequences@ }
    }
}

/// What a lookup by name finds in `m`.
pub open spec fn found(m: Map<Seq<char>, Sequence>, name: Seq<char>, r: Option<&Sequence>) -> bool {
    match r {
        Some(s) => m.contains_key(name) && *s == m[name],
        None => !m.contains_key(name),
    }
}

impl SequenceFile {
    /// A file without sequences.
    pub fn empty() -> (f: Self)
        ensures
            f@.main == Map::<Seq<char>, Sequence>::empty(),
            f@.sub == Map::<Seq<char>, Sequence>::empty(),
    {
        SequenceFile { main_sequences: StrMap::new(), sub_sequences: StrMap::new() }
    }

    /// The main sequence named `name`.
    pub fn get_main(&self, name: &str) -> (r: Option<&Sequence>)
        ensures
            found(self@.main, name@, r),
    {
        self.main_sequences.get(name)
    }

    /// The sub-sequence named `name`.
    pub fn get_sub(&self, name: &str) -> (r: Option<&Sequence>)
        ensures
            found(self@.sub, name@, r),
    {
        self.sub_sequences.get(name)
    }

    /// Stores `seq` as a main sequence under its name, replacing any main
    /// sequence of that name.
    pub fn insert_main(&mut self, seq: Sequence)
        ensures
            final(self)@.main == old(self)@.main.insert(seq.sequence_name@, seq),
            final(self)@.sub == old(self)@.sub,
    {
        let name = seq.sequence_name.clone();
        self.main_sequences.insert(name, seq);
    }

    /// Stores `seq` as a sub-sequence under its name, replacing any
    /// sub-sequence of that name.
    pub fn insert_sub(&mut self, seq: Sequence)
        ensures
            final(self)@.sub == old(self)@.sub.insert(seq.sequence_name@, seq),
            final(self)@.main == old(self)@.main,
    {
        let name = seq.sequence_name.clone();
        self.sub_sequences.insert(name, seq);
    }

    /// Takes out the main sequence named `name`.
    pub fn remove_main(&mut self, name: &str) -> (r: Option<Sequence>)
        ensures
            final(self)@.main == old(self)@.main.remove(name@),
            final(self)@.sub == old(self)@.sub,
            r is Some == old(self)@.main.contains_key(name@),
            r matches Some(s) ==> s == old(self)@.main[name@],
    {
        self.main_sequences.remove(name)
    }
}

/// A lookup after a store finds the stored sequence under its name, and
/// under any other name what was there before.
pub proof fn law_get_after_insert(m: Map<Seq<char>, Sequence>, seq: Sequence, name: Seq<char>)
    ensures
        m.insert(seq.sequence_name@, seq).contains_key(name) == (name == seq.sequence_name@ || m.contains_key(
            name,
        )),
        name == seq.sequence_name@ ==> m.insert(seq.sequence_name@, seq)[name] == seq,
        name != seq.sequence_name@ ==> m.insert(seq.sequence_name@, seq)[name] == m[name],
{
}

/// Storing a main sequence adds one name to the file exactly when no main
/// sequence had that name; the number of sub-sequences stays.
pub proof fn law_count_after_insert(f: SequenceFile, seq: Sequence)
    ensures
        f@.main.dom().finite(),
        f@.main.insert(seq.sequence_name@, seq).len() == f@.main.len() + (if f@.main.contains_key(
            seq.sequence_name@,
        ) {
            0int
        } else {
            1int
        }),
{
    f.main_sequences.lemma_view_entries();
    assert(f@.main.insert(seq.sequence_name@, seq).dom() =~= f@.main.dom().insert(seq.sequence_name@));
}

/// After a main sequence is taken out, a lookup of its name finds nothing,
/// and other names are untouched; taking it out again finds nothing.
pub proof fn law_get_after_remove(m: Map<Seq<char>, Sequence>, name: Seq<char>, other: Seq<char>)
    ensures
        !m.remove(name).contains_key(name),
        other != name ==> m.remove(name).contains_key(other) == m.contains_key(other),
        other != name && m.contains_key(other) ==> m.remove(name)[other] == m[other],
        m.remove(name).remove(name) == m.remove(name),
{
    assert(m.remove(name).remove(name) =~= m.remove(name));
}

} // verus!

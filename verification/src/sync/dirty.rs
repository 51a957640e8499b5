//! Which pull requests have changed, by repository.

use vstd::prelude::*;

use crate::text::same;

verus! {

/// The numbers of the pull requests that have changed, by the owner and the name of their
/// repository.
pub struct PrTable {
    entries: Vec<(String, String, Vec<i64>)>,
}

/// What entries come to: of two for one repository the later one counts.
pub closed spec fn entries_view(entries: Seq<(String, String, Vec<i64>)>) -> Map<
    (Seq<char>, Seq<char>),
    Seq<i64>,
>
    decreases entries.len(),
{
    if entries.len() == 0 {
        Map::empty()
    } else {
        let e = entries.last();
        entries_view(entries.drop_last()).insert((e.0@, e.1@), e.2.deep_view())
    }
}

impl DeepView for PrTable {
    type V = Map<(Seq<char>, Seq<char>), Seq<i64>>;

    closed spec fn deep_view(&self) -> Map<(Seq<char>, Seq<char>), Seq<i64>> {
        entries_view(self.entries@)
    }
}

/// The numbers for a repository; none for one that is not in the table.
pub open spec fn numbers_for(
    table: Map<(Seq<char>, Seq<char>), Seq<i64>>,
    owner: Seq<char>,
    name: Seq<char>,
) -> Seq<i64> {
    if table.dom().contains((owner, name)) {
        table[(owner, name)]
    } else {
        Seq::empty()
    }
}

/// The table with one more number for a repository.
pub open spec fn with_number(
    table: Map<(Seq<char>, Seq<char>), Seq<i64>>,
    owner: Seq<char>,
    name: Seq<char>,
    number: i64,
) -> Map<(Seq<char>, Seq<char>), Seq<i64>> {
    table.insert((owner, name), numbers_for(table, owner, name).push(number))
}

proof fn lemma_entries_append(
    a: Seq<(String, String, Vec<i64>)>,
    b: Seq<(String, String, Vec<i64>)>,
)
    ensures
        entries_view(a + b) == entries_view(a).union_prefer_right(entries_view(b)),
    decreases b.len(),
{
    if b.len() == 0 {
        assert(a + b =~= a);
        assert(entries_view(a) =~= entries_view(a).union_prefer_right(entries_view(b)));
    } else {
        assert((a + b).drop_last() =~= a + b.drop_last());
        assert((a + b).last() == b.last());
        lemma_entries_append(a, b.drop_last());
        assert(entries_view(a + b) =~= entries_view(a).union_prefer_right(entries_view(b)));
    }
}

/// Adds a number at the end of a list.
pub fn push_number(numbers: &mut Vec<i64>, number: i64)
    ensures
        final(numbers).deep_view() == old(numbers).deep_view().push(number),
{
    numbers.push(number);
    assert(numbers.deep_view() =~= old(numbers).deep_view().push(number));
}

/// A copy of a list of numbers.
pub fn copy_numbers(numbers: &Vec<i64>) -> (r: Vec<i64>)
    ensures
        r.deep_view() == numbers.deep_view(),
{
    let mut out: Vec<i64> = Vec::new();
    let mut i: usize = 0;
    while i < numbers.len()
        invariant
            i <= numbers.len(),
            out.deep_view() == numbers.deep_view().take(i as int),
        decreases numbers.len() - i,
    {
        push_number(&mut out, numbers[i]);
        assert(numbers.deep_view().take(i + 1) =~= numbers.deep_view().take(i as int).push(
            numbers@[i as int],
        ));
        i += 1;
    }
    assert(numbers.deep_view().take(i as int) =~= numbers.deep_view());
    out
}

/// An empty list of numbers.
pub fn no_numbers() -> (r: Vec<i64>)
    ensures
        r.deep_view() == Seq::<i64>::empty(),
{
    let r: Vec<i64> = Vec::new();
    assert(r.deep_view() =~= Seq::<i64>::empty());
    r
}

impl PrTable {
    /// The empty table.
    pub fn new() -> (r: PrTable)
        ensures
            r.deep_view() == Map::<(Seq<char>, Seq<char>), Seq<i64>>::empty(),
    {
        PrTable { entries: Vec::new() }
    }

    /// The numbers for a repository; none for one that is not in the table.
    pub fn numbers(&self, owner: &str, name: &str) -> (r: Vec<i64>)
        ensures
            r.deep_view() == numbers_for(self.deep_view(), owner@, name@),
    {
        let mut found: Vec<i64> = no_numbers();
        let mut i: usize = 0;
        while i < self.entries.len()
            invariant
                i <= self.entries.len(),
                found.deep_view() == numbers_for(
                    entries_view(self.entries@.take(i as int)),
                    owner@,
                    name@,
                ),
            decreases self.entries.len() - i,
        {
            proof {
                let next = self.entries@.take(i + 1);
                assert(next.drop_last() =~= self.entries@.take(i as int));
                assert(next.last() == self.entries@[i as int]);
            }
            let e: &(String, String, Vec<i64>) = &self.entries[i];
            if same(e.0.as_str(), owner) && same(e.1.as_str(), name) {
                found = copy_numbers(&e.2);
            }
            i += 1;
        }
        assert(self.entries@.take(i as int) =~= self.entries@);
        found
    }

    /// Adds a number for a repository.
    pub fn push(&mut self, owner: &str, name: &str, number: i64)
        ensures
            final(self).deep_view() == with_number(old(self).deep_view(), owner@, name@, number),
    {
        let mut numbers: Vec<i64> = self.numbers(owner, name);
        push_number(&mut numbers, number);
        let ghost before = self.entries@;
        self.entries.push((owner.to_owned(), name.to_owned(), numbers));
        assert(self.entries@.drop_last() =~= before);
    }

    /// Takes over all entries of another table, in place of its own for the same
    /// repositories.
    pub fn absorb(&mut self, mut other: PrTable)
        ensures
            final(self).deep_view() == old(self).deep_view().union_prefer_right(other.deep_view()),
    {
        proof {
            lemma_entries_append(self.entries@, other.entries@);
        }
        self.entries.append(&mut other.entries);
    }
}

} // verus!

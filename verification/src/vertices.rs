//! The vertices of a path: every address that it touches, once, in ascending
//! order of their numbers.

use vstd::prelude::*;
use vstd::string::StringExecFns;

use crate::address::canonical_number;
use crate::address::read_canonical;
use crate::flow_matrix::FlowError;
use crate::flow_matrix::StepView;
use crate::flow_matrix::TransferStep;
use crate::flow_matrix::canonical_steps;
use crate::flow_matrix::lower_steps;
use crate::flow_matrix::step_views;
use crate::text::lowercase;
use crate::text::lowercase_of;
use crate::word::Word;

verus! {

/// The largest number of vertices that coordinates of 16 bits can tell apart.
pub const MAX_VERTICES: usize = 65536;

/// One of the three addresses of a transfer step: its sender for part 0, its
/// receiver for part 1 and the owner of its token for every other part.
pub open spec fn step_address(step: StepView, part: int) -> Seq<char> {
    if part == 0 {
        step.from
    } else if part == 1 {
        step.to
    } else {
        step.token_owner
    }
}

/// The addresses that a path touches, in the order in which they are read: the
/// source, the sink, then sender, receiver and token owner of each transfer.
pub open spec fn touched(from: Seq<char>, to: Seq<char>, transfers: Seq<StepView>) -> Seq<
    Seq<char>,
> {
    Seq::new(
        2 + 3 * transfers.len(),
        |k: int|
            if k == 0 {
                from
            } else if k == 1 {
                to
            } else {
                step_address(transfers[(k - 2) / 3], (k - 2) % 3)
            },
    )
}

/// Whether the addresses are valid: each has a number, and no two of them
/// spell one number in different ways.
pub open spec fn all_valid(addresses: Seq<Seq<char>>) -> bool {
    &&& forall|k: int|
        0 <= k < addresses.len() ==> (#[trigger] canonical_number(addresses[k])) is Some
    &&& forall|j: int, k: int|
        0 <= j < addresses.len() && 0 <= k < addresses.len() && canonical_number(
            #[trigger] addresses[j],
        ) == canonical_number(#[trigger] addresses[k]) ==> addresses[j] == addresses[k]
}

/// Whether the numbers stand in strictly ascending order.
pub open spec fn ascending(numbers: Seq<nat>) -> bool {
    forall|i: int, j: int| 0 <= i < j < numbers.len() ==> numbers[i] < numbers[j]
}

/// The texts of some strings.
pub open spec fn texts_of(strings: Seq<String>) -> Seq<Seq<char>> {
    Seq::new(strings.len(), |i: int| strings[i]@)
}

/// The values of some words.
pub open spec fn values_of(words: Seq<Word>) -> Seq<nat> {
    Seq::new(words.len(), |i: int| words[i].value())
}

/// Whether the vertex at `i` is one of the addresses.
pub open spec fn stems_from(vertices: Seq<Seq<char>>, addresses: Seq<Seq<char>>, i: int) -> bool {
    exists|k: int| 0 <= k < addresses.len() && vertices[i] == #[trigger] addresses[k]
}

/// Whether the address at `k` is one of the vertices.
pub open spec fn listed(vertices: Seq<Seq<char>>, addresses: Seq<Seq<char>>, k: int) -> bool {
    exists|i: int| 0 <= i < vertices.len() && #[trigger] vertices[i] == addresses[k]
}

/// Whether `vertices` is the vertex list of the addresses: the addresses, each
/// once, in strictly ascending order of their numbers.
pub open spec fn is_vertex_list(vertices: Seq<Seq<char>>, addresses: Seq<Seq<char>>) -> bool {
    &&& forall|i: int|
        0 <= i < vertices.len() ==> (#[trigger] canonical_number(vertices[i])) is Some
    &&& ascending(numbers_of(vertices))
    &&& forall|i: int| 0 <= i < vertices.len() ==> #[trigger] stems_from(vertices, addresses, i)
    &&& forall|k: int| 0 <= k < addresses.len() ==> #[trigger] listed(vertices, addresses, k)
}

/// The numbers of a vertex list, in its order.
pub open spec fn numbers_of(vertices: Seq<Seq<char>>) -> Seq<nat> {
    Seq::new(vertices.len(), |i: int| canonical_number(vertices[i]).unwrap())
}

/// The first place in ascending words at which a word is not below the one
/// given: the place of the word where it is among them, and else the place at
/// which it would keep them ascending.
pub fn lower_bound(words: &Vec<Word>, target: &Word) -> (at: usize)
    requires
        ascending(values_of(words@)),
    ensures
        at <= words@.len(),
        forall|i: int| 0 <= i < at ==> (#[trigger] words@[i]).value() < target.value(),
        forall|i: int|
            at <= i < words@.len() ==> (#[trigger] words@[i]).value() >= target.value(),
{
    let mut low: usize = 0;
    let mut high: usize = words.len();
    while low < high
        invariant
            low <= high <= words@.len(),
            ascending(values_of(words@)),
            forall|i: int| 0 <= i < low ==> (#[trigger] words@[i]).value() < target.value(),
            forall|i: int|
                high <= i < words@.len() ==> (#[trigger] words@[i]).value() >= target.value(),
        decreases high - low,
    {
        let middle: usize = low + (high - low) / 2;
        if words[middle].below(target) {
            proof {
                assert forall|i: int| 0 <= i < middle + 1 implies (#[trigger] words@[i]).value()
                    < target.value() by {
                    if i < middle {
                        assert(values_of(words@)[i] < values_of(words@)[middle as int]);
                    }
                }
            }
            low = middle + 1;
        } else {
            proof {
                assert forall|i: int| middle <= i < words@.len() implies (
                #[trigger] words@[i]).value() >= target.value() by {
                    if i > middle {
                        assert(values_of(words@)[middle as int] < values_of(words@)[i]);
                    }
                }
            }
            high = middle;
        }
    }
    low
}

/// The coordinates of a vertex list: for each number its place in the list.
pub struct VertexIndex {
    numbers: Vec<Word>,
}

impl VertexIndex {
    /// The numbers of the vertices, in the order of their coordinates.
    pub closed spec fn view(&self) -> Seq<nat> {
        values_of(self.numbers@)
    }

    /// Whether the numbers ascend and each has a coordinate of 16 bits.
    pub open spec fn wf(&self) -> bool {
        &&& ascending(self@)
        &&& self@.len() <= MAX_VERTICES
    }

    /// The number of vertices.
    pub fn len(&self) -> (count: usize)
        ensures
            count == self@.len(),
    {
        self.numbers.len()
    }

    /// The coordinate of the vertex with the number given, if there is one.
    pub fn coordinate(&self, number: &Word) -> (found: Option<u16>)
        requires
            self.wf(),
        ensures
            match found {
                Some(at) => at < self@.len() && self@[at as int] == number.value(),
                None => !self@.contains(number.value()),
            },
    {
        let at = lower_bound(&self.numbers, number);
        if at < self.numbers.len() && self.numbers[at].same(number) {
            Some(at as u16)
        } else {
            proof {
                assert forall|i: int| 0 <= i < self@.len() implies self@[i] != number.value() by {
                    assert(self@[i] == self.numbers@[i].value());
                    if at < self.numbers@.len() && i > at {
                        assert(self@[at as int] < self@[i]);
                    }
                }
            }
            None
        }
    }
}

/// The vertices found so far, while the addresses of a path are read.
struct Table {
    numbers: Vec<Word>,
    texts: Vec<String>,
    origin: Ghost<Seq<int>>,
}

impl Table {
    /// Whether the address at `k` is among the texts of the table.
    spec fn covers(&self, addresses: Seq<Seq<char>>, k: int) -> bool {
        exists|i: int| 0 <= i < self.texts@.len() && (#[trigger] self.texts@[i])@ == addresses[k]
    }

    /// Whether the table holds the vertex list of the first `read` addresses,
    /// with `origin` naming for each vertex an address that it came from.
    spec fn holds(&self, addresses: Seq<Seq<char>>, read: int) -> bool {
        &&& 0 <= read <= addresses.len()
        &&& self.numbers@.len() == self.texts@.len()
        &&& self.numbers@.len() == self.origin@.len()
        &&& ascending(values_of(self.numbers@))
        &&& forall|i: int|
            0 <= i < self.origin@.len() ==> {
                let k = #[trigger] self.origin@[i];
                &&& 0 <= k < read
                &&& self.texts@[i]@ == addresses[k]
                &&& canonical_number(addresses[k]) == Some(self.numbers@[i].value())
            }
        &&& forall|k: int| 0 <= k < read ==> #[trigger] self.covers(addresses, k)
    }

    /// A table that has read nothing.
    fn new(Ghost(addresses): Ghost<Seq<Seq<char>>>) -> (table: Table)
        ensures
            table.holds(addresses, 0),
            table.numbers@.len() == 0,
    {
        Table { numbers: Vec::new(), texts: Vec::new(), origin: Ghost(Seq::empty()) }
    }

    /// Reads the next address. Where it has no number, or spells the number of
    /// a vertex in another way, the addresses are not valid.
    fn read(
        &mut self,
        text: &str,
        Ghost(addresses): Ghost<Seq<Seq<char>>>,
        Ghost(at): Ghost<int>,
    ) -> (valid: bool)
        requires
            old(self).holds(addresses, at),
            at < addresses.len(),
            addresses[at] == text@,
        ensures
            valid ==> final(self).holds(addresses, at + 1),
            !valid ==> !all_valid(addresses),
    {
        match read_canonical(text) {
            None => {
                proof {
                    assert(canonical_number(addresses[at]) is None);
                }
                false
            },
            Some(number) => {
                let canonical = String::from_str(text);
                let place = lower_bound(&self.numbers, &number);
                let ghost before = *self;
                if place < self.numbers.len() && self.numbers[place].same(&number) {
                    if self.texts[place] == canonical {
                        proof {
                            assert forall|k: int| 0 <= k < at + 1 implies #[trigger] self.covers(
                                addresses,
                                k,
                            ) by {
                                if k == at {
                                    assert(self.texts@[place as int]@ == addresses[k]);
                                } else {
                                    assert(before.covers(addresses, k));
                                }
                            }
                        }
                        true
                    } else {
                        proof {
                            let first = self.origin@[place as int];
                            assert(canonical_number(addresses[first]) == canonical_number(
                                addresses[at],
                            ));
                            assert(addresses[first] != addresses[at]);
                        }
                        false
                    }
                } else {
                    proof {
                        assert forall|i: int| place <= i < self.numbers@.len() implies (
                        #[trigger] self.numbers@[i]).value() > number.value() by {
                            if i > place {
                                assert(values_of(self.numbers@)[place as int] < values_of(
                                    self.numbers@,
                                )[i]);
                            }
                        }
                    }
                    self.numbers.insert(place, number);
                    self.texts.insert(place, canonical);
                    proof {
                        let origin = self.origin@.insert(place as int, at);
                        before.numbers@.insert_ensures(place as int, number);
                        before.texts@.insert_ensures(place as int, canonical);
                        before.origin@.insert_ensures(place as int, at);
                        self.origin = Ghost(origin);
                        lemma_inserted(before, *self, addresses, at, place as int, number);
                    }
                    true
                }
            },
        }
    }
}

/// A table that held the first `at` addresses holds one more once the next,
/// whose number it lacked, is put at its place.
proof fn lemma_inserted(
    before: Table,
    after: Table,
    addresses: Seq<Seq<char>>,
    at: int,
    place: int,
    number: Word,
)
    requires
        before.holds(addresses, at),
        at < addresses.len(),
        canonical_number(addresses[at]) == Some(number.value()),
        0 <= place <= before.numbers@.len(),
        forall|i: int| 0 <= i < place ==> (#[trigger] before.numbers@[i]).value() < number.value(),
        forall|i: int|
            place <= i < before.numbers@.len() ==> (#[trigger] before.numbers@[i]).value()
                > number.value(),
        after.numbers@.len() == before.numbers@.len() + 1,
        after.texts@.len() == before.texts@.len() + 1,
        after.origin@.len() == before.origin@.len() + 1,
        after.numbers@[place] == number,
        after.texts@[place]@ == addresses[at],
        after.origin@[place] == at,
        forall|i: int| 0 <= i < place ==> after.numbers@[i] == #[trigger] before.numbers@[i],
        forall|i: int| 0 <= i < place ==> after.texts@[i] == #[trigger] before.texts@[i],
        forall|i: int| 0 <= i < place ==> after.origin@[i] == #[trigger] before.origin@[i],
        forall|i: int|
            place <= i < before.numbers@.len() ==> after.numbers@[i + 1]
                == #[trigger] before.numbers@[i],
        forall|i: int|
            place <= i < before.numbers@.len() ==> after.texts@[i + 1]
                == #[trigger] before.texts@[i],
        forall|i: int|
            place <= i < before.numbers@.len() ==> after.origin@[i + 1]
                == #[trigger] before.origin@[i],
    ensures
        after.holds(addresses, at + 1),
{
    let old_values = values_of(before.numbers@);
    let new_values = values_of(after.numbers@);
    assert forall|i: int, j: int| 0 <= i < j < new_values.len() implies new_values[i]
        < new_values[j] by {
        let a = if i < place { i } else { i - 1 };
        let b = if j < place { j } else { j - 1 };
        if i != place {
            assert(after.numbers@[i] == before.numbers@[a]);
        }
        if j != place {
            assert(after.numbers@[j] == before.numbers@[b]);
        }
        if i != place && j != place {
            assert(old_values[a] < old_values[b]);
        }
    }
    assert forall|i: int| 0 <= i < after.origin@.len() implies {
        let k = #[trigger] after.origin@[i];
        &&& 0 <= k < at + 1
        &&& after.texts@[i]@ == addresses[k]
        &&& canonical_number(addresses[k]) == Some(after.numbers@[i].value())
    } by {
        if i < place {
            assert(after.origin@[i] == before.origin@[i]);
            assert(after.texts@[i] == before.texts@[i]);
            assert(after.numbers@[i] == before.numbers@[i]);
        } else if i > place {
            assert(after.origin@[i] == before.origin@[i - 1]);
            assert(after.texts@[i] == before.texts@[i - 1]);
            assert(after.numbers@[i] == before.numbers@[i - 1]);
        }
    }
    assert forall|k: int| 0 <= k < at + 1 implies #[trigger] after.covers(addresses, k) by {
        if k == at {
            assert(after.texts@[place]@ == addresses[k]);
        } else {
            assert(before.covers(addresses, k));
            let w = choose|w: int|
                0 <= w < before.texts@.len() && (#[trigger] before.texts@[w])@ == addresses[k];
            let moved = if w < place { w } else { w + 1 };
            assert(after.texts@[moved] == before.texts@[w]);
            assert(after.texts@[moved]@ == addresses[k]);
        }
    }
}

/// A table that has read every address holds their vertex list, and the
/// addresses are valid.
proof fn lemma_table_complete(table: Table, addresses: Seq<Seq<char>>)
    requires
        table.holds(addresses, addresses.len() as int),
    ensures
        all_valid(addresses),
        is_vertex_list(texts_of(table.texts@), addresses),
        values_of(table.numbers@) == numbers_of(texts_of(table.texts@)),
{
    let vertices = texts_of(table.texts@);
    let values = values_of(table.numbers@);
    assert forall|i: int| 0 <= i < vertices.len() implies (#[trigger] canonical_number(
        vertices[i],
    )) == Some(values[i]) by {
        let k = table.origin@[i];
        assert(vertices[i] == addresses[k]);
    }
    assert(values =~= numbers_of(vertices));
    assert forall|i: int| 0 <= i < vertices.len() implies #[trigger] stems_from(
        vertices,
        addresses,
        i,
    ) by {
        let k = table.origin@[i];
        assert(vertices[i] == addresses[k]);
    }
    assert forall|k: int| 0 <= k < addresses.len() implies #[trigger] listed(
        vertices,
        addresses,
        k,
    ) by {
        assert(table.covers(addresses, k));
        let i = choose|i: int|
            0 <= i < table.texts@.len() && (#[trigger] table.texts@[i])@ == addresses[k];
        assert(vertices[i] == addresses[k]);
    }
    lemma_listed_valid(vertices, addresses);
}

/// Addresses that have a vertex list are valid.
pub proof fn lemma_listed_valid(vertices: Seq<Seq<char>>, addresses: Seq<Seq<char>>)
    requires
        is_vertex_list(vertices, addresses),
    ensures
        all_valid(addresses),
{
    let numbers = numbers_of(vertices);
    assert forall|j: int, k: int|
        0 <= j < addresses.len() && 0 <= k < addresses.len() && canonical_number(
            #[trigger] addresses[j],
        ) == canonical_number(#[trigger] addresses[k]) implies addresses[j] == addresses[k] by {
        assert(listed(vertices, addresses, j));
        assert(listed(vertices, addresses, k));
        let a = choose|i: int| 0 <= i < vertices.len() && #[trigger] vertices[i] == addresses[j];
        let b = choose|i: int| 0 <= i < vertices.len() && #[trigger] vertices[i] == addresses[k];
        assert(canonical_number(vertices[a]) is Some);
        assert(canonical_number(vertices[b]) is Some);
        if a < b {
            assert(numbers[a] < numbers[b]);
        } else if b < a {
            assert(numbers[b] < numbers[a]);
        }
    }
    assert forall|k: int| 0 <= k < addresses.len() implies (#[trigger] canonical_number(
        addresses[k],
    )) is Some by {
        assert(listed(vertices, addresses, k));
        let i = choose|i: int| 0 <= i < vertices.len() && #[trigger] vertices[i] == addresses[k];
        assert(canonical_number(vertices[i]) is Some);
    }
}

/// No vertex of a vertex list occurs twice in it.
pub proof fn lemma_vertices_distinct(vertices: Seq<Seq<char>>)
    requires
        ascending(numbers_of(vertices)),
    ensures
        vertices.no_duplicates(),
{
    let numbers = numbers_of(vertices);
    assert forall|i: int, j: int|
        0 <= i < vertices.len() && 0 <= j < vertices.len() && i != j implies vertices[i]
        != vertices[j] by {
        if i < j {
            assert(numbers[i] < numbers[j]);
        } else {
            assert(numbers[j] < numbers[i]);
        }
    }
}

/// A vertex list has as many vertices as its addresses are distinct.
pub proof fn lemma_vertex_count(vertices: Seq<Seq<char>>, addresses: Seq<Seq<char>>)
    requires
        is_vertex_list(vertices, addresses),
    ensures
        addresses.to_set().finite(),
        addresses.to_set().len() == vertices.len(),
{
    lemma_vertices_distinct(vertices);
    assert forall|text: Seq<char>| vertices.to_set().contains(text) implies addresses.to_set().contains(
        text,
    ) by {
        let i = choose|i: int| 0 <= i < vertices.len() && vertices[i] == text;
        assert(stems_from(vertices, addresses, i));
        let k = choose|k: int| 0 <= k < addresses.len() && vertices[i] == #[trigger] addresses[k];
        assert(addresses[k] == text);
    }
    assert forall|text: Seq<char>| addresses.to_set().contains(text) implies vertices.to_set().contains(
        text,
    ) by {
        let k = choose|k: int| 0 <= k < addresses.len() && addresses[k] == text;
        assert(listed(vertices, addresses, k));
        let i = choose|i: int| 0 <= i < vertices.len() && #[trigger] vertices[i] == addresses[k];
        assert(vertices[i] == text);
    }
    assert(vertices.to_set() =~= addresses.to_set());
    vertices.unique_seq_to_set();
    vstd::seq_lib::seq_to_set_is_finite(addresses);
}

/// The failure that the addresses of a path give rise to, if any: addresses
/// that are not valid, or more distinct addresses than there are coordinates.
pub open spec fn vertex_failure(addresses: Seq<Seq<char>>) -> Option<FlowError> {
    if !all_valid(addresses) {
        Some(FlowError::InvalidAddress)
    } else if addresses.to_set().len() > MAX_VERTICES {
        Some(FlowError::VertexOverflow { count: addresses.to_set().len() as usize })
    } else {
        None
    }
}

/// The vertex list of a path whose addresses are in canonical form, and the
/// coordinates of its vertices.
///
/// Fails where the addresses are not valid, and where the path touches more
/// than 65536 addresses.
pub fn canonical_vertices(transfers: &[TransferStep], from: &str, to: &str) -> (found: Result<
    (Vec<String>, VertexIndex),
    FlowError,
>)
    ensures
        match found {
            Ok((vertices, index)) => {
                &&& vertex_failure(touched(from@, to@, step_views(transfers@))) is None
                &&& is_vertex_list(texts_of(vertices@), touched(from@, to@, step_views(transfers@)))
                &&& index.wf()
                &&& index@ == numbers_of(texts_of(vertices@))
            },
            Err(error) => vertex_failure(touched(from@, to@, step_views(transfers@))) == Some(error),
        },
{
    let ghost addresses = touched(from@, to@, step_views(transfers@));
    let mut table = Table::new(Ghost(addresses));
    if !table.read(from, Ghost(addresses), Ghost(0)) {
        return Err(FlowError::InvalidAddress);
    }
    if !table.read(to, Ghost(addresses), Ghost(1)) {
        return Err(FlowError::InvalidAddress);
    }
    let mut i: usize = 0;
    while i < transfers.len()
        invariant
            i <= transfers@.len(),
            addresses == touched(from@, to@, step_views(transfers@)),
            table.holds(addresses, 2 + 3 * i),
        decreases transfers@.len() - i,
    {
        let step = &transfers[i];
        proof {
            assert(step_views(transfers@)[i as int].from == step.from@);
            assert(step_views(transfers@)[i as int].to == step.to@);
            assert(step_views(transfers@)[i as int].token_owner == step.token_owner@);
        }
        if !table.read(step.from.as_str(), Ghost(addresses), Ghost(2 + 3 * i)) {
            return Err(FlowError::InvalidAddress);
        }
        if !table.read(step.to.as_str(), Ghost(addresses), Ghost(3 + 3 * i)) {
            return Err(FlowError::InvalidAddress);
        }
        if !table.read(step.token_owner.as_str(), Ghost(addresses), Ghost(4 + 3 * i)) {
            return Err(FlowError::InvalidAddress);
        }
        i += 1;
    }
    proof {
        lemma_table_complete(table, addresses);
        lemma_vertex_count(texts_of(table.texts@), addresses);
    }
    let count = table.numbers.len();
    if count > MAX_VERTICES {
        Err(FlowError::VertexOverflow { count })
    } else {
        Ok((table.texts, VertexIndex { numbers: table.numbers }))
    }
}

/// The vertex list of a path and the coordinates of its vertices, after every
/// address is brought into its canonical form, the lower case.
///
/// Fails where the addresses are not valid, and where the path touches more
/// than 65536 addresses.
pub fn transform_to_flow_vertices(transfers: &[TransferStep], from: &str, to: &str) -> (found:
    Result<(Vec<String>, VertexIndex), FlowError>)
    ensures
        match found {
            Ok((vertices, index)) => {
                &&& vertex_failure(
                    touched(lowercase_of(from@), lowercase_of(to@), canonical_steps(transfers@)),
                ) is None
                &&& is_vertex_list(
                    texts_of(vertices@),
                    touched(lowercase_of(from@), lowercase_of(to@), canonical_steps(transfers@)),
                )
                &&& index.wf()
                &&& index@ == numbers_of(texts_of(vertices@))
            },
            Err(error) => vertex_failure(
                touched(lowercase_of(from@), lowercase_of(to@), canonical_steps(transfers@)),
            ) == Some(error),
        },
{
    let sender = lowercase(from);
    let receiver = lowercase(to);
    let steps = lower_steps(transfers);
    canonical_vertices(steps.as_slice(), sender.as_str(), receiver.as_str())
}

/// Two ascending sequences that hold the same numbers are the same sequence.
pub proof fn lemma_ascending_unique(a: Seq<nat>, b: Seq<nat>)
    requires
        ascending(a),
        ascending(b),
        forall|number: nat| a.contains(number) <==> b.contains(number),
    ensures
        a == b,
    decreases a.len(),
{
    if a.len() == 0 {
        if b.len() > 0 {
            assert(b.contains(b[0]));
        }
        assert(a =~= b);
    } else if b.len() == 0 {
        assert(a.contains(a[0]));
    } else {
        assert(a.contains(a[0]));
        assert(b.contains(b[0]));
        let in_b = choose|j: int| 0 <= j < b.len() && b[j] == a[0];
        let in_a = choose|i: int| 0 <= i < a.len() && a[i] == b[0];
        if in_b > 0 {
            assert(b[0] < b[in_b]);
        }
        if in_a > 0 {
            assert(a[0] < a[in_a]);
        }
        assert(a[0] == b[0]);
        let rest_a = a.skip(1);
        let rest_b = b.skip(1);
        assert forall|number: nat| rest_a.contains(number) <==> rest_b.contains(number) by {
            if rest_a.contains(number) {
                let i = choose|i: int| 0 <= i < rest_a.len() && rest_a[i] == number;
                assert(a[0] < a[i + 1]);
                assert(a.contains(a[i + 1]));
                let j = choose|j: int| 0 <= j < b.len() && b[j] == number;
                assert(rest_b[j - 1] == number);
            }
            if rest_b.contains(number) {
                let j = choose|j: int| 0 <= j < rest_b.len() && rest_b[j] == number;
                assert(b[0] < b[j + 1]);
                assert(b.contains(b[j + 1]));
                let i = choose|i: int| 0 <= i < a.len() && a[i] == number;
                assert(rest_a[i - 1] == number);
            }
        }
        assert forall|i: int, j: int| 0 <= i < j < rest_a.len() implies rest_a[i] < rest_a[j] by {
            assert(a[i + 1] < a[j + 1]);
        }
        assert forall|i: int, j: int| 0 <= i < j < rest_b.len() implies rest_b[i] < rest_b[j] by {
            assert(b[i + 1] < b[j + 1]);
        }
        lemma_ascending_unique(rest_a, rest_b);
        assert forall|i: int| 0 <= i < a.len() implies a[i] == b[i] by {
            if i > 0 {
                assert(rest_a[i - 1] == rest_b[i - 1]);
            }
        }
        assert(a.len() == rest_a.len() + 1);
        assert(b.len() == rest_b.len() + 1);
        assert(a =~= b);
    }
}

/// The addresses of a path have one vertex list and no other.
pub proof fn lemma_vertex_list_unique(
    first: Seq<Seq<char>>,
    second: Seq<Seq<char>>,
    addresses: Seq<Seq<char>>,
)
    requires
        is_vertex_list(first, addresses),
        is_vertex_list(second, addresses),
    ensures
        first == second,
{
    let a = numbers_of(first);
    let b = numbers_of(second);
    assert forall|number: nat| a.contains(number) <==> b.contains(number) by {
        if a.contains(number) {
            let i = choose|i: int| 0 <= i < a.len() && a[i] == number;
            let j = lemma_vertex_shared(first, second, addresses, i);
            assert(b[j] == number);
        }
        if b.contains(number) {
            let i = choose|i: int| 0 <= i < b.len() && b[i] == number;
            let j = lemma_vertex_shared(second, first, addresses, i);
            assert(a[j] == number);
        }
    }
    lemma_ascending_unique(a, b);
    assert(a.len() == b.len());
    assert forall|i: int| 0 <= i < first.len() implies first[i] == second[i] by {
        let j = lemma_vertex_shared(first, second, addresses, i);
        assert(b[j] == a[i]);
        assert(a[i] == b[i]);
        if j < i {
            assert(b[j] < b[i]);
        } else if i < j {
            assert(b[i] < b[j]);
        }
    }
    assert(first =~= second);
}

/// A vertex of one vertex list is a vertex of every other vertex list of the
/// same addresses; the result is its place there.
proof fn lemma_vertex_shared(
    first: Seq<Seq<char>>,
    second: Seq<Seq<char>>,
    addresses: Seq<Seq<char>>,
    i: int,
) -> (place: int)
    requires
        is_vertex_list(first, addresses),
        is_vertex_list(second, addresses),
        0 <= i < first.len(),
    ensures
        0 <= place < second.len(),
        second[place] == first[i],
{
    assert(stems_from(first, addresses, i));
    let k = choose|k: int| 0 <= k < addresses.len() && first[i] == #[trigger] addresses[k];
    assert(listed(second, addresses, k));
    choose|j: int| 0 <= j < second.len() && #[trigger] second[j] == addresses[k]
}

} // verus!

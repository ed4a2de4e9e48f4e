//! The flow matrix of a path, and the function that builds it.

use vstd::prelude::*;
use vstd::string::StringExecFns;

use crate::address::amount_number;
use crate::address::canonical_number;
use crate::address::parse_amount;
use crate::address::read_canonical;
use crate::coordinates::pack_coordinates;
use crate::coordinates::packed_text;
use crate::laws::lemma_flow_matrix_well_formed;
use crate::laws::well_formed;
use crate::text::decimal_text;
use crate::text::lowercase;
use crate::text::lowercase_of;
use crate::text::render_decimal;
use crate::vertices::ascending;
use crate::vertices::is_vertex_list;
use crate::vertices::lemma_vertices_distinct;
use crate::vertices::listed;
use crate::vertices::numbers_of;
use crate::vertices::step_address;
use crate::vertices::texts_of;
use crate::vertices::touched;
use crate::vertices::canonical_vertices;
use crate::vertices::vertex_failure;
use crate::vertices::VertexIndex;
use crate::word::limb_base;
use crate::word::word_limit;
use crate::word::Total;
use crate::word::Word;

verus! {

/// One hop of a path: `value` of the token of `token_owner` moves from `from`
/// to `to`.
#[derive(Debug, Clone, PartialEq)]
pub struct TransferStep {
    pub from: String,
    pub to: String,
    pub token_owner: String,
    pub value: String,
}

/// One edge of the flow matrix. `stream_sink_id` is 1 on an edge that delivers
/// to the sink and 0 on every other.
#[derive(Debug, Clone, PartialEq)]
pub struct FlowEdge {
    pub stream_sink_id: u16,
    pub amount: String,
}

/// The edges that one source credits to the sink.
#[derive(Debug, Clone, PartialEq)]
pub struct Stream {
    pub source_coordinate: u16,
    pub flow_edge_ids: Vec<u16>,
    pub data: Vec<u8>,
}

/// A path in the shape that the settlement function takes.
#[derive(Debug, Clone, PartialEq)]
pub struct FlowMatrix {
    pub flow_vertices: Vec<String>,
    pub flow_edges: Vec<FlowEdge>,
    pub streams: Vec<Stream>,
    pub packed_coordinates: String,
    pub source_coordinate: u16,
}

/// Why no flow matrix was built.
#[derive(Debug, Clone, Copy, PartialEq, Eq, Structural)]
pub enum FlowError {
    /// An address is not `0x` and one to forty hexadecimal digits, or two
    /// addresses spell one number in different ways.
    InvalidAddress,
    /// The path touches more addresses than coordinates of 16 bits can tell
    /// apart.
    VertexOverflow { count: usize },
    /// The path has no transfer.
    EmptyPath,
    /// An edge that reaches the sink stands at an index that 16 bits cannot
    /// hold. `count` is the number of edges.
    EdgeOverflow { count: usize },
    /// The requested amount, or the amount of a transfer, is no decimal
    /// numeral below two to the power of 256.
    InvalidAmount,
    /// The edges that reach the sink carry another sum than was requested.
    FlowMismatch { terminal_sum: Total, expected: Word },
}

impl FlowError {
    /// What the failure says in words.
    pub open spec fn message_text(self) -> Seq<char> {
        match self {
            FlowError::InvalidAddress => "Address is ill-formed or spelled in two ways"@,
            FlowError::VertexOverflow { count } => "Vertex count "@ + decimal_text(count as nat)
                + " exceeds 65536"@,
            FlowError::EmptyPath => "Path has no transfers"@,
            FlowError::EdgeOverflow { count } => "Terminal edge beyond index 65535 among "@
                + decimal_text(count as nat) + " edges"@,
            FlowError::InvalidAmount => "Amount is not a decimal number"@,
            FlowError::FlowMismatch { terminal_sum, expected } => "Terminal sum "@ + decimal_text(
                terminal_sum.value(),
            ) + " does not equal expected "@ + decimal_text(expected.value()),
        }
    }

    /// The failure in words, with its numbers in decimal.
    pub fn message(&self) -> (text: String)
        ensures
            text@ == self.message_text(),
    {
        match self {
            FlowError::InvalidAddress => String::from_str(
                "Address is ill-formed or spelled in two ways",
            ),
            FlowError::VertexOverflow { count } => {
                let mut text = String::from_str("Vertex count ");
                text.append(render_count(*count).as_str());
                text.append(" exceeds 65536");
                text
            },
            FlowError::EmptyPath => String::from_str("Path has no transfers"),
            FlowError::EdgeOverflow { count } => {
                let mut text = String::from_str("Terminal edge beyond index 65535 among ");
                text.append(render_count(*count).as_str());
                text.append(" edges");
                text
            },
            FlowError::InvalidAmount => String::from_str("Amount is not a decimal number"),
            FlowError::FlowMismatch { terminal_sum, expected } => {
                let mut text = String::from_str("Terminal sum ");
                text.append(render_decimal(terminal_sum.limbs()).as_str());
                text.append(" does not equal expected ");
                text.append(render_decimal(expected.widen().limbs()).as_str());
                text
            },
        }
    }
}

/// A count as a decimal numeral.
fn render_count(count: usize) -> (numeral: String)
    ensures
        numeral@ == decimal_text(count as nat),
{
    let limbs: [u64; 5] = [count as u64, 0, 0, 0, 0];
    render_decimal(limbs)
}

/// The largest index of an edge that 16 bits can hold.
pub const MAX_EDGE_INDEX: usize = 65535;

/// What an edge is to the contracts: its sink id and the text of its amount.
pub struct FlowEdgeView {
    pub stream_sink_id: u16,
    pub amount: Seq<char>,
}

/// What a stream is to the contracts.
pub struct StreamView {
    pub source_coordinate: u16,
    pub flow_edge_ids: Seq<u16>,
    pub data: Seq<u8>,
}

/// What a flow matrix is to the contracts.
pub struct FlowMatrixView {
    pub flow_vertices: Seq<Seq<char>>,
    pub flow_edges: Seq<FlowEdgeView>,
    pub streams: Seq<StreamView>,
    pub packed_coordinates: Seq<char>,
    pub source_coordinate: u16,
}

impl View for FlowEdge {
    type V = FlowEdgeView;

    open spec fn view(&self) -> FlowEdgeView {
        FlowEdgeView { stream_sink_id: self.stream_sink_id, amount: self.amount@ }
    }
}

impl View for Stream {
    type V = StreamView;

    open spec fn view(&self) -> StreamView {
        StreamView {
            source_coordinate: self.source_coordinate,
            flow_edge_ids: self.flow_edge_ids@,
            data: self.data@,
        }
    }
}

impl View for FlowMatrix {
    type V = FlowMatrixView;

    open spec fn view(&self) -> FlowMatrixView {
        FlowMatrixView {
            flow_vertices: texts_of(self.flow_vertices@),
            flow_edges: edge_views(self.flow_edges@),
            streams: Seq::new(self.streams@.len(), |i: int| self.streams@[i]@),
            packed_coordinates: self.packed_coordinates@,
            source_coordinate: self.source_coordinate,
        }
    }
}

/// What a transfer step is to the contracts: the texts of its parts.
pub struct StepView {
    pub from: Seq<char>,
    pub to: Seq<char>,
    pub token_owner: Seq<char>,
    pub value: Seq<char>,
}

impl View for TransferStep {
    type V = StepView;

    open spec fn view(&self) -> StepView {
        StepView {
            from: self.from@,
            to: self.to@,
            token_owner: self.token_owner@,
            value: self.value@,
        }
    }
}

/// The views of some transfer steps.
pub open spec fn step_views(transfers: Seq<TransferStep>) -> Seq<StepView> {
    Seq::new(transfers.len(), |i: int| transfers[i]@)
}

/// The canonical form of a transfer step: its addresses in lower case, its
/// value unchanged.
pub open spec fn canonical_step(step: StepView) -> StepView {
    StepView {
        from: lowercase_of(step.from),
        to: lowercase_of(step.to),
        token_owner: lowercase_of(step.token_owner),
        value: step.value,
    }
}

/// The canonical forms of some transfer steps.
pub open spec fn canonical_steps(transfers: Seq<TransferStep>) -> Seq<StepView> {
    Seq::new(transfers.len(), |i: int| canonical_step(transfers[i]@))
}

/// The transfer steps in canonical form.
pub fn lower_steps(transfers: &[TransferStep]) -> (lowered: Vec<TransferStep>)
    ensures
        step_views(lowered@) == canonical_steps(transfers@),
{
    let mut lowered: Vec<TransferStep> = Vec::new();
    let mut i: usize = 0;
    while i < transfers.len()
        invariant
            i <= transfers@.len(),
            lowered@.len() == i,
            forall|j: int|
                0 <= j < i ==> (#[trigger] lowered@[j])@ == canonical_step(transfers@[j]@),
        decreases transfers@.len() - i,
    {
        let step = &transfers[i];
        lowered.push(
            TransferStep {
                from: lowercase(step.from.as_str()),
                to: lowercase(step.to.as_str()),
                token_owner: lowercase(step.token_owner.as_str()),
                value: step.value.clone(),
            },
        );
        i += 1;
    }
    assert(step_views(lowered@) =~= canonical_steps(transfers@));
    lowered
}

/// The views of some edges.
pub open spec fn edge_views(edges: Seq<FlowEdge>) -> Seq<FlowEdgeView> {
    Seq::new(edges.len(), |i: int| edges[i]@)
}

/// Whether the transfer at `i` delivers to the sink.
pub open spec fn reaches_sink(transfers: Seq<StepView>, to: Seq<char>, i: int) -> bool {
    transfers[i].to == to
}

/// Whether none of the first `upto` transfers delivers to the sink.
pub open spec fn none_reaches(transfers: Seq<StepView>, to: Seq<char>, upto: int) -> bool {
    forall|i: int| 0 <= i < upto ==> !#[trigger] reaches_sink(transfers, to, i)
}

/// Whether the edge at `i` is terminal: its transfer delivers to the sink, or
/// no transfer does and it is the last.
pub open spec fn is_terminal(transfers: Seq<StepView>, to: Seq<char>, i: int) -> bool {
    reaches_sink(transfers, to, i) || (i == transfers.len() - 1 && none_reaches(
        transfers,
        to,
        transfers.len() as int,
    ))
}

/// The edges of a path: one for each transfer, in their order, with the
/// transfer's amount, marked 1 where it is terminal and 0 where not.
pub open spec fn expected_edges(transfers: Seq<StepView>, to: Seq<char>) -> Seq<FlowEdgeView> {
    Seq::new(
        transfers.len(),
        |i: int|
            FlowEdgeView {
                stream_sink_id: if is_terminal(transfers, to, i) {
                    1
                } else {
                    0
                },
                amount: transfers[i].value,
            },
    )
}

/// The indices of the edges marked 1 among the first `upto`, ascending.
pub open spec fn sink_edge_ids(edges: Seq<FlowEdgeView>, upto: int) -> Seq<u16>
    decreases upto,
{
    if upto <= 0 {
        Seq::empty()
    } else if edges[upto - 1].stream_sink_id == 1 {
        sink_edge_ids(edges, upto - 1).push((upto - 1) as u16)
    } else {
        sink_edge_ids(edges, upto - 1)
    }
}

/// The exact sum of the amounts of the edges marked 1 among the first `upto`.
/// An amount without a number counts as zero.
pub open spec fn sink_total(edges: Seq<FlowEdgeView>, upto: int) -> nat
    decreases upto,
{
    if upto <= 0 {
        0
    } else if edges[upto - 1].stream_sink_id == 1 {
        sink_total(edges, upto - 1) + match amount_number(edges[upto - 1].amount) {
            Some(amount) => amount,
            None => 0,
        }
    } else {
        sink_total(edges, upto - 1)
    }
}

/// Whether each edge has an amount with a number.
pub open spec fn amounts_valid(edges: Seq<FlowEdgeView>) -> bool {
    forall|i: int| 0 <= i < edges.len() ==> amount_number((#[trigger] edges[i]).amount) is Some
}

/// Whether an edge marked 1 stands at an index that 16 bits cannot hold.
pub open spec fn has_wide_sink_edge(edges: Seq<FlowEdgeView>) -> bool {
    exists|i: int| MAX_EDGE_INDEX < i < edges.len() && (#[trigger] edges[i]).stream_sink_id == 1
}

/// The coordinate of an address among the vertices.
pub open spec fn coordinate_of(vertices: Seq<Seq<char>>, address: Seq<char>) -> u16 {
    vertices.index_of(address) as u16
}

/// The coordinates of a path: for each transfer, in their order, those of its
/// token owner, its sender and its receiver.
pub open spec fn expected_coordinates(
    vertices: Seq<Seq<char>>,
    transfers: Seq<StepView>,
) -> Seq<u16> {
    Seq::new(
        3 * transfers.len(),
        |k: int| coordinate_of(vertices, step_address(transfers[k / 3], (k % 3 + 2) % 3)),
    )
}

/// Whether a flow matrix can be built: none of the failures occurs.
pub open spec fn buildable(
    from: Seq<char>,
    to: Seq<char>,
    value: Seq<char>,
    transfers: Seq<StepView>,
) -> bool {
    let edges = expected_edges(transfers, to);
    &&& vertex_failure(touched(from, to, transfers)) is None
    &&& transfers.len() > 0
    &&& amount_number(value) is Some
    &&& amounts_valid(edges)
    &&& amount_number(value) == Some(sink_total(edges, edges.len() as int))
    &&& !has_wide_sink_edge(edges)
}

/// Whether `error` is the failure of the path: the first that occurs of
/// invalid addresses, too many vertices, an empty path, an invalid amount, a
/// sum of the terminal edges other than the amount requested, and a terminal
/// edge beyond the indices of 16 bits, which no stream can name.
pub open spec fn fails_with(
    from: Seq<char>,
    to: Seq<char>,
    value: Seq<char>,
    transfers: Seq<StepView>,
    error: FlowError,
) -> bool {
    let edges = expected_edges(transfers, to);
    if vertex_failure(touched(from, to, transfers)) is Some {
        vertex_failure(touched(from, to, transfers)) == Some(error)
    } else if transfers.len() == 0 {
        error == FlowError::EmptyPath
    } else if amount_number(value) is None || !amounts_valid(edges) {
        error == FlowError::InvalidAmount
    } else if amount_number(value) != Some(sink_total(edges, edges.len() as int)) {
        &&& error matches FlowError::FlowMismatch { terminal_sum, expected }
        &&& terminal_sum.value() == sink_total(edges, edges.len() as int)
        &&& Some(expected.value()) == amount_number(value)
    } else {
        error == (FlowError::EdgeOverflow { count: transfers.len() as usize })
    }
}

/// Whether `outcome` is what building the flow matrix of the path comes to:
/// its flow matrix where one can be built, and its failure where none can.
pub open spec fn is_outcome(
    outcome: Result<FlowMatrixView, FlowError>,
    from: Seq<char>,
    to: Seq<char>,
    value: Seq<char>,
    transfers: Seq<StepView>,
) -> bool {
    match outcome {
        Ok(matrix) => {
            &&& buildable(from, to, value, transfers)
            &&& is_flow_matrix(matrix, from, to, transfers)
        },
        Err(error) => {
            &&& !buildable(from, to, value, transfers)
            &&& fails_with(from, to, value, transfers, error)
        },
    }
}

/// What was built, as the contracts see it.
pub open spec fn outcome_view(built: Result<FlowMatrix, FlowError>) -> Result<
    FlowMatrixView,
    FlowError,
> {
    match built {
        Ok(matrix) => Ok(matrix@),
        Err(error) => Err(error),
    }
}

/// Whether `matrix` is the flow matrix of the path.
pub open spec fn is_flow_matrix(
    matrix: FlowMatrixView,
    from: Seq<char>,
    to: Seq<char>,
    transfers: Seq<StepView>,
) -> bool {
    &&& is_vertex_list(matrix.flow_vertices, touched(from, to, transfers))
    &&& matrix.flow_edges == expected_edges(transfers, to)
    &&& matrix.source_coordinate == coordinate_of(matrix.flow_vertices, from)
    &&& matrix.streams == seq![
        StreamView {
            source_coordinate: matrix.source_coordinate,
            flow_edge_ids: sink_edge_ids(matrix.flow_edges, matrix.flow_edges.len() as int),
            data: Seq::empty(),
        },
    ]
    &&& matrix.packed_coordinates == packed_text(
        expected_coordinates(matrix.flow_vertices, transfers),
    )
}

/// For each transfer whether it delivers to the sink, and whether any does.
fn sink_marks(transfers: &[TransferStep], to: &str) -> (marks: (Vec<bool>, bool))
    ensures
        marks.0@.len() == transfers@.len(),
        forall|i: int|
            0 <= i < transfers@.len() ==> marks.0@[i] == #[trigger] reaches_sink(
                step_views(transfers@),
                to@,
                i,
            ),
        marks.1 == !none_reaches(step_views(transfers@), to@, transfers@.len() as int),
{
    let mut marks: Vec<bool> = Vec::new();
    let mut any = false;
    let sink = String::from_str(to);
    let mut i: usize = 0;
    while i < transfers.len()
        invariant
            i <= transfers@.len(),
            marks@.len() == i,
            sink@ == to@,
            forall|j: int|
                0 <= j < i ==> marks@[j] == #[trigger] reaches_sink(step_views(transfers@), to@, j),
            any == !none_reaches(step_views(transfers@), to@, i as int),
        decreases transfers@.len() - i,
    {
        let hit = transfers[i].to == sink;
        proof {
            assert(hit == reaches_sink(step_views(transfers@), to@, i as int));
        }
        marks.push(hit);
        any = any || hit;
        i += 1;
    }
    (marks, any)
}

/// Whether a transfer of the path delivers to the sink, where every address
/// is in canonical form. Where none does, the last edge of the flow matrix is
/// taken for terminal, which the path itself does not bear out.
pub fn canonical_path_delivers(to: &str, transfers: &[TransferStep]) -> (delivers: bool)
    ensures
        delivers == !none_reaches(step_views(transfers@), to@, transfers@.len() as int),
{
    let (_, any) = sink_marks(transfers, to);
    any
}

/// Whether a transfer of the path delivers to the sink, once every address is
/// brought into its canonical form. Where none does, the last edge of the flow
/// matrix is taken for terminal, which the path itself does not bear out.
pub fn path_delivers(to: &str, transfers: &[TransferStep]) -> (delivers: bool)
    ensures
        delivers == !none_reaches(
            canonical_steps(transfers@),
            lowercase_of(to@),
            transfers@.len() as int,
        ),
{
    let receiver = lowercase(to);
    let steps = lower_steps(transfers);
    proof {
        assert(step_views(steps@).len() == steps@.len());
        assert(canonical_steps(transfers@).len() == transfers@.len());
    }
    canonical_path_delivers(receiver.as_str(), steps.as_slice())
}

/// The edges of a path.
fn build_edges(
    transfers: &[TransferStep],
    marks: &Vec<bool>,
    any: bool,
    Ghost(to): Ghost<Seq<char>>,
) -> (edges: Vec<FlowEdge>)
    requires
        marks@.len() == transfers@.len(),
        forall|i: int|
            0 <= i < transfers@.len() ==> marks@[i] == #[trigger] reaches_sink(
                step_views(transfers@),
                to,
                i,
            ),
        any == !none_reaches(step_views(transfers@), to, transfers@.len() as int),
    ensures
        edge_views(edges@) == expected_edges(step_views(transfers@), to),
{
    let ghost expected = expected_edges(step_views(transfers@), to);
    let count = transfers.len();
    let mut edges: Vec<FlowEdge> = Vec::new();
    let mut i: usize = 0;
    while i < count
        invariant
            count == transfers@.len(),
            i <= count,
            expected == expected_edges(step_views(transfers@), to),
            marks@.len() == transfers@.len(),
            forall|j: int|
                0 <= j < transfers@.len() ==> marks@[j] == #[trigger] reaches_sink(
                    step_views(transfers@),
                    to,
                    j,
                ),
            any == !none_reaches(step_views(transfers@), to, transfers@.len() as int),
            edges@.len() == i,
            forall|j: int| 0 <= j < i ==> (#[trigger] edges@[j])@ == expected[j],
        decreases count - i,
    {
        let terminal = marks[i] || (!any && i == count - 1);
        proof {
            assert(marks@[i as int] == reaches_sink(step_views(transfers@), to, i as int));
            assert(terminal == is_terminal(step_views(transfers@), to, i as int));
        }
        edges.push(
            FlowEdge {
                stream_sink_id: if terminal {
                    1
                } else {
                    0
                },
                amount: transfers[i].value.clone(),
            },
        );
        i += 1;
    }
    proof {
        assert(edge_views(edges@) =~= expected);
    }
    edges
}

/// The indices of the edges marked 1, ascending. There are none to give
/// where such an edge stands at an index beyond 65535.
pub fn sink_edge_indices(edges: &Vec<FlowEdge>) -> (indices: Option<Vec<u16>>)
    ensures
        indices is Some <==> !has_wide_sink_edge(edge_views(edges@)),
        indices matches Some(ids) ==> ids@ == sink_edge_ids(
            edge_views(edges@),
            edges@.len() as int,
        ),
{
    let ghost views = edge_views(edges@);
    let mut ids: Vec<u16> = Vec::new();
    let mut i: usize = 0;
    while i < edges.len()
        invariant
            i <= edges@.len(),
            views == edge_views(edges@),
            ids@ == sink_edge_ids(views, i as int),
            forall|j: int| MAX_EDGE_INDEX < j < i ==> (#[trigger] views[j]).stream_sink_id != 1,
        decreases edges@.len() - i,
    {
        assert(views[i as int] == edges@[i as int]@);
        if edges[i].stream_sink_id == 1 {
            if i > MAX_EDGE_INDEX {
                return None;
            }
            ids.push(i as u16);
        }
        i += 1;
    }
    Some(ids)
}

/// The exact sum of the amounts of the edges marked 1, where every edge,
/// marked or not, has an amount with a number.
pub fn sum_sink_edges(edges: &Vec<FlowEdge>) -> (sum: Option<Total>)
    ensures
        sum is Some <==> amounts_valid(edge_views(edges@)),
        sum matches Some(total) ==> total.value() == sink_total(
            edge_views(edges@),
            edges@.len() as int,
        ),
{
    let ghost views = edge_views(edges@);
    let mut total = Total::zero();
    let mut i: usize = 0;
    while i < edges.len()
        invariant
            i <= edges@.len(),
            views == edge_views(edges@),
            total.value() == sink_total(views, i as int),
            total.t4 <= i,
            forall|j: int| 0 <= j < i ==> amount_number((#[trigger] views[j]).amount) is Some,
        decreases edges@.len() - i,
    {
        assert(views[i as int] == edges@[i as int]@);
        match parse_amount(edges[i].amount.as_str()) {
            Some(amount) => {
                if edges[i].stream_sink_id == 1 {
                    assert(total.value() + amount.value() < limb_base() * word_limit());
                    total = total.plus(&amount);
                }
            },
            None => {
                return None;
            },
        }
        i += 1;
    }
    Some(total)
}

/// The coordinate of the address at `at` among the addresses of a path.
fn locate(
    index: &VertexIndex,
    text: &str,
    Ghost(vertices): Ghost<Seq<Seq<char>>>,
    Ghost(addresses): Ghost<Seq<Seq<char>>>,
    Ghost(at): Ghost<int>,
) -> (coordinate: u16)
    requires
        index.wf(),
        index@ == numbers_of(vertices),
        is_vertex_list(vertices, addresses),
        0 <= at < addresses.len(),
        addresses[at] == text@,
    ensures
        coordinate == coordinate_of(vertices, text@),
        coordinate < vertices.len(),
        vertices[coordinate as int] == text@,
{
    let ghost place = lemma_coordinate_of_listed(vertices, addresses, at);
    let number = match read_canonical(text) {
        Some(number) => number,
        None => Word::zero(),
    };
    match index.coordinate(&number) {
        Some(coordinate) => {
            proof {
                let numbers = numbers_of(vertices);
                assert(numbers[place] == numbers[coordinate as int]);
                if place < coordinate {
                    assert(numbers[place] < numbers[coordinate as int]);
                } else if coordinate < place {
                    assert(numbers[coordinate as int] < numbers[place]);
                }
            }
            coordinate
        },
        None => {
            proof {
                assert(index@[place] == canonical_number(text@).unwrap());
            }
            0
        },
    }
}

/// Every address of a vertex list has a coordinate, the place of the vertex
/// that it is; the result is that place.
pub proof fn lemma_coordinate_of_listed(
    vertices: Seq<Seq<char>>,
    addresses: Seq<Seq<char>>,
    at: int,
) -> (place: int)
    requires
        is_vertex_list(vertices, addresses),
        0 <= at < addresses.len(),
    ensures
        0 <= place < vertices.len(),
        vertices[place] == addresses[at],
        canonical_number(addresses[at]) is Some,
        coordinate_of(vertices, addresses[at]) == place || vertices.len() > 65536,
        vertices.index_of(addresses[at]) == place,
{
    assert(listed(vertices, addresses, at));
    let place = choose|i: int| 0 <= i < vertices.len() && #[trigger] vertices[i] == addresses[at];
    assert(canonical_number(vertices[place]) is Some);
    lemma_vertices_distinct(vertices);
    let found = vertices.index_of(addresses[at]);
    assert(0 <= found < vertices.len() && vertices[found] == addresses[at]);
    place
}

/// The coordinates of a path, three for each transfer.
fn path_coordinates(
    transfers: &[TransferStep],
    index: &VertexIndex,
    Ghost(vertices): Ghost<Seq<Seq<char>>>,
    Ghost(from): Ghost<Seq<char>>,
    Ghost(to): Ghost<Seq<char>>,
) -> (coordinates: Vec<u16>)
    requires
        index.wf(),
        index@ == numbers_of(vertices),
        is_vertex_list(vertices, touched(from, to, step_views(transfers@))),
    ensures
        coordinates@ == expected_coordinates(vertices, step_views(transfers@)),
{
    let ghost addresses = touched(from, to, step_views(transfers@));
    let ghost expected = expected_coordinates(vertices, step_views(transfers@));
    let mut coordinates: Vec<u16> = Vec::new();
    let mut i: usize = 0;
    while i < transfers.len()
        invariant
            i <= transfers@.len(),
            index.wf(),
            index@ == numbers_of(vertices),
            addresses == touched(from, to, step_views(transfers@)),
            expected == expected_coordinates(vertices, step_views(transfers@)),
            is_vertex_list(vertices, addresses),
            coordinates@.len() == 3 * i,
            forall|k: int| 0 <= k < 3 * i ==> coordinates@[k] == expected[k],
        decreases transfers@.len() - i,
    {
        let step = &transfers[i];
        let owner = locate(
            index,
            step.token_owner.as_str(),
            Ghost(vertices),
            Ghost(addresses),
            Ghost(4 + 3 * i),
        );
        let sender = locate(
            index,
            step.from.as_str(),
            Ghost(vertices),
            Ghost(addresses),
            Ghost(2 + 3 * i),
        );
        let receiver = locate(
            index,
            step.to.as_str(),
            Ghost(vertices),
            Ghost(addresses),
            Ghost(3 + 3 * i),
        );
        proof {
            assert(expected[3 * i] == owner);
            assert(expected[3 * i + 1] == sender);
            assert(expected[3 * i + 2] == receiver);
        }
        coordinates.push(owner);
        coordinates.push(sender);
        coordinates.push(receiver);
        i += 1;
    }
    assert(coordinates@ =~= expected);
    coordinates
}

/// Builds the flow matrix of a path from `from` to `to` that is to deliver
/// `value`, where every address is in canonical form.
///
/// The vertices are the addresses that the path touches, each address once,
/// in ascending order of their numbers. There is one edge for each transfer,
/// in their order; an edge is terminal where its transfer delivers to the
/// sink, and the last edge is where none does. The one stream runs from the
/// source over the terminal edges. The packed coordinates name token owner,
/// sender and receiver of each transfer.
///
/// No matrix is built, and the failure says why, where the addresses are not
/// valid, where the path touches more than 65536 addresses, where it has no
/// transfer, where the amount requested or that of a transfer has no number,
/// where the terminal edges do not carry exactly the amount requested, and
/// where a terminal edge stands beyond index 65535.
pub fn build_flow_matrix(from: &str, to: &str, value: &str, transfers: &[TransferStep]) -> (built:
    Result<FlowMatrix, FlowError>)
    ensures
        is_outcome(outcome_view(built), from@, to@, value@, step_views(transfers@)),
        built matches Ok(matrix) ==> {
            &&& well_formed(matrix@)
            &&& amount_number(value@) == Some(
                sink_total(matrix@.flow_edges, matrix@.flow_edges.len() as int),
            )
        },
{
    let ghost addresses = touched(from@, to@, step_views(transfers@));
    let (flow_vertices, index) = match canonical_vertices(transfers, from, to) {
        Ok(found) => found,
        Err(error) => {
            return Err(error);
        },
    };
    let ghost vertices = texts_of(flow_vertices@);
    if transfers.len() == 0 {
        return Err(FlowError::EmptyPath);
    }
    let (marks, any) = sink_marks(transfers, to);
    let flow_edges = build_edges(transfers, &marks, any, Ghost(to@));
    let expected = match parse_amount(value) {
        Some(amount) => amount,
        None => {
            return Err(FlowError::InvalidAmount);
        },
    };
    let terminal_sum = match sum_sink_edges(&flow_edges) {
        Some(total) => total,
        None => {
            return Err(FlowError::InvalidAmount);
        },
    };
    if !terminal_sum.matches_word(&expected) {
        return Err(FlowError::FlowMismatch { terminal_sum, expected });
    }
    let flow_edge_ids = match sink_edge_indices(&flow_edges) {
        Some(ids) => ids,
        None => {
            return Err(FlowError::EdgeOverflow { count: transfers.len() });
        },
    };
    let source_coordinate = locate(&index, from, Ghost(vertices), Ghost(addresses), Ghost(0));
    let coordinates = path_coordinates(
        transfers,
        &index,
        Ghost(vertices),
        Ghost(from@),
        Ghost(to@),
    );
    let packed_coordinates = pack_coordinates(coordinates.as_slice());
    let mut streams: Vec<Stream> = Vec::new();
    streams.push(Stream { source_coordinate, flow_edge_ids, data: Vec::new() });
    let matrix = FlowMatrix {
        flow_vertices,
        flow_edges,
        streams,
        packed_coordinates,
        source_coordinate,
    };
    proof {
        assert(matrix@.streams =~= seq![
            StreamView {
                source_coordinate: matrix@.source_coordinate,
                flow_edge_ids: sink_edge_ids(
                    matrix@.flow_edges,
                    matrix@.flow_edges.len() as int,
                ),
                data: Seq::empty(),
            },
        ]);
        lemma_flow_matrix_well_formed(matrix@, from@, to@, value@, step_views(transfers@));
    }
    Ok(matrix)
}

/// Builds the flow matrix of a path from `from` to `to` that is to deliver
/// `value`.
///
/// Every address is first brought into its canonical form, the lower case.
/// The vertices are the canonical forms of the addresses that the path
/// touches, each address once, in ascending order of their numbers. There is
/// one edge for each transfer, in their order; an edge is terminal where its
/// transfer delivers to the sink, and the last edge is where none does. The
/// one stream runs from the source over the terminal edges. The packed
/// coordinates name token owner, sender and receiver of each transfer.
///
/// No matrix is built, and the failure says why, where the addresses are not
/// valid, where the path touches more than 65536 addresses, where it has no
/// transfer, where the amount requested or that of a transfer has no number,
/// where the terminal edges do not carry exactly the amount requested, and
/// where a terminal edge stands beyond index 65535.
pub fn create_flow_matrix(from: &str, to: &str, value: &str, transfers: &[TransferStep]) -> (built:
    Result<FlowMatrix, FlowError>)
    ensures
        is_outcome(
            outcome_view(built),
            lowercase_of(from@),
            lowercase_of(to@),
            value@,
            canonical_steps(transfers@),
        ),
        built matches Ok(matrix) ==> {
            &&& well_formed(matrix@)
            &&& amount_number(value@) == Some(
                sink_total(matrix@.flow_edges, matrix@.flow_edges.len() as int),
            )
        },
{
    let sender = lowercase(from);
    let receiver = lowercase(to);
    let steps = lower_steps(transfers);
    build_flow_matrix(sender.as_str(), receiver.as_str(), value, steps.as_slice())
}

} // verus!

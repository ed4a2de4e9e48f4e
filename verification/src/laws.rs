//! What holds of every flow matrix that is built.

use vstd::prelude::*;

use crate::address::amount_number;
use crate::address::canonical_number;
use crate::coordinates::bytes_of_hex;
use crate::coordinates::lemma_unpack_packed;
use crate::coordinates::packed_text;
use crate::coordinates::unpacked;
use crate::flow_matrix::buildable;
use crate::flow_matrix::coordinate_of;
use crate::flow_matrix::amounts_valid;
use crate::flow_matrix::expected_coordinates;
use crate::flow_matrix::expected_edges;
use crate::flow_matrix::is_outcome;
use crate::flow_matrix::is_flow_matrix;
use crate::flow_matrix::is_terminal;
use crate::flow_matrix::lemma_coordinate_of_listed;
use crate::flow_matrix::none_reaches;
use crate::flow_matrix::reaches_sink;
use crate::flow_matrix::sink_edge_ids;
use crate::flow_matrix::sink_total;
use crate::flow_matrix::FlowError;
use crate::flow_matrix::FlowMatrixView;
use crate::flow_matrix::StepView;
use crate::vertices::ascending;
use crate::vertices::all_valid;
use crate::vertices::is_vertex_list;
use crate::vertices::lemma_vertices_distinct;
use crate::vertices::lemma_vertex_count;
use crate::vertices::lemma_vertex_list_unique;
use crate::vertices::numbers_of;
use crate::vertices::touched;
use crate::vertices::vertex_failure;
use crate::word::lemma_total_value_injective;
use crate::word::lemma_word_value_injective;

verus! {

/// Whether a flow matrix is sound in itself: its vertices ascend and are at
/// most 65536, an edge is terminal, the one stream runs from the source over
/// the terminal edges, and the packed coordinates are three for each edge,
/// each the place of a vertex.
pub open spec fn well_formed(matrix: FlowMatrixView) -> bool {
    let coordinates = unpacked(matrix.packed_coordinates);
    &&& forall|i: int|
        0 <= i < matrix.flow_vertices.len() ==> (#[trigger] canonical_number(
            matrix.flow_vertices[i],
        )) is Some
    &&& ascending(numbers_of(matrix.flow_vertices))
    &&& matrix.flow_vertices.len() <= 65536
    &&& forall|i: int|
        0 <= i < matrix.flow_edges.len() ==> (#[trigger] matrix.flow_edges[i]).stream_sink_id <= 1
    &&& exists|i: int|
        0 <= i < matrix.flow_edges.len() && (#[trigger] matrix.flow_edges[i]).stream_sink_id == 1
    &&& matrix.streams.len() == 1
    &&& matrix.streams[0].source_coordinate == matrix.source_coordinate
    &&& matrix.source_coordinate < matrix.flow_vertices.len()
    &&& matrix.streams[0].flow_edge_ids == sink_edge_ids(
        matrix.flow_edges,
        matrix.flow_edges.len() as int,
    )
    &&& matrix.streams[0].data.len() == 0
    &&& matrix.packed_coordinates == packed_text(coordinates)
    &&& coordinates.len() == 3 * matrix.flow_edges.len()
    &&& bytes_of_hex(matrix.packed_coordinates.skip(2)).len() == 6 * matrix.flow_edges.len()
    &&& forall|k: int|
        0 <= k < coordinates.len() ==> (#[trigger] coordinates[k]) < matrix.flow_vertices.len()
}

/// Whether the three coordinates of the transfer at `i` are places of
/// vertices, and the vertices there are its token owner, its sender and its
/// receiver.
pub open spec fn names_step(
    vertices: Seq<Seq<char>>,
    coordinates: Seq<u16>,
    transfers: Seq<StepView>,
    i: int,
) -> bool {
    &&& coordinates[3 * i] < vertices.len()
    &&& coordinates[3 * i + 1] < vertices.len()
    &&& coordinates[3 * i + 2] < vertices.len()
    &&& vertices[coordinates[3 * i] as int] == transfers[i].token_owner
    &&& vertices[coordinates[3 * i + 1] as int] == transfers[i].from
    &&& vertices[coordinates[3 * i + 2] as int] == transfers[i].to
}

/// Every address of a path has a coordinate, and the vertex there is the
/// address.
pub proof fn lemma_coordinate_of_touched(
    vertices: Seq<Seq<char>>,
    addresses: Seq<Seq<char>>,
    at: int,
)
    requires
        is_vertex_list(vertices, addresses),
        vertex_failure(addresses) is None,
        0 <= at < addresses.len(),
    ensures
        coordinate_of(vertices, addresses[at]) < vertices.len(),
        vertices[coordinate_of(vertices, addresses[at]) as int] == addresses[at],
{
    lemma_vertex_count(vertices, addresses);
    let place = lemma_coordinate_of_listed(vertices, addresses, at);
}

/// The edges of a flow matrix are as many as the transfers and follow their
/// order: each carries the amount of its transfer, and is marked 1 exactly
/// where it is terminal.
pub proof fn lemma_edges_follow_transfers(
    matrix: FlowMatrixView,
    from: Seq<char>,
    to: Seq<char>,
    transfers: Seq<StepView>,
)
    requires
        is_flow_matrix(matrix, from, to, transfers),
    ensures
        matrix.flow_edges.len() == transfers.len(),
        forall|i: int|
            0 <= i < transfers.len() ==> {
                &&& (#[trigger] matrix.flow_edges[i]).amount == transfers[i].value
                &&& matrix.flow_edges[i].stream_sink_id <= 1
                &&& matrix.flow_edges[i].stream_sink_id == 1 <==> is_terminal(transfers, to, i)
            },
{
}

/// The vertices of a flow matrix ascend strictly by their numbers, so that
/// none occurs twice, and they are as many as the addresses of the path are
/// distinct. The source and the sink are among them, each at its coordinate.
pub proof fn lemma_vertices_ascend(
    matrix: FlowMatrixView,
    from: Seq<char>,
    to: Seq<char>,
    transfers: Seq<StepView>,
)
    requires
        is_flow_matrix(matrix, from, to, transfers),
        vertex_failure(touched(from, to, transfers)) is None,
    ensures
        ascending(numbers_of(matrix.flow_vertices)),
        matrix.flow_vertices.no_duplicates(),
        matrix.flow_vertices.len() == touched(from, to, transfers).to_set().len(),
        matrix.flow_vertices.len() <= 65536,
        matrix.source_coordinate < matrix.flow_vertices.len(),
        matrix.flow_vertices[matrix.source_coordinate as int] == from,
        coordinate_of(matrix.flow_vertices, to) < matrix.flow_vertices.len(),
        matrix.flow_vertices[coordinate_of(matrix.flow_vertices, to) as int] == to,
        matrix.flow_vertices.contains(from),
        matrix.flow_vertices.contains(to),
{
    let vertices = matrix.flow_vertices;
    let addresses = touched(from, to, transfers);
    lemma_vertex_count(vertices, addresses);
    lemma_vertices_distinct(vertices);
    assert(addresses[0] == from);
    assert(addresses[1] == to);
    lemma_coordinate_of_touched(vertices, addresses, 0);
    lemma_coordinate_of_touched(vertices, addresses, 1);
}

/// A path that touches more than 65536 distinct addresses, all of them valid,
/// has no flow matrix: whatever the amounts are, building it fails for the
/// number of its vertices.
pub proof fn lemma_vertex_overflow(
    outcome: Result<FlowMatrixView, FlowError>,
    from: Seq<char>,
    to: Seq<char>,
    value: Seq<char>,
    transfers: Seq<StepView>,
)
    requires
        is_outcome(outcome, from, to, value, transfers),
        all_valid(touched(from, to, transfers)),
        touched(from, to, transfers).to_set().len() > 65536,
    ensures
        outcome == Err::<FlowMatrixView, FlowError>(
            FlowError::VertexOverflow {
                count: touched(from, to, transfers).to_set().len() as usize,
            },
        ),
{
}

/// An amount that has no number, be it the amount requested or the amount of
/// any transfer, leaves a path without a flow matrix. Where the addresses are
/// valid and the path has a transfer, the failure is that of the amount,
/// however many transfers there are.
pub proof fn lemma_invalid_amount(
    outcome: Result<FlowMatrixView, FlowError>,
    from: Seq<char>,
    to: Seq<char>,
    value: Seq<char>,
    transfers: Seq<StepView>,
    at: int,
)
    requires
        is_outcome(outcome, from, to, value, transfers),
        amount_number(value) is None || (0 <= at < transfers.len() && amount_number(
            transfers[at].value,
        ) is None),
    ensures
        outcome is Err,
        vertex_failure(touched(from, to, transfers)) is None && transfers.len() > 0 ==> outcome
            == Err::<FlowMatrixView, FlowError>(FlowError::InvalidAmount),
{
    let edges = expected_edges(transfers, to);
    if amount_number(value) is Some {
        assert(edges[at].amount == transfers[at].value);
        assert(!amounts_valid(edges));
    }
}

/// Terminal edges that carry another sum than was requested leave a path
/// without a flow matrix. Where the addresses are valid, the path has a
/// transfer and every amount has a number, the failure is that of the sum,
/// however many transfers there are.
pub proof fn lemma_flow_mismatch(
    outcome: Result<FlowMatrixView, FlowError>,
    from: Seq<char>,
    to: Seq<char>,
    value: Seq<char>,
    transfers: Seq<StepView>,
)
    requires
        is_outcome(outcome, from, to, value, transfers),
        vertex_failure(touched(from, to, transfers)) is None,
        transfers.len() > 0,
        amount_number(value) is Some,
        amounts_valid(expected_edges(transfers, to)),
        amount_number(value) != Some(
            sink_total(expected_edges(transfers, to), transfers.len() as int),
        ),
    ensures
        outcome matches Err(FlowError::FlowMismatch { terminal_sum, expected }) && terminal_sum.value()
            == sink_total(expected_edges(transfers, to), transfers.len() as int) && Some(
            expected.value(),
        ) == amount_number(value),
{
}

/// In a flow matrix an edge is terminal, and the terminal edges carry exactly
/// the amount that was requested.
pub proof fn lemma_terminal_sum(
    matrix: FlowMatrixView,
    from: Seq<char>,
    to: Seq<char>,
    value: Seq<char>,
    transfers: Seq<StepView>,
)
    requires
        is_flow_matrix(matrix, from, to, transfers),
        buildable(from, to, value, transfers),
    ensures
        exists|i: int|
            0 <= i < matrix.flow_edges.len() && (#[trigger] matrix.flow_edges[i]).stream_sink_id
                == 1,
        amount_number(value) == Some(
            sink_total(matrix.flow_edges, matrix.flow_edges.len() as int),
        ),
{
    let last = transfers.len() - 1;
    if none_reaches(transfers, to, transfers.len() as int) {
        assert(is_terminal(transfers, to, last));
        assert(matrix.flow_edges[last].stream_sink_id == 1);
    } else {
        let i = choose|i: int| 0 <= i < transfers.len() && reaches_sink(transfers, to, i);
        assert(is_terminal(transfers, to, i));
        assert(matrix.flow_edges[i].stream_sink_id == 1);
    }
}

/// The packed coordinates of a flow matrix hold six bytes for each transfer.
/// Unpacked, they are three coordinates for each transfer, and the vertices
/// at them have the numbers of its token owner, its sender and its receiver.
pub proof fn lemma_packed_coordinates(
    matrix: FlowMatrixView,
    from: Seq<char>,
    to: Seq<char>,
    transfers: Seq<StepView>,
)
    requires
        is_flow_matrix(matrix, from, to, transfers),
        vertex_failure(touched(from, to, transfers)) is None,
    ensures
        matrix.packed_coordinates.len() == 2 + 12 * transfers.len(),
        bytes_of_hex(matrix.packed_coordinates.skip(2)).len() == 6 * transfers.len(),
        unpacked(matrix.packed_coordinates).len() == 3 * transfers.len(),
        matrix.packed_coordinates == packed_text(unpacked(matrix.packed_coordinates)),
        forall|k: int|
            0 <= k < 3 * transfers.len() ==> (#[trigger] unpacked(matrix.packed_coordinates)[k])
                < matrix.flow_vertices.len(),
        forall|i: int|
            0 <= i < transfers.len() ==> #[trigger] names_step(
                matrix.flow_vertices,
                unpacked(matrix.packed_coordinates),
                transfers,
                i,
            ),
{
    let expected = expected_coordinates(matrix.flow_vertices, transfers);
    lemma_unpack_packed(expected);
    lemma_expected_coordinates(matrix.flow_vertices, from, to, transfers);
}

/// The coordinates of a path are three for each transfer, each the place of a
/// vertex, and the vertices at them have the numbers of the transfer's token
/// owner, its sender and its receiver.
pub proof fn lemma_expected_coordinates(
    vertices: Seq<Seq<char>>,
    from: Seq<char>,
    to: Seq<char>,
    transfers: Seq<StepView>,
)
    requires
        is_vertex_list(vertices, touched(from, to, transfers)),
        vertex_failure(touched(from, to, transfers)) is None,
    ensures
        expected_coordinates(vertices, transfers).len() == 3 * transfers.len(),
        forall|k: int|
            0 <= k < 3 * transfers.len() ==> (#[trigger] expected_coordinates(
                vertices,
                transfers,
            )[k]) < vertices.len(),
        forall|i: int|
            0 <= i < transfers.len() ==> #[trigger] names_step(
                vertices,
                expected_coordinates(vertices, transfers),
                transfers,
                i,
            ),
{
    let coordinates = expected_coordinates(vertices, transfers);
    assert forall|i: int| 0 <= i < transfers.len() implies #[trigger] names_step(
        vertices,
        coordinates,
        transfers,
        i,
    ) by {
        lemma_coordinates_of_step(vertices, from, to, transfers, i);
    }
    assert forall|k: int| 0 <= k < 3 * transfers.len() implies (#[trigger] coordinates[k])
        < vertices.len() by {
        let i = k / 3;
        lemma_coordinates_of_step(vertices, from, to, transfers, i);
    }
}

/// The three coordinates of one transfer are places of vertices, and the
/// vertices there have the numbers of its token owner, its sender and its
/// receiver.
proof fn lemma_coordinates_of_step(
    vertices: Seq<Seq<char>>,
    from: Seq<char>,
    to: Seq<char>,
    transfers: Seq<StepView>,
    i: int,
)
    requires
        is_vertex_list(vertices, touched(from, to, transfers)),
        vertex_failure(touched(from, to, transfers)) is None,
        0 <= i < transfers.len(),
    ensures
        names_step(vertices, expected_coordinates(vertices, transfers), transfers, i),
{
    let addresses = touched(from, to, transfers);
    let coordinates = expected_coordinates(vertices, transfers);
    lemma_coordinate_of_touched(vertices, addresses, 2 + 3 * i);
    lemma_coordinate_of_touched(vertices, addresses, 3 + 3 * i);
    lemma_coordinate_of_touched(vertices, addresses, 4 + 3 * i);
    assert(addresses[2 + 3 * i] == transfers[i].from);
    assert(addresses[3 + 3 * i] == transfers[i].to);
    assert(addresses[4 + 3 * i] == transfers[i].token_owner);
    assert(coordinates[3 * i] == coordinate_of(vertices, transfers[i].token_owner));
    assert(coordinates[3 * i + 1] == coordinate_of(vertices, transfers[i].from));
    assert(coordinates[3 * i + 2] == coordinate_of(vertices, transfers[i].to));
}

/// Every flow matrix that is built is sound in itself.
pub proof fn lemma_flow_matrix_well_formed(
    matrix: FlowMatrixView,
    from: Seq<char>,
    to: Seq<char>,
    value: Seq<char>,
    transfers: Seq<StepView>,
)
    requires
        is_flow_matrix(matrix, from, to, transfers),
        buildable(from, to, value, transfers),
    ensures
        well_formed(matrix),
{
    lemma_edges_follow_transfers(matrix, from, to, transfers);
    lemma_vertices_ascend(matrix, from, to, transfers);
    lemma_terminal_sum(matrix, from, to, value, transfers);
    lemma_packed_coordinates(matrix, from, to, transfers);
}

/// Building is a function of its inputs: whatever it comes to for the same
/// source, sink, amount and transfers is the same in every part, the flow
/// matrix as well as the failure.
pub proof fn lemma_outcome_unique(
    first: Result<FlowMatrixView, FlowError>,
    second: Result<FlowMatrixView, FlowError>,
    from: Seq<char>,
    to: Seq<char>,
    value: Seq<char>,
    transfers: Seq<StepView>,
)
    requires
        is_outcome(first, from, to, value, transfers),
        is_outcome(second, from, to, value, transfers),
    ensures
        first == second,
{
    match (first, second) {
        (Ok(one), Ok(other)) => {
            lemma_vertex_list_unique(
                one.flow_vertices,
                other.flow_vertices,
                touched(from, to, transfers),
            );
        },
        (
            Err(FlowError::FlowMismatch { terminal_sum, expected }),
            Err(FlowError::FlowMismatch { terminal_sum: other_sum, expected: other }),
        ) => {
            lemma_total_value_injective(terminal_sum, other_sum);
            lemma_word_value_injective(expected, other);
        },
        _ => {},
    }
}

} // verus!

//! What holds of every mesh that a text describes.
//!
//! The statements here are about [`parse_document`], and so about every mesh
//! that [`parsing`](crate::parsing::parsing) returns.

use vstd::prelude::*;
use crate::lexer::{
    lemma_line_end,
    lemma_tokens_are_maximal_runs,
    line_end,
    tokens,
    Span,
    NEWLINE,
};
use crate::number::is_number;
use crate::parsing::{
    apply_record,
    apply_records,
    assign_texture,
    assign_textures,
    corner_vertex,
    corner_vertices,
    default_tex_coords,
    face_corners,
    face_indices,
    first_normal,
    initial_geometry,
    origin,
    pair,
    parse_document,
    record_args,
    record_corners,
    record_kind,
    records,
    records_from,
    triple,
    Geometry,
    Mesh,
    Normal,
    Number,
    ParseError,
    RecordKind,
    Vertex,
    MAX_CORNERS,
};

verus! {

/// The line with the tokens `record` is a record of the kind `kind`.
pub open spec fn is_record_of(text: Seq<u8>, record: Seq<Span>, kind: RecordKind) -> bool {
    record.len() > 0 && record_kind(record[0].of(text)) == kind
}

/// The line with the tokens `record` is a face.
pub open spec fn is_face_record(text: Seq<u8>, record: Seq<Span>) -> bool {
    is_record_of(text, record, RecordKind::Face)
}

/// The positions of the vertices, in order.
pub open spec fn positions(vertices: Seq<Vertex>) -> Seq<(Number, Number, Number)> {
    Seq::new(vertices.len(), |i: int| vertices[i].position)
}

/// The positions that the vertex records among the lines give, in order.
pub open spec fn written_vertices(text: Seq<u8>, lines: Seq<Seq<Span>>) -> Seq<
    (Number, Number, Number),
>
    decreases lines.len(),
{
    if lines.len() == 0 {
        Seq::empty()
    } else {
        let rest = written_vertices(text, lines.subrange(1, lines.len() as int));
        if is_record_of(text, lines[0], RecordKind::Vertex) {
            seq![triple(record_args(lines[0]))] + rest
        } else {
            rest
        }
    }
}

/// The normals that the normal records among the lines give, in order.
pub open spec fn written_normals(text: Seq<u8>, lines: Seq<Seq<Span>>) -> Seq<Normal>
    decreases lines.len(),
{
    if lines.len() == 0 {
        Seq::empty()
    } else {
        let rest = written_normals(text, lines.subrange(1, lines.len() as int));
        if is_record_of(text, lines[0], RecordKind::Normal) {
            seq![Normal { normal: triple(record_args(lines[0])) }] + rest
        } else {
            rest
        }
    }
}

/// The texture points that the texture records among the lines give, in
/// order.
pub open spec fn written_textures(text: Seq<u8>, lines: Seq<Seq<Span>>) -> Seq<(Number, Number)>
    decreases lines.len(),
{
    if lines.len() == 0 {
        Seq::empty()
    } else {
        let rest = written_textures(text, lines.subrange(1, lines.len() as int));
        if is_record_of(text, lines[0], RecordKind::Texture) {
            seq![pair(record_args(lines[0]))] + rest
        } else {
            rest
        }
    }
}

/// The indices that the faces among the lines give, face after face.
pub open spec fn written_indices(text: Seq<u8>, lines: Seq<Seq<Span>>) -> Seq<u16>
    decreases lines.len(),
{
    if lines.len() == 0 {
        Seq::empty()
    } else {
        let rest = written_indices(text, lines.subrange(1, lines.len() as int));
        if is_face_record(text, lines[0]) {
            face_indices(corner_vertices(text, record_corners(lines[0]))) + rest
        } else {
            rest
        }
    }
}

/// A coordinate that stands in `text` as a numeric literal.
pub open spec fn is_literal_of(text: Seq<u8>, number: Number) -> bool {
    number matches Number::Literal(span) && span.within(text.len() as int) && is_number(
        span.of(text),
    )
}

/// Three coordinates that stand in `text`.
pub open spec fn is_literal_triple(text: Seq<u8>, p: (Number, Number, Number)) -> bool {
    is_literal_of(text, p.0) && is_literal_of(text, p.1) && is_literal_of(text, p.2)
}

/// A texture point that is an entry of the table `textures`.
pub open spec fn in_table(point: (Number, Number), textures: Seq<(Number, Number)>) -> bool {
    exists|t: int| 0 <= t < textures.len() && #[trigger] textures[t] == point
}

/// The tables are in order: each table has its first entry, which holds
/// zeros; every entry after it was written in `text`, coordinate by
/// coordinate; and every vertex has a texture point of the table.
pub open spec fn in_order(text: Seq<u8>, g: Geometry) -> bool {
    &&& g.vertices.len() >= 1
    &&& g.normals.len() >= 1
    &&& g.textures.len() >= 1
    &&& g.vertices[0].position == origin()
    &&& g.normals[0].normal == origin()
    &&& g.textures[0] == default_tex_coords()
    &&& forall|i: int|
        1 <= i < g.vertices.len() ==> is_literal_triple(text, (#[trigger] g.vertices[i]).position)
    &&& forall|i: int|
        1 <= i < g.normals.len() ==> is_literal_triple(text, (#[trigger] g.normals[i]).normal)
    &&& forall|i: int|
        1 <= i < g.textures.len() ==> is_literal_of(text, (#[trigger] g.textures[i]).0)
            && is_literal_of(text, g.textures[i].1)
    &&& forall|i: int|
        0 <= i < g.vertices.len() ==> in_table((#[trigger] g.vertices[i]).tex_coords, g.textures)
}

/// Every token of every line lies in the text.
pub open spec fn tokens_within(text: Seq<u8>, lines: Seq<Seq<Span>>) -> bool {
    forall|i: int, k: int|
        0 <= i < lines.len() && 0 <= k < lines[i].len() ==> (#[trigger] lines[i][k]).within(
            text.len() as int,
        )
}

/// The tokens of the lines of a text lie in the text.
pub proof fn lemma_records_within(text: Seq<u8>, from: int)
    requires
        text.len() <= usize::MAX,
    ensures
        tokens_within(text, records_from(text, from)),
    decreases text.len() - from,
{
    if 0 <= from <= text.len() {
        let end = line_end(text, from);
        lemma_line_end(text, from);
        lemma_tokens_are_maximal_runs(text, from, end);
        let first = tokens(text, from, end);
        let all = records_from(text, from);
        if end < text.len() {
            lemma_records_within(text, end + 1);
            let rest = records_from(text, end + 1);
            assert(all == seq![first] + rest);
            assert forall|i: int, k: int| 0 <= i < all.len() && 0 <= k < all[i].len() implies (
            #[trigger] all[i][k]).within(text.len() as int) by {
                if i > 0 {
                    assert(all[i] == rest[i - 1]);
                    assert(rest[i - 1][k].within(text.len() as int));
                }
            }
        }
    }
}

/// Giving texture points to vertices keeps their number and their
/// positions.
pub proof fn lemma_assign_textures_keeps_positions(
    text: Seq<u8>,
    corners: Seq<Span>,
    vertices: Seq<Vertex>,
    textures: Seq<(Number, Number)>,
)
    ensures
        assign_textures(text, corners, vertices, textures).len() == vertices.len(),
        positions(assign_textures(text, corners, vertices, textures)) == positions(vertices),
    decreases corners.len(),
{
    if corners.len() > 0 {
        lemma_assign_textures_keeps_positions(text, corners.drop_last(), vertices, textures);
        let before = assign_textures(text, corners.drop_last(), vertices, textures);
        let after = assign_texture(text, corners.last(), before, textures);
        assert(after == assign_textures(text, corners, vertices, textures));
        assert forall|i: int| 0 <= i < vertices.len() implies #[trigger] positions(after)[i]
            == positions(vertices)[i] by {
            assert(positions(before)[i] == positions(vertices)[i]);
        }
        assert(positions(after) =~= positions(vertices));
    } else {
        assert(positions(assign_textures(text, corners, vertices, textures)) =~= positions(
            vertices,
        ));
    }
}

/// Giving texture points to vertices leaves every vertex with a texture
/// point of the table.
proof fn lemma_assign_textures(
    text: Seq<u8>,
    corners: Seq<Span>,
    vertices: Seq<Vertex>,
    textures: Seq<(Number, Number)>,
)
    requires
        forall|i: int| 0 <= i < vertices.len() ==> in_table(#[trigger] vertices[i].tex_coords, textures),
    ensures
        assign_textures(text, corners, vertices, textures).len() == vertices.len(),
        forall|i: int|
            0 <= i < vertices.len() ==> (#[trigger] assign_textures(
                text,
                corners,
                vertices,
                textures,
            )[i]).position == vertices[i].position,
        forall|i: int|
            0 <= i < vertices.len() ==> in_table(
                (#[trigger] assign_textures(text, corners, vertices, textures)[i]).tex_coords,
                textures,
            ),
    decreases corners.len(),
{
    if corners.len() > 0 {
        lemma_assign_textures(text, corners.drop_last(), vertices, textures);
        let before = assign_textures(text, corners.drop_last(), vertices, textures);
        let after = assign_texture(text, corners.last(), before, textures);
        assert(after == assign_textures(text, corners, vertices, textures));
        assert forall|i: int| 0 <= i < vertices.len() implies in_table(
            (#[trigger] after[i]).tex_coords,
            textures,
        ) by {
            assert(in_table(before[i].tex_coords, textures));
        }
    }
}

/// One line keeps the tables in order.
proof fn lemma_record_keeps_order(text: Seq<u8>, record: Seq<Span>, g: Geometry)
    requires
        in_order(text, g),
        forall|k: int| 0 <= k < record.len() ==> (#[trigger] record[k]).within(text.len() as int),
    ensures
        apply_record(text, record, g) matches Ok(next) ==> in_order(text, next),
{
    if record.len() > 0 {
        let args = record.subrange(1, record.len() as int);
        assert forall|k: int| 0 <= k < args.len() implies (#[trigger] args[k]).within(
            text.len() as int,
        ) by {
            assert(args[k] == record[k + 1]);
        }
        match apply_record(text, record, g) {
            Ok(next) => {
                match record_kind(record[0].of(text)) {
                    RecordKind::Vertex => {
                        assert(is_number(args[0].of(text)));
                        assert(is_number(args[1].of(text)));
                        assert(is_number(args[2].of(text)));
                        assert(g.textures[0] == default_tex_coords());
                        assert forall|i: int| 0 <= i < next.vertices.len() implies in_table(
                            (#[trigger] next.vertices[i]).tex_coords,
                            next.textures,
                        ) by {
                            if i < g.vertices.len() {
                                assert(in_table(g.vertices[i].tex_coords, g.textures));
                            }
                        }
                    },
                    RecordKind::Normal => {
                        assert(is_number(args[0].of(text)));
                        assert(is_number(args[1].of(text)));
                        assert(is_number(args[2].of(text)));
                    },
                    RecordKind::Texture => {
                        assert(is_number(args[0].of(text)));
                        assert(is_number(args[1].of(text)));
                        assert forall|i: int| 0 <= i < next.vertices.len() implies in_table(
                            (#[trigger] next.vertices[i]).tex_coords,
                            next.textures,
                        ) by {
                            assert(in_table(g.vertices[i].tex_coords, g.textures));
                            let t = choose|t: int|
                                0 <= t < g.textures.len() && #[trigger] g.textures[t]
                                    == g.vertices[i].tex_coords;
                            assert(next.textures[t] == g.textures[t]);
                        }
                    },
                    RecordKind::Face => {
                        lemma_assign_textures(text, face_corners(args), g.vertices, g.textures);
                    },
                    RecordKind::Other => {},
                }
            },
            Err(_) => {},
        }
    }
}

/// Lines whose tokens lie in the text keep the tables in order.
proof fn lemma_records_keep_order(text: Seq<u8>, lines: Seq<Seq<Span>>, g: Geometry)
    requires
        in_order(text, g),
        tokens_within(text, lines),
    ensures
        apply_records(text, lines, g) matches Ok(last) ==> in_order(text, last),
    decreases lines.len(),
{
    if lines.len() > 0 {
        assert forall|k: int| 0 <= k < lines[0].len() implies (#[trigger] lines[0][k]).within(
            text.len() as int,
        ) by {}
        lemma_record_keeps_order(text, lines[0], g);
        match apply_record(text, lines[0], g) {
            Ok(next) => {
                let rest = lines.subrange(1, lines.len() as int);
                assert forall|i: int, k: int|
                    0 <= i < rest.len() && 0 <= k < rest[i].len() implies (
                #[trigger] rest[i][k]).within(text.len() as int) by {
                    assert(rest[i] == lines[i + 1]);
                    assert(lines[i + 1][k].within(text.len() as int));
                }
                lemma_records_keep_order(text, rest, next);
            },
            Err(_) => {},
        }
    }
}

/// The tables of a mesh are in order: each starts with its entry of zeros,
/// every other coordinate is a numeric literal of the text, and every vertex
/// has a texture point of the table of texture points.
pub proof fn lemma_mesh_in_order(text: Seq<u8>)
    requires
        text.len() <= usize::MAX,
    ensures
        parse_document(text) matches Ok(g) ==> in_order(text, g),
{
    lemma_records_within(text, 0);
    assert(initial_geometry().textures[0] == default_tex_coords());
    assert(in_table(initial_geometry().vertices[0].tex_coords, initial_geometry().textures));
    lemma_records_keep_order(text, records(text), initial_geometry());
}

/// Lines whose faces have three corners or more add indices in threes.
proof fn lemma_records_add_threes(text: Seq<u8>, lines: Seq<Seq<Span>>, g: Geometry)
    requires
        g.indices.len() % 3 == 0,
        forall|i: int|
            0 <= i < lines.len() && is_face_record(text, #[trigger] lines[i]) ==> record_corners(
                lines[i],
            ).len() >= 3,
    ensures
        apply_records(text, lines, g) matches Ok(last) ==> last.indices.len() % 3 == 0,
    decreases lines.len(),
{
    if lines.len() > 0 {
        match apply_record(text, lines[0], g) {
            Ok(next) => {
                if is_face_record(text, lines[0]) {
                    let corners = record_corners(lines[0]);
                    assert(corners.len() == 3 || corners.len() == MAX_CORNERS);
                    assert(face_indices(corner_vertices(text, corners)).len() % 3 == 0);
                }
                assert(next.indices.len() % 3 == 0);
                let rest = lines.subrange(1, lines.len() as int);
                assert forall|i: int|
                    0 <= i < rest.len() && is_face_record(
                        text,
                        #[trigger] rest[i],
                    ) implies record_corners(rest[i]).len() >= 3 by {
                    assert(rest[i] == lines[i + 1]);
                }
                lemma_records_add_threes(text, rest, next);
            },
            Err(_) => {},
        }
    }
}

/// Where every face of a text has three corners or more, and so where every
/// face is a triangle, the indices of its mesh come in threes.
pub proof fn lemma_indices_come_in_threes(text: Seq<u8>)
    requires
        forall|i: int|
            0 <= i < records(text).len() && is_face_record(text, #[trigger] records(text)[i])
                ==> record_corners(records(text)[i]).len() >= 3,
    ensures
        parse_document(text) matches Ok(g) ==> g.indices.len() % 3 == 0,
{
    lemma_records_add_threes(text, records(text), initial_geometry());
}

/// The corner names a vertex below `bound`.
pub open spec fn corner_below(text: Seq<u8>, corner: Span, bound: nat) -> bool {
    corner_vertex(text, corner) matches Some(v) && v < bound
}

/// Every corner of every face among the lines names a vertex below `bound`.
pub open spec fn corners_below(text: Seq<u8>, lines: Seq<Seq<Span>>, bound: nat) -> bool {
    forall|i: int, k: int|
        0 <= i < lines.len() && is_face_record(text, lines[i]) && 0 <= k < record_corners(
            lines[i],
        ).len() ==> corner_below(text, #[trigger] record_corners(lines[i])[k], bound)
}

/// Lines whose faces name vertices below `bound` add indices below `bound`.
proof fn lemma_records_add_below(text: Seq<u8>, lines: Seq<Seq<Span>>, g: Geometry, bound: nat)
    requires
        forall|j: int| 0 <= j < g.indices.len() ==> #[trigger] g.indices[j] < bound,
        corners_below(text, lines, bound),
    ensures
        apply_records(text, lines, g) matches Ok(last) ==> forall|j: int|
            0 <= j < last.indices.len() ==> #[trigger] last.indices[j] < bound,
    decreases lines.len(),
{
    if lines.len() > 0 {
        match apply_record(text, lines[0], g) {
            Ok(next) => {
                if is_face_record(text, lines[0]) {
                    let corners = record_corners(lines[0]);
                    let numbers = corner_vertices(text, corners);
                    let added = face_indices(numbers);
                    assert forall|k: int| 0 <= k < numbers.len() implies #[trigger] numbers[k]
                        < bound by {
                        assert(corner_below(text, record_corners(lines[0])[k], bound));
                    }
                    assert forall|k: int| 0 <= k < added.len() implies #[trigger] added[k]
                        < bound by {
                        if numbers.len() == MAX_CORNERS {
                            assert(numbers[0] < bound);
                            assert(numbers[1] < bound);
                            assert(numbers[2] < bound);
                            assert(numbers[3] < bound);
                        }
                    }
                    assert(next.indices == g.indices + added);
                }
                assert forall|j: int| 0 <= j < next.indices.len() implies #[trigger] next.indices[j]
                    < bound by {}
                let rest = lines.subrange(1, lines.len() as int);
                assert forall|i: int, k: int|
                    0 <= i < rest.len() && is_face_record(text, rest[i]) && 0 <= k
                        < record_corners(rest[i]).len() implies corner_below(
                    text,
                    #[trigger] record_corners(rest[i])[k],
                    bound,
                ) by {
                    assert(rest[i] == lines[i + 1]);
                    assert(corner_below(text, record_corners(lines[i + 1])[k], bound));
                }
                lemma_records_add_below(text, rest, next, bound);
            },
            Err(_) => {},
        }
    }
}

/// Where every corner of every face of a text names a vertex of its mesh,
/// every index of the mesh is below the number of its vertices.
pub proof fn lemma_indices_name_vertices(text: Seq<u8>)
    requires
        parse_document(text) is Ok,
        corners_below(text, records(text), parse_document(text).unwrap().vertices.len()),
    ensures
        forall|j: int|
            0 <= j < parse_document(text).unwrap().indices.len() ==> (
            #[trigger] parse_document(text).unwrap().indices[j]) < parse_document(
                text,
            ).unwrap().vertices.len(),
{
    lemma_records_add_below(
        text,
        records(text),
        initial_geometry(),
        parse_document(text).unwrap().vertices.len(),
    );
}

/// What the lines add to the tables: the vertex records their positions,
/// the normal records their normals, the texture records their points and
/// the faces their indices, each in the order of the lines; the entries that
/// were there keep their place, and the vertices their positions.
proof fn lemma_records_write(text: Seq<u8>, lines: Seq<Seq<Span>>, g: Geometry)
    ensures
        apply_records(text, lines, g) matches Ok(last) ==> {
            &&& positions(last.vertices) == positions(g.vertices) + written_vertices(text, lines)
            &&& last.normals == g.normals + written_normals(text, lines)
            &&& last.textures == g.textures + written_textures(text, lines)
            &&& last.indices == g.indices + written_indices(text, lines)
        },
    decreases lines.len(),
{
    if lines.len() == 0 {
        assert(positions(g.vertices) + written_vertices(text, lines) =~= positions(g.vertices));
        assert(g.normals + written_normals(text, lines) =~= g.normals);
        assert(g.textures + written_textures(text, lines) =~= g.textures);
        assert(g.indices + written_indices(text, lines) =~= g.indices);
    } else {
        match apply_record(text, lines[0], g) {
            Ok(next) => {
                let rest = lines.subrange(1, lines.len() as int);
                lemma_records_write(text, rest, next);
                let record = lines[0];
                let first_vertices = if is_record_of(text, record, RecordKind::Vertex) {
                    seq![triple(record_args(record))]
                } else {
                    Seq::empty()
                };
                let first_normals = if is_record_of(text, record, RecordKind::Normal) {
                    seq![Normal { normal: triple(record_args(record)) }]
                } else {
                    Seq::empty()
                };
                let first_textures = if is_record_of(text, record, RecordKind::Texture) {
                    seq![pair(record_args(record))]
                } else {
                    Seq::empty()
                };
                let first_indices = if is_face_record(text, record) {
                    face_indices(corner_vertices(text, record_corners(record)))
                } else {
                    Seq::empty()
                };
                assert(written_vertices(text, lines) =~= first_vertices + written_vertices(
                    text,
                    rest,
                ));
                assert(written_normals(text, lines) =~= first_normals + written_normals(
                    text,
                    rest,
                ));
                assert(written_textures(text, lines) =~= first_textures + written_textures(
                    text,
                    rest,
                ));
                assert(written_indices(text, lines) =~= first_indices + written_indices(
                    text,
                    rest,
                ));
                if is_face_record(text, record) {
                    lemma_assign_textures_keeps_positions(
                        text,
                        record_corners(record),
                        g.vertices,
                        g.textures,
                    );
                }
                assert(positions(next.vertices) =~= positions(g.vertices) + first_vertices);
                assert(next.normals =~= g.normals + first_normals);
                assert(next.textures =~= g.textures + first_textures);
                assert(next.indices =~= g.indices + first_indices);
                match apply_records(text, rest, next) {
                    Ok(last) => {
                        assert(positions(last.vertices) =~= positions(g.vertices)
                            + written_vertices(text, lines));
                        assert(last.normals =~= g.normals + written_normals(text, lines));
                        assert(last.textures =~= g.textures + written_textures(text, lines));
                        assert(last.indices =~= g.indices + written_indices(text, lines));
                    },
                    Err(_) => {},
                }
            },
            Err(_) => {},
        }
    }
}

/// The tables of a mesh hold what its text wrote, and nothing else: after
/// the first entry of each table come the vertices, the normals and the
/// texture points of the records, as many as there are records of each kind
/// and in their order, and the indices are those of the faces. Only the
/// texture points of the vertices depend on more than one line.
pub proof fn lemma_tables_hold_what_was_written(text: Seq<u8>)
    ensures
        parse_document(text) matches Ok(g) ==> {
            &&& positions(g.vertices) == seq![origin()] + written_vertices(text, records(text))
            &&& g.normals == seq![first_normal()] + written_normals(text, records(text))
            &&& g.textures == seq![default_tex_coords()] + written_textures(text, records(text))
            &&& g.indices == written_indices(text, records(text))
        },
{
    lemma_records_write(text, records(text), initial_geometry());
    let start = initial_geometry();
    assert(positions(start.vertices) =~= seq![origin()]);
    assert(start.normals =~= seq![first_normal()]);
    assert(start.textures =~= seq![default_tex_coords()]);
    match parse_document(text) {
        Ok(g) => {
            assert(start.indices + written_indices(text, records(text)) =~= written_indices(
                text,
                records(text),
            ));
        },
        Err(_) => {},
    }
}

/// The offset at which the line `i` of a text starts, counting lines from
/// zero: the first line starts the text, and every other line starts after
/// the newline that ends the line before it.
pub open spec fn line_start(text: Seq<u8>, i: nat) -> int
    decreases i,
{
    if i == 0 {
        0
    } else {
        line_end(text, line_start(text, (i - 1) as nat)) + 1
    }
}

/// The offset at which the line `i` after the line that starts at `from`
/// starts.
spec fn line_start_from(text: Seq<u8>, from: int, i: nat) -> int
    decreases i,
{
    if i == 0 {
        from
    } else {
        line_end(text, line_start_from(text, from, (i - 1) as nat)) + 1
    }
}

/// The number of newlines in `text` from the offset `from` on.
pub open spec fn newlines_from(text: Seq<u8>, from: int) -> nat
    decreases text.len() - from,
{
    if from < 0 || from >= text.len() {
        0
    } else if text[from] == NEWLINE {
        1 + newlines_from(text, from + 1)
    } else {
        newlines_from(text, from + 1)
    }
}

/// A line holds no newline, so the newlines from its start on are one and
/// those after it, or none where the text ends with the line.
proof fn lemma_newlines_of_line(text: Seq<u8>, from: int)
    requires
        0 <= from <= text.len(),
    ensures
        line_end(text, from) >= text.len() ==> newlines_from(text, from) == 0,
        line_end(text, from) < text.len() ==> newlines_from(text, from) == 1 + newlines_from(
            text,
            line_end(text, from) + 1,
        ),
    decreases text.len() - from,
{
    if from < text.len() && text[from] != NEWLINE {
        lemma_newlines_of_line(text, from + 1);
    }
}

/// From the offset `from` on, a text has one line more than newlines, and
/// its records are the tokens of these lines.
proof fn lemma_records_from(text: Seq<u8>, from: int, i: nat)
    requires
        0 <= from <= text.len(),
    ensures
        records_from(text, from).len() == 1 + newlines_from(text, from),
        i < records_from(text, from).len() ==> {
            let start = line_start_from(text, from, i);
            &&& from <= start <= text.len()
            &&& records_from(text, from)[i as int] == tokens(text, start, line_end(text, start))
        },
    decreases text.len() - from,
{
    let end = line_end(text, from);
    lemma_line_end(text, from);
    lemma_newlines_of_line(text, from);
    if end < text.len() {
        let rest = records_from(text, end + 1);
        assert(records_from(text, from) == seq![tokens(text, from, end)] + rest);
        if i > 0 {
            lemma_records_from(text, end + 1, (i - 1) as nat);
            lemma_line_start_from(text, from, (i - 1) as nat);
            if i < records_from(text, from).len() {
                assert(records_from(text, from)[i as int] == rest[i - 1]);
            }
        } else {
            lemma_records_from(text, end + 1, 0);
        }
    }
}

/// Counting lines from the second line on is counting them from the first,
/// one further.
proof fn lemma_line_start_from(text: Seq<u8>, from: int, i: nat)
    ensures
        line_start_from(text, line_end(text, from) + 1, i) == line_start_from(text, from, i + 1),
    decreases i,
{
    if i > 0 {
        lemma_line_start_from(text, from, (i - 1) as nat);
        assert(line_start_from(text, from, i + 1) == line_end(
            text,
            line_start_from(text, from, i),
        ) + 1);
    } else {
        assert(line_start_from(text, from, 0) == from);
        assert(line_start_from(text, from, 1) == line_end(
            text,
            line_start_from(text, from, 0),
        ) + 1);
    }
}

/// A text has one line more than it has newlines, and each line gives one
/// record: the tokens between its start and its end.
pub proof fn lemma_records_are_lines(text: Seq<u8>, i: nat)
    ensures
        records(text).len() == 1 + newlines_from(text, 0),
        i < records(text).len() ==> {
            let start = line_start(text, i);
            &&& 0 <= start <= text.len()
            &&& records(text)[i as int] == tokens(text, start, line_end(text, start))
        },
{
    lemma_records_from(text, 0, i);
    lemma_line_starts_agree(text, i);
}

/// Lines counted from the start of the text.
proof fn lemma_line_starts_agree(text: Seq<u8>, i: nat)
    ensures
        line_start_from(text, 0, i) == line_start(text, i),
    decreases i,
{
    if i > 0 {
        lemma_line_starts_agree(text, (i - 1) as nat);
    }
}

/// Reading goes line by line: the tables after some lines and one more are
/// those after the lines, with the one more read into them.
pub proof fn lemma_reading_goes_on(text: Seq<u8>, lines: Seq<Seq<Span>>, g: Geometry, n: int)
    requires
        0 <= n < lines.len(),
    ensures
        apply_records(text, lines.subrange(0, n + 1), g) == match apply_records(
            text,
            lines.subrange(0, n),
            g,
        ) {
            Ok(so_far) => apply_record(text, lines[n], so_far),
            Err(e) => Err(e),
        },
    decreases n,
{
    let longer = lines.subrange(0, n + 1);
    let shorter = lines.subrange(0, n);
    if n == 0 {
        assert(longer.subrange(1, longer.len() as int) =~= Seq::<Seq<Span>>::empty());
        assert(longer[0] == lines[0]);
        match apply_record(text, lines[0], g) {
            Ok(next) => {
                assert(apply_records(text, Seq::<Seq<Span>>::empty(), next) == Ok::<
                    Geometry,
                    ParseError,
                >(next));
            },
            Err(_) => {},
        }
    } else {
        let tail = lines.subrange(1, lines.len() as int);
        assert(longer[0] == lines[0]);
        assert(shorter[0] == lines[0]);
        assert(longer.subrange(1, longer.len() as int) =~= tail.subrange(0, n));
        assert(shorter.subrange(1, shorter.len() as int) =~= tail.subrange(0, n - 1));
        assert(tail[n - 1] == lines[n]);
        match apply_record(text, lines[0], g) {
            Ok(next) => {
                lemma_reading_goes_on(text, tail, next, n - 1);
            },
            Err(_) => {},
        }
    }
}

/// The first line that is refused ends the reading with its error, whatever
/// comes after it.
pub proof fn lemma_first_refusal_ends_reading(
    text: Seq<u8>,
    lines: Seq<Seq<Span>>,
    g: Geometry,
    n: int,
)
    requires
        0 <= n < lines.len(),
        apply_records(text, lines.subrange(0, n), g) is Ok,
        apply_record(text, lines[n], apply_records(text, lines.subrange(0, n), g).unwrap())
            is Err,
    ensures
        apply_records(text, lines, g) == apply_record(
            text,
            lines[n],
            apply_records(text, lines.subrange(0, n), g).unwrap(),
        ),
    decreases n,
{
    let tail = lines.subrange(1, lines.len() as int);
    let shorter = lines.subrange(0, n);
    if n == 0 {
        assert(apply_records(text, shorter, g) == Ok::<Geometry, ParseError>(g));
    } else {
        assert(shorter[0] == lines[0]);
        assert(shorter.subrange(1, shorter.len() as int) =~= tail.subrange(0, n - 1));
        assert(tail[n - 1] == lines[n]);
        match apply_record(text, lines[0], g) {
            Ok(next) => {
                lemma_first_refusal_ends_reading(text, tail, next, n - 1);
            },
            Err(_) => {},
        }
    }
}

/// In a mesh that was read from its text, every coordinate but zero can be
/// looked up in the text and is a numeric literal there.
pub proof fn lemma_mesh_coordinates(mesh: Mesh)
    requires
        mesh.wf(),
    ensures
        in_order(mesh.text(), mesh@),
{
    lemma_mesh_in_order(mesh.text());
}

} // verus!

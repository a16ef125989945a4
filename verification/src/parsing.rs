//! Reading a model description into a mesh.
//!
//! A description is read line by line. The first token of a line tells what
//! the line records: `v` a vertex, `vn` a normal, `vt` a texture point, `f` a
//! face; a line that starts with any other token, or holds none, records
//! nothing. The tables of vertices, normals and texture points each start
//! with one entry that no line wrote, so that the numbers in a face, which
//! count from one, index them as they are.
//!
//! Coordinates are kept as they were written: a [`Number`] is the place of a
//! numeric literal in the text. [`parse_document`] says what mesh a text
//! describes, and [`parsing`] computes it.

use vstd::prelude::*;
use vstd::utf8::encode_utf8;
use crate::index::{
    find_field_end,
    has_texture_field,
    parse_unsigned,
    read_unsigned,
    texture_field,
    vertex_field,
};
use crate::lexer::{
    find_line_end,
    lemma_line_end,
    lemma_tokens_are_maximal_runs,
    line_end,
    split_tokens,
    tokens,
    Span,
};
use crate::number::{is_number, number, LOWER_F, LOWER_N, LOWER_T};

verus! {

/// The letter that starts the records of vertices, normals and texture points.
pub const LOWER_V: u8 = 118;

/// The number of corners of a face that are read; the tokens after them are
/// passed over.
pub const MAX_CORNERS: usize = 4;

/// The largest number that a face can give a vertex.
pub const MAX_VERTEX_NUMBER: u64 = 65535;

/// A coordinate: zero, or a numeric literal at some place in the text.
#[derive(Clone, Copy, Debug, PartialEq, Eq, Structural)]
pub enum Number {
    Zero,
    Literal(Span),
}

/// A vertex: its position, and the texture point that goes with it.
#[derive(Clone, Copy, Debug, PartialEq, Eq)]
pub struct Vertex {
    pub position: (Number, Number, Number),
    pub tex_coords: (Number, Number),
}

/// A normal: a direction.
#[derive(Clone, Copy, Debug, PartialEq, Eq)]
pub struct Normal {
    pub normal: (Number, Number, Number),
}

/// Why a description was refused.
#[derive(Clone, Copy, Debug, PartialEq, Eq, Structural)]
pub enum ParseError {
    /// A token of a vertex record is no numeric literal.
    InvalidVertexComponent,
    /// A token of a normal record is no numeric literal.
    InvalidNormalComponent,
    /// A token of a texture record is no numeric literal.
    InvalidTextureComponent,
    /// A vertex or a normal without exactly three coordinates, or a texture
    /// point without exactly two.
    WrongComponentCount,
    /// A corner of a face whose vertex number or texture number cannot be read.
    InvalidFaceIndex,
}

/// What the first token of a line makes of the line.
#[derive(Clone, Copy, Debug, PartialEq, Eq, Structural)]
pub enum RecordKind {
    Vertex,
    Normal,
    Texture,
    Face,
    Other,
}

/// The tables that a description fills.
pub struct Geometry {
    pub vertices: Seq<Vertex>,
    pub normals: Seq<Normal>,
    pub textures: Seq<(Number, Number)>,
    pub indices: Seq<u16>,
}

/// The texture point of a vertex that no face has given one.
pub open spec fn default_tex_coords() -> (Number, Number) {
    (Number::Zero, Number::Zero)
}

/// The position of the first entry of a table.
pub open spec fn origin() -> (Number, Number, Number) {
    (Number::Zero, Number::Zero, Number::Zero)
}

/// The first entry of the table of vertices.
pub open spec fn first_vertex() -> Vertex {
    Vertex { position: origin(), tex_coords: default_tex_coords() }
}

/// The first entry of the table of normals.
pub open spec fn first_normal() -> Normal {
    Normal { normal: origin() }
}

/// The tables before any line is read: one entry in each but the indices.
pub open spec fn initial_geometry() -> Geometry {
    Geometry {
        vertices: seq![first_vertex()],
        normals: seq![first_normal()],
        textures: seq![default_tex_coords()],
        indices: Seq::empty(),
    }
}

/// The kind of record that a line with the first token `word` is.
pub open spec fn record_kind(word: Seq<u8>) -> RecordKind {
    if word.len() == 1 && word[0] == LOWER_V {
        RecordKind::Vertex
    } else if word.len() == 2 && word[0] == LOWER_V && word[1] == LOWER_N {
        RecordKind::Normal
    } else if word.len() == 2 && word[0] == LOWER_V && word[1] == LOWER_T {
        RecordKind::Texture
    } else if word.len() == 1 && word[0] == LOWER_F {
        RecordKind::Face
    } else {
        RecordKind::Other
    }
}

/// Every one of the tokens `args` is a numeric literal.
pub open spec fn all_numbers(text: Seq<u8>, args: Seq<Span>) -> bool {
    forall|k: int| 0 <= k < args.len() ==> is_number(#[trigger] args[k].of(text))
}

/// The first three of `args` as coordinates.
pub open spec fn triple(args: Seq<Span>) -> (Number, Number, Number) {
    (Number::Literal(args[0]), Number::Literal(args[1]), Number::Literal(args[2]))
}

/// The first two of `args` as coordinates.
pub open spec fn pair(args: Seq<Span>) -> (Number, Number) {
    (Number::Literal(args[0]), Number::Literal(args[1]))
}

/// The vertex number of the corner `corner`, where it can be read.
pub open spec fn corner_vertex(text: Seq<u8>, corner: Span) -> Option<nat> {
    parse_unsigned(vertex_field(corner.of(text)), MAX_VERTEX_NUMBER as nat)
}

/// The texture number of the corner `corner`, where it can be read.
pub open spec fn corner_texture(text: Seq<u8>, corner: Span) -> Option<nat> {
    parse_unsigned(texture_field(corner.of(text)), usize::MAX as nat)
}

/// A corner can be read when its vertex number can, and, where it has a
/// second field, its texture number too.
pub open spec fn corner_valid(text: Seq<u8>, corner: Span) -> bool {
    &&& corner_vertex(text, corner) is Some
    &&& has_texture_field(corner.of(text)) ==> corner_texture(text, corner) is Some
}

/// Every one of the corners can be read.
pub open spec fn corners_valid(text: Seq<u8>, corners: Seq<Span>) -> bool {
    forall|k: int| 0 <= k < corners.len() ==> corner_valid(text, #[trigger] corners[k])
}

/// A corner gives a texture point to its vertex when it has a second field,
/// the table of vertices holds the vertex that it names, and the table of
/// texture points holds the point that it names.
pub open spec fn corner_textures(
    text: Seq<u8>,
    corner: Span,
    vertex_count: nat,
    texture_count: nat,
) -> bool {
    &&& has_texture_field(corner.of(text))
    &&& corner_vertex(text, corner) matches Some(v)
    &&& v < vertex_count
    &&& corner_texture(text, corner) matches Some(t)
    &&& t < texture_count
}

/// The vertex numbers of the corners, in order.
pub open spec fn corner_vertices(text: Seq<u8>, corners: Seq<Span>) -> Seq<u16> {
    Seq::new(corners.len(), |k: int| corner_vertex(text, corners[k]).unwrap() as u16)
}

/// The vertices after one corner has given its texture point: where the
/// corner gives one, the vertex that it names gets the point that it names;
/// else nothing changes.
pub open spec fn assign_texture(
    text: Seq<u8>,
    corner: Span,
    vertices: Seq<Vertex>,
    textures: Seq<(Number, Number)>,
) -> Seq<Vertex> {
    if corner_textures(text, corner, vertices.len(), textures.len()) {
        let v = corner_vertex(text, corner).unwrap() as int;
        let t = corner_texture(text, corner).unwrap() as int;
        vertices.update(v, Vertex { tex_coords: textures[t], ..vertices[v] })
    } else {
        vertices
    }
}

/// The vertices after the corners have given their texture points, one after
/// the other: where two give one vertex a point, the later one stays.
pub open spec fn assign_textures(
    text: Seq<u8>,
    corners: Seq<Span>,
    vertices: Seq<Vertex>,
    textures: Seq<(Number, Number)>,
) -> Seq<Vertex>
    decreases corners.len(),
{
    if corners.len() == 0 {
        vertices
    } else {
        assign_texture(
            text,
            corners.last(),
            assign_textures(text, corners.drop_last(), vertices, textures),
            textures,
        )
    }
}

/// The indices that a face with the vertex numbers `corners` adds: a face of
/// four corners `a b c d` becomes the two triangles `a b c` and `a c d`; a
/// face of fewer corners adds its numbers as they are.
pub open spec fn face_indices(corners: Seq<u16>) -> Seq<u16> {
    if corners.len() == MAX_CORNERS {
        seq![corners[0], corners[1], corners[2], corners[0], corners[2], corners[3]]
    } else {
        corners
    }
}

/// The corners of a face with the tokens `args`: the first four of them.
pub open spec fn face_corners(args: Seq<Span>) -> Seq<Span> {
    if args.len() > MAX_CORNERS {
        args.subrange(0, MAX_CORNERS as int)
    } else {
        args
    }
}

/// The tables after a face with the given corners.
pub open spec fn apply_face(text: Seq<u8>, corners: Seq<Span>, g: Geometry) -> Result<
    Geometry,
    ParseError,
> {
    if !corners_valid(text, corners) {
        Err(ParseError::InvalidFaceIndex)
    } else {
        Ok(
            Geometry {
                vertices: assign_textures(text, corners, g.vertices, g.textures),
                indices: g.indices + face_indices(corner_vertices(text, corners)),
                ..g
            },
        )
    }
}

/// The tokens of a record after its first.
pub open spec fn record_args(record: Seq<Span>) -> Seq<Span> {
    record.subrange(1, record.len() as int)
}

/// The corners of the face with the tokens `record`.
pub open spec fn record_corners(record: Seq<Span>) -> Seq<Span> {
    face_corners(record_args(record))
}

/// The tables after one line with the tokens `record`.
pub open spec fn apply_record(text: Seq<u8>, record: Seq<Span>, g: Geometry) -> Result<
    Geometry,
    ParseError,
> {
    if record.len() == 0 {
        Ok(g)
    } else {
        let args = record_args(record);
        match record_kind(record[0].of(text)) {
            RecordKind::Vertex => if !all_numbers(text, args) {
                Err(ParseError::InvalidVertexComponent)
            } else if args.len() != 3 {
                Err(ParseError::WrongComponentCount)
            } else {
                Ok(
                    Geometry {
                        vertices: g.vertices.push(
                            Vertex { position: triple(args), tex_coords: default_tex_coords() },
                        ),
                        ..g
                    },
                )
            },
            RecordKind::Normal => if !all_numbers(text, args) {
                Err(ParseError::InvalidNormalComponent)
            } else if args.len() != 3 {
                Err(ParseError::WrongComponentCount)
            } else {
                Ok(Geometry { normals: g.normals.push(Normal { normal: triple(args) }), ..g })
            },
            RecordKind::Texture => if !all_numbers(text, args) {
                Err(ParseError::InvalidTextureComponent)
            } else if args.len() != 2 {
                Err(ParseError::WrongComponentCount)
            } else {
                Ok(Geometry { textures: g.textures.push(pair(args)), ..g })
            },
            RecordKind::Face => apply_face(text, record_corners(record), g),
            RecordKind::Other => Ok(g),
        }
    }
}

/// The token lists of the lines of `text` from the offset `from` on, one for
/// each line, in order.
pub open spec fn records_from(text: Seq<u8>, from: int) -> Seq<Seq<Span>>
    decreases text.len() - from,
{
    if from < 0 || from > text.len() {
        Seq::empty()
    } else {
        let end = line_end(text, from);
        proof {
            lemma_line_end(text, from);
        }
        if end >= text.len() {
            seq![tokens(text, from, end)]
        } else {
            seq![tokens(text, from, end)] + records_from(text, end + 1)
        }
    }
}

/// The token lists of all the lines of `text`.
pub open spec fn records(text: Seq<u8>) -> Seq<Seq<Span>> {
    records_from(text, 0)
}

/// The tables after the lines `records`, read in order from the tables `g`.
/// The first line that is refused ends the reading with its error.
pub open spec fn apply_records(text: Seq<u8>, records: Seq<Seq<Span>>, g: Geometry) -> Result<
    Geometry,
    ParseError,
>
    decreases records.len(),
{
    if records.len() == 0 {
        Ok(g)
    } else {
        match apply_record(text, records[0], g) {
            Err(e) => Err(e),
            Ok(next) => apply_records(text, records.subrange(1, records.len() as int), next),
        }
    }
}

/// The mesh that `text` describes, or why it describes none.
pub open spec fn parse_document(text: Seq<u8>) -> Result<Geometry, ParseError> {
    apply_records(text, records(text), initial_geometry())
}

/// The tables while they are filled.
struct Tables {
    vertices: Vec<Vertex>,
    normals: Vec<Normal>,
    textures: Vec<(Number, Number)>,
    indices: Vec<u16>,
}

impl View for Tables {
    type V = Geometry;

    closed spec fn view(&self) -> Geometry {
        Geometry {
            vertices: self.vertices@,
            normals: self.normals@,
            textures: self.textures@,
            indices: self.indices@,
        }
    }
}

/// A mesh, with the text that it was read from.
#[derive(Clone, Debug, PartialEq, Eq)]
pub struct Mesh {
    pub source: String,
    pub vertices: Vec<Vertex>,
    pub normals: Vec<Normal>,
    pub textures: Vec<(Number, Number)>,
    pub indices: Vec<u16>,
}

impl View for Mesh {
    type V = Geometry;

    open spec fn view(&self) -> Geometry {
        Geometry {
            vertices: self.vertices@,
            normals: self.normals@,
            textures: self.textures@,
            indices: self.indices@,
        }
    }
}

impl Mesh {
    /// The bytes of the text that the mesh was read from.
    pub open spec fn text(&self) -> Seq<u8> {
        encode_utf8(self.source@)
    }

    /// The tables of the mesh are those that its text describes.
    pub open spec fn wf(&self) -> bool {
        &&& self.text().len() <= usize::MAX
        &&& parse_document(self.text()) == Ok::<Geometry, ParseError>(self@)
    }

    /// The bytes of a coordinate that was written in the text; `None` for
    /// zero, and for a place that is not in the text.
    pub open spec fn lexeme_of(&self, number: Number) -> Option<Seq<u8>> {
        match number {
            Number::Zero => None,
            Number::Literal(span) => if span.within(self.text().len() as int) {
                Some(span.of(self.text()))
            } else {
                None
            },
        }
    }

    /// The bytes of a coordinate that was written in the text; `None` for
    /// zero, and for a place that is not in the text.
    pub fn lexeme(&self, number: Number) -> (r: Option<&[u8]>)
        ensures
            r matches Some(bytes) ==> self.lexeme_of(number) == Some(bytes@),
            r is None ==> self.lexeme_of(number) is None,
    {
        let text = self.source.as_str().as_bytes();
        match number {
            Number::Zero => None,
            Number::Literal(span) => {
                if span.start <= span.end && span.end <= text.len() {
                    Some(&text[span.start..span.end])
                } else {
                    None
                }
            },
        }
    }

    /// Tells whether the text held a record of a texture point.
    pub fn has_texture_records(&self) -> (r: bool)
        ensures
            r == (self@.textures.len() > 1),
    {
        self.textures.len() > 1
    }
}

impl ParseError {
    /// The error in words.
    pub open spec fn message_text(self) -> Seq<char> {
        match self {
            ParseError::InvalidVertexComponent => "a coordinate of a vertex is not a number"@,
            ParseError::InvalidNormalComponent => "a coordinate of a normal is not a number"@,
            ParseError::InvalidTextureComponent => "a coordinate of a texture point is not a number"@,
            ParseError::WrongComponentCount => "a vertex or a normal takes three coordinates, a texture point two"@,
            ParseError::InvalidFaceIndex => "a number in a face cannot be read"@,
        }
    }

    /// The error in words.
    pub fn message(&self) -> (r: &'static str)
        ensures
            r@ == self.message_text(),
    {
        match self {
            ParseError::InvalidVertexComponent => "a coordinate of a vertex is not a number",
            ParseError::InvalidNormalComponent => "a coordinate of a normal is not a number",
            ParseError::InvalidTextureComponent => "a coordinate of a texture point is not a number",
            ParseError::WrongComponentCount => "a vertex or a normal takes three coordinates, a texture point two",
            ParseError::InvalidFaceIndex => "a number in a face cannot be read",
        }
    }
}

/// Tells what kind of record a line with the first token `word` is.
pub fn classify(word: &[u8]) -> (kind: RecordKind)
    ensures
        kind == record_kind(word@),
{
    if word.len() == 1 {
        if word[0] == LOWER_V {
            RecordKind::Vertex
        } else if word[0] == LOWER_F {
            RecordKind::Face
        } else {
            RecordKind::Other
        }
    } else if word.len() == 2 && word[0] == LOWER_V {
        if word[1] == LOWER_N {
            RecordKind::Normal
        } else if word[1] == LOWER_T {
            RecordKind::Texture
        } else {
            RecordKind::Other
        }
    } else {
        RecordKind::Other
    }
}

/// Every span lies in a text of `len` bytes.
spec fn spans_within(spans: Seq<Span>, len: int) -> bool {
    forall|k: int| 0 <= k < spans.len() ==> (#[trigger] spans[k]).within(len)
}

/// Tells whether the tokens of a record after its first are numeric literals.
fn all_number_tokens(text: &[u8], record: &Vec<Span>) -> (r: bool)
    requires
        record@.len() > 0,
        spans_within(record@, text@.len() as int),
    ensures
        r == all_numbers(text@, record_args(record@)),
{
    let ghost args = record_args(record@);
    let mut k: usize = 1;
    while k < record.len()
        invariant
            1 <= k <= record@.len(),
            args == record_args(record@),
            spans_within(record@, text@.len() as int),
            forall|j: int| 0 <= j < k - 1 ==> is_number(#[trigger] args[j].of(text@)),
        decreases record@.len() - k,
    {
        let token: Span = record[k];
        assert(token.within(text@.len() as int));
        let literal: bool = number(&text[token.start..token.end]);
        assert(args[k - 1] == token);
        assert(literal == is_number(args[k - 1].of(text@)));
        if !literal {
            return false;
        }
        k = k + 1;
    }
    true
}

/// Reads one corner of a face: gives its vertex the texture point that it
/// names, and hands back its vertex number.
fn read_corner(text: &[u8], corner: Span, tables: &mut Tables) -> (r: Option<u16>)
    requires
        corner.within(text@.len() as int),
    ensures
        final(tables)@.normals == old(tables)@.normals,
        final(tables)@.textures == old(tables)@.textures,
        final(tables)@.indices == old(tables)@.indices,
        final(tables)@.vertices.len() == old(tables)@.vertices.len(),
        r is Some == corner_valid(text@, corner),
        r matches Some(v) ==> corner_vertex(text@, corner) == Some(v as nat),
        r is Some ==> final(tables)@.vertices == assign_texture(
            text@,
            corner,
            old(tables)@.vertices,
            old(tables)@.textures,
        ),
{
    let word = &text[corner.start..corner.end];
    let vertex_end: usize = find_field_end(word, 0);
    let v: u64 = match read_unsigned(&word[0..vertex_end], MAX_VERTEX_NUMBER) {
        None => {
            return None;
        },
        Some(v) => v,
    };
    if vertex_end < word.len() {
        let texture_end: usize = find_field_end(word, vertex_end + 1);
        match read_unsigned(&word[vertex_end + 1..texture_end], usize::MAX as u64) {
            None => {
                return None;
            },
            Some(t) => {
                if v < tables.vertices.len() as u64 && t < tables.textures.len() as u64 {
                    let mut vertex: Vertex = tables.vertices[v as usize];
                    vertex.tex_coords = tables.textures[t as usize];
                    tables.vertices[v as usize] = vertex;
                }
            },
        }
    }
    Some(v as u16)
}

/// Reads a face: the record's tokens after the first are its corners.
fn read_face(text: &[u8], record: &Vec<Span>, tables: &mut Tables) -> (r: Result<(), ParseError>)
    requires
        record@.len() > 0,
        spans_within(record@, text@.len() as int),
    ensures
        r is Ok ==> apply_face(
            text@,
            record_corners(record@),
            old(tables)@,
        ) == Ok::<Geometry, ParseError>(final(tables)@),
        r matches Err(e) ==> apply_face(
            text@,
            record_corners(record@),
            old(tables)@,
        ) == Err::<Geometry, ParseError>(e),
{
    let count: usize = if record.len() - 1 > MAX_CORNERS {
        MAX_CORNERS
    } else {
        record.len() - 1
    };
    let ghost corners = record_corners(record@);
    let mut numbers: Vec<u16> = Vec::new();
    let mut k: usize = 0;
    while k < count
        invariant
            k <= count <= MAX_CORNERS,
            count == corners.len(),
            count < record@.len(),
            corners == record_corners(record@),
            spans_within(record@, text@.len() as int),
            tables@.vertices.len() == old(tables)@.vertices.len(),
            tables@.normals == old(tables)@.normals,
            tables@.textures == old(tables)@.textures,
            tables@.indices == old(tables)@.indices,
            forall|j: int| 0 <= j < k ==> corner_valid(text@, #[trigger] corners[j]),
            numbers@ == corner_vertices(text@, corners.subrange(0, k as int)),
            tables@.vertices == assign_textures(
                text@,
                corners.subrange(0, k as int),
                old(tables)@.vertices,
                old(tables)@.textures,
            ),
        decreases count - k,
    {
        let corner: Span = record[k + 1];
        assert(corner == corners[k as int]);
        let ghost read = corners.subrange(0, k as int);
        let ghost longer = corners.subrange(0, k + 1);
        proof {
            assert(longer.drop_last() =~= read);
            assert(longer.last() == corner);
        }
        match read_corner(text, corner, tables) {
            None => {
                return Err(ParseError::InvalidFaceIndex);
            },
            Some(v) => {
                numbers.push(v);
                proof {
                    assert(numbers@ =~= corner_vertices(text@, longer));
                }
            },
        }
        k = k + 1;
    }
    proof {
        assert(corners.subrange(0, k as int) =~= corners);
    }
    let ghost before = tables@.indices;
    if numbers.len() == MAX_CORNERS {
        tables.indices.push(numbers[0]);
        tables.indices.push(numbers[1]);
        tables.indices.push(numbers[2]);
        tables.indices.push(numbers[0]);
        tables.indices.push(numbers[2]);
        tables.indices.push(numbers[3]);
        proof {
            assert(tables@.indices =~= before + face_indices(numbers@));
        }
    } else {
        let mut j: usize = 0;
        while j < numbers.len()
            invariant
                j <= numbers@.len(),
                tables@.indices == before + numbers@.subrange(0, j as int),
                tables@.vertices == assign_textures(
                    text@,
                    corners,
                    old(tables)@.vertices,
                    old(tables)@.textures,
                ),
                tables@.normals == old(tables)@.normals,
                tables@.textures == old(tables)@.textures,
            decreases numbers@.len() - j,
        {
            tables.indices.push(numbers[j]);
            proof {
                assert(tables@.indices =~= before + numbers@.subrange(0, j + 1));
            }
            j = j + 1;
        }
        proof {
            assert(numbers@.subrange(0, j as int) =~= numbers@);
        }
    }
    Ok(())
}

/// Reads one line with the tokens `record` into the tables.
fn read_record(text: &[u8], record: &Vec<Span>, tables: &mut Tables) -> (r: Result<
    (),
    ParseError,
>)
    requires
        spans_within(record@, text@.len() as int),
    ensures
        r is Ok ==> apply_record(text@, record@, old(tables)@) == Ok::<Geometry, ParseError>(
            final(tables)@,
        ),
        r matches Err(e) ==> apply_record(text@, record@, old(tables)@) == Err::<
            Geometry,
            ParseError,
        >(e),
{
    if record.len() == 0 {
        return Ok(());
    }
    let head: Span = record[0];
    assert(head.within(text@.len() as int));
    let ghost args = record@.subrange(1, record@.len() as int);
    match classify(&text[head.start..head.end]) {
        RecordKind::Vertex => {
            if !all_number_tokens(text, record) {
                return Err(ParseError::InvalidVertexComponent);
            }
            if record.len() != 4 {
                return Err(ParseError::WrongComponentCount);
            }
            tables.vertices.push(
                Vertex {
                    position: (
                        Number::Literal(record[1]),
                        Number::Literal(record[2]),
                        Number::Literal(record[3]),
                    ),
                    tex_coords: (Number::Zero, Number::Zero),
                },
            );
            Ok(())
        },
        RecordKind::Normal => {
            if !all_number_tokens(text, record) {
                return Err(ParseError::InvalidNormalComponent);
            }
            if record.len() != 4 {
                return Err(ParseError::WrongComponentCount);
            }
            tables.normals.push(
                Normal {
                    normal: (
                        Number::Literal(record[1]),
                        Number::Literal(record[2]),
                        Number::Literal(record[3]),
                    ),
                },
            );
            Ok(())
        },
        RecordKind::Texture => {
            if !all_number_tokens(text, record) {
                return Err(ParseError::InvalidTextureComponent);
            }
            if record.len() != 3 {
                return Err(ParseError::WrongComponentCount);
            }
            tables.textures.push((Number::Literal(record[1]), Number::Literal(record[2])));
            Ok(())
        },
        RecordKind::Face => read_face(text, record, tables),
        RecordKind::Other => Ok(()),
    }
}

/// Reads a whole text into tables.
fn read_text(text: &[u8]) -> (r: Result<Tables, ParseError>)
    ensures
        r matches Ok(tables) ==> parse_document(text@) == Ok::<Geometry, ParseError>(tables@),
        r matches Err(e) ==> parse_document(text@) == Err::<Geometry, ParseError>(e),
{
    let mut tables = Tables {
        vertices: Vec::new(),
        normals: Vec::new(),
        textures: Vec::new(),
        indices: Vec::new(),
    };
    tables.vertices.push(
        Vertex {
            position: (Number::Zero, Number::Zero, Number::Zero),
            tex_coords: (Number::Zero, Number::Zero),
        },
    );
    tables.normals.push(Normal { normal: (Number::Zero, Number::Zero, Number::Zero) });
    tables.textures.push((Number::Zero, Number::Zero));
    proof {
        assert(tables@.vertices =~= initial_geometry().vertices);
        assert(tables@.normals =~= initial_geometry().normals);
        assert(tables@.textures =~= initial_geometry().textures);
        assert(tables@.indices =~= initial_geometry().indices);
    }
    let mut from: usize = 0;
    loop
        invariant
            from <= text@.len(),
            parse_document(text@) == apply_records(
                text@,
                records_from(text@, from as int),
                tables@,
            ),
        decreases text@.len() - from,
    {
        let end: usize = find_line_end(text, from);
        let record: Vec<Span> = split_tokens(text, from, end);
        let ghost rest = records_from(text@, from as int).subrange(
            1,
            records_from(text@, from as int).len() as int,
        );
        proof {
            lemma_tokens_are_maximal_runs(text@, from as int, end as int);
            assert(records_from(text@, from as int)[0] == record@);
            if end >= text@.len() {
                assert(rest =~= Seq::<Seq<Span>>::empty());
            } else {
                assert(rest =~= records_from(text@, end + 1));
            }
        }
        match read_record(text, &record, &mut tables) {
            Err(e) => {
                return Err(e);
            },
            Ok(()) => {},
        }
        if end >= text.len() {
            proof {
                assert(apply_records(text@, rest, tables@) == Ok::<Geometry, ParseError>(tables@));
            }
            return Ok(tables);
        }
        from = end + 1;
    }
}

/// Reads the description `obj` into a mesh.
///
/// The result is the mesh that [`parse_document`] gives for the bytes of
/// `obj`, together with `obj` itself, or the error that it gives.
pub fn parsing(obj: String) -> (r: Result<Mesh, ParseError>)
    ensures
        r matches Ok(mesh) ==> mesh.source@ == obj@ && mesh.wf() && parse_document(
            encode_utf8(obj@),
        ) == Ok::<Geometry, ParseError>(mesh@),
        r matches Err(e) ==> parse_document(encode_utf8(obj@)) == Err::<Geometry, ParseError>(e),
{
    let text = obj.as_str().as_bytes();
    let length: usize = text.len();
    assert(text@.len() == length);
    let read = read_text(text);
    match read {
        Err(e) => Err(e),
        Ok(tables) => Ok(
            Mesh {
                source: obj,
                vertices: tables.vertices,
                normals: tables.normals,
                textures: tables.textures,
                indices: tables.indices,
            },
        ),
    }
}

} // verus!

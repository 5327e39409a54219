//! Geometry files (OBJ): vertex data, faces, and the line parser.
use vstd::prelude::*;
use crate::fan::{fan, triangulate};
use crate::mtl::{LoadMTLError, Material, MTL, describe_io_error};
use crate::number::{Number, is_float_literal, is_float_text, is_index_literal, index_value, parse_index};
use crate::text::{chars_of, rows_view, solid_split, split, split_on, string_of, tokens_of};

verus! {

/// Why an OBJ file was refused; each carries the 1-based logical line and a message.
#[derive(Debug)]
pub enum ParseError {
    InvalidToken(usize, String),
    InvalidValue(usize, String),
    InvalidVertex(usize, String),
    InvalidVertexTexture(usize, String),
    InvalidVertexNormal(usize, String),
    InvalidVertexParameterSpace(usize, String),
    InvalidFace(usize, String),
    InvalidFaceSide(usize, String),
    InvalidFaceMaterial(usize, String),
    InvalidGroup(usize, String),
    InvalidSmoothingGroup(usize, String),
    InvalidMaterialLibrary(usize, String),
    NotImplemented(usize, String),
}

/// The variants of `ParseError`, without their data.
#[derive(Debug, Clone, Copy, PartialEq, Eq, Structural)]
pub enum ErrorKind {
    Token,
    Value,
    Vertex,
    VertexTexture,
    VertexNormal,
    VertexParameterSpace,
    Face,
    FaceSide,
    FaceMaterial,
    Group,
    SmoothingGroup,
    MaterialLibrary,
    NotImplemented,
}

pub struct ErrorModel {
    pub kind: ErrorKind,
    pub line: nat,
    pub message: Seq<char>,
}

pub open spec fn error_at(kind: ErrorKind, line: nat, message: Seq<char>) -> ErrorModel {
    ErrorModel { kind, line, message }
}

impl ParseError {
    pub open spec fn view(&self) -> ErrorModel {
        match self {
            ParseError::InvalidToken(l, m) => error_at(ErrorKind::Token, *l as nat, m@),
            ParseError::InvalidValue(l, m) => error_at(ErrorKind::Value, *l as nat, m@),
            ParseError::InvalidVertex(l, m) => error_at(ErrorKind::Vertex, *l as nat, m@),
            ParseError::InvalidVertexTexture(l, m) => error_at(
                ErrorKind::VertexTexture,
                *l as nat,
                m@,
            ),
            ParseError::InvalidVertexNormal(l, m) => error_at(
                ErrorKind::VertexNormal,
                *l as nat,
                m@,
            ),
            ParseError::InvalidVertexParameterSpace(l, m) => error_at(
                ErrorKind::VertexParameterSpace,
                *l as nat,
                m@,
            ),
            ParseError::InvalidFace(l, m) => error_at(ErrorKind::Face, *l as nat, m@),
            ParseError::InvalidFaceSide(l, m) => error_at(ErrorKind::FaceSide, *l as nat, m@),
            ParseError::InvalidFaceMaterial(l, m) => error_at(
                ErrorKind::FaceMaterial,
                *l as nat,
                m@,
            ),
            ParseError::InvalidGroup(l, m) => error_at(ErrorKind::Group, *l as nat, m@),
            ParseError::InvalidSmoothingGroup(l, m) => error_at(
                ErrorKind::SmoothingGroup,
                *l as nat,
                m@,
            ),
            ParseError::InvalidMaterialLibrary(l, m) => error_at(
                ErrorKind::MaterialLibrary,
                *l as nat,
                m@,
            ),
            ParseError::NotImplemented(l, m) => error_at(ErrorKind::NotImplemented, *l as nat, m@),
        }
    }
}

/// How an error of kind `k` starts when written out.
pub open spec fn kind_prefix(k: ErrorKind) -> Seq<char> {
    match k {
        ErrorKind::Token => "Invalid token at line "@,
        ErrorKind::Value => "Invalid value at line "@,
        ErrorKind::Vertex => "Invalid vertex at line "@,
        ErrorKind::VertexTexture => "Invalid vertex texture at line "@,
        ErrorKind::VertexNormal => "Invalid vertex normal at line "@,
        ErrorKind::VertexParameterSpace => "Invalid vertex parameter space at line "@,
        ErrorKind::Face => "Invalid face at line "@,
        ErrorKind::FaceSide => "Invalid face side at line "@,
        ErrorKind::FaceMaterial => "Invalid face material at line "@,
        ErrorKind::Group => "Invalid group at line "@,
        ErrorKind::SmoothingGroup => "Invalid smoothing group at line "@,
        ErrorKind::MaterialLibrary => "Invalid material library at line "@,
        ErrorKind::NotImplemented => "Not implemented at line "@,
    }
}

fn kind_prefix_text(k: ErrorKind) -> (r: String)
    ensures
        r@ == kind_prefix(k),
{
    match k {
        ErrorKind::Token => "Invalid token at line ".to_owned(),
        ErrorKind::Value => "Invalid value at line ".to_owned(),
        ErrorKind::Vertex => "Invalid vertex at line ".to_owned(),
        ErrorKind::VertexTexture => "Invalid vertex texture at line ".to_owned(),
        ErrorKind::VertexNormal => "Invalid vertex normal at line ".to_owned(),
        ErrorKind::VertexParameterSpace => "Invalid vertex parameter space at line ".to_owned(),
        ErrorKind::Face => "Invalid face at line ".to_owned(),
        ErrorKind::FaceSide => "Invalid face side at line ".to_owned(),
        ErrorKind::FaceMaterial => "Invalid face material at line ".to_owned(),
        ErrorKind::Group => "Invalid group at line ".to_owned(),
        ErrorKind::SmoothingGroup => "Invalid smoothing group at line ".to_owned(),
        ErrorKind::MaterialLibrary => "Invalid material library at line ".to_owned(),
        ErrorKind::NotImplemented => "Not implemented at line ".to_owned(),
    }
}

/// An error written out: `<what> at line <n>: <message>`.
pub open spec fn error_text(e: ErrorModel) -> Seq<char> {
    kind_prefix(e.kind) + crate::text::decimal(e.line) + ": "@ + e.message
}

/// Writes out an error of kind `k` at `line` with `message`.
pub fn describe(k: ErrorKind, line: usize, message: &String) -> (r: String)
    ensures
        r@ == error_text(error_at(k, line as nat, message@)),
{
    let prefix = kind_prefix_text(k);
    let mut out = chars_of(prefix.as_str());
    crate::text::push_decimal(&mut out, line);
    let sep = chars_of(": ");
    crate::text::push_all(&mut out, &sep);
    let tail = chars_of(message.as_str());
    crate::text::push_all(&mut out, &tail);
    assert(out@ =~= error_text(error_at(k, line as nat, message@)));
    string_of(&out)
}

impl ParseError {
    /// The kind, line and message of the error.
    pub fn parts(&self) -> (r: (ErrorKind, usize, &String))
        ensures
            error_at(r.0, r.1 as nat, r.2@) == self.view(),
    {
        match self {
            ParseError::InvalidToken(l, m) => (ErrorKind::Token, *l, m),
            ParseError::InvalidValue(l, m) => (ErrorKind::Value, *l, m),
            ParseError::InvalidVertex(l, m) => (ErrorKind::Vertex, *l, m),
            ParseError::InvalidVertexTexture(l, m) => (ErrorKind::VertexTexture, *l, m),
            ParseError::InvalidVertexNormal(l, m) => (ErrorKind::VertexNormal, *l, m),
            ParseError::InvalidVertexParameterSpace(l, m) => (ErrorKind::VertexParameterSpace, *l, m),
            ParseError::InvalidFace(l, m) => (ErrorKind::Face, *l, m),
            ParseError::InvalidFaceSide(l, m) => (ErrorKind::FaceSide, *l, m),
            ParseError::InvalidFaceMaterial(l, m) => (ErrorKind::FaceMaterial, *l, m),
            ParseError::InvalidGroup(l, m) => (ErrorKind::Group, *l, m),
            ParseError::InvalidSmoothingGroup(l, m) => (ErrorKind::SmoothingGroup, *l, m),
            ParseError::InvalidMaterialLibrary(l, m) => (ErrorKind::MaterialLibrary, *l, m),
            ParseError::NotImplemented(l, m) => (ErrorKind::NotImplemented, *l, m),
        }
    }

    /// The error written out, as in `Invalid face at line 3: ...`.
    pub fn to_string(&self) -> (r: String)
        ensures
            r@ == error_text(self.view()),
    {
        let (k, line, message) = self.parts();
        describe(k, line, message)
    }
}

/// Why a geometry file could not be loaded: reading it, parsing it, or
/// loading one of its material libraries.
#[derive(Debug)]
pub enum LoadOBJError {
    Io(std::io::Error),
    Parse(ParseError),
    Material(LoadMTLError),
}

impl LoadOBJError {
    /// The error written out.
    pub fn to_string(&self) -> (r: String)
        ensures
            self matches LoadOBJError::Parse(p) ==> r@ == error_text(p.view()),
            self matches LoadOBJError::Material(LoadMTLError::Parse(p)) ==> r@ == error_text(p.view()),
            (self is Io || self matches LoadOBJError::Material(LoadMTLError::Io(_))) ==> r@.len() >= 10 && r@.subrange(0, 10) == "IO error: "@,
    {
        match self {
            LoadOBJError::Io(e) => describe_io_error(e),
            LoadOBJError::Parse(p) => p.to_string(),
            LoadOBJError::Material(m) => m.to_string(),
        }
    }
}

/// Message of the errors that carry no detail.
pub open spec fn plain_error() -> Seq<char> {
    "Error"@
}

fn plain_error_text() -> (r: String)
    ensures
        r@ == plain_error(),
{
    "Error".to_owned()
}

/// The token at `i`, or `default` past the end.
pub open spec fn token_or(toks: Seq<Seq<char>>, i: int, default: Seq<char>) -> Seq<char> {
    if i < toks.len() {
        toks[i]
    } else {
        default
    }
}

pub open spec fn one_literal() -> Seq<char> {
    seq!['1', '.', '0']
}

pub open spec fn zero_literal() -> Seq<char> {
    seq!['0', '.', '0']
}

/// Reads the number at `toks[i]`, or `default` where the tokens end.
fn number_at(toks: &Vec<Vec<char>>, i: usize, default: &Vec<char>) -> (r: Option<Number>)
    ensures
        r is Some <==> is_float_literal(token_or(rows_view(toks@), i as int, default@)),
        r matches Some(n) ==> n.literal@ == token_or(rows_view(toks@), i as int, default@),
{
    let lit: &Vec<char> = if i < toks.len() {
        &toks[i]
    } else {
        default
    };
    if is_float_text(lit) {
        Some(Number { literal: string_of(lit) })
    } else {
        None
    }
}

/// A geometric vertex `v x y z [w]`.
#[derive(Debug)]
pub struct Vertice {
    pub x: Number,
    pub y: Number,
    pub z: Number,
    pub w: Number,
}

impl Vertice {
    pub open spec fn view(&self) -> Seq<Seq<char>> {
        seq![self.x.literal@, self.y.literal@, self.z.literal@, self.w.literal@]
    }

    pub fn new(x: Number, y: Number, z: Number, w: Number) -> (r: Vertice)
        ensures
            r == (Vertice { x, y, z, w }),
    {
        Vertice { x, y, z, w }
    }
}

/// A texture vertex `vt u [v [w]]`.
#[derive(Debug)]
pub struct VerticeTexture {
    pub u: Number,
    pub v: Number,
    pub w: Number,
}

impl VerticeTexture {
    pub open spec fn view(&self) -> Seq<Seq<char>> {
        seq![self.u.literal@, self.v.literal@, self.w.literal@]
    }

    pub fn new(u: Number, v: Number, w: Number) -> (r: VerticeTexture)
        ensures
            r == (VerticeTexture { u, v, w }),
    {
        VerticeTexture { u, v, w }
    }
}

/// A vertex normal `vn i j k`.
#[derive(Debug)]
pub struct VerticeNormal {
    pub i: Number,
    pub j: Number,
    pub k: Number,
}

impl VerticeNormal {
    pub open spec fn view(&self) -> Seq<Seq<char>> {
        seq![self.i.literal@, self.j.literal@, self.k.literal@]
    }

    pub fn new(i: Number, j: Number, k: Number) -> (r: VerticeNormal)
        ensures
            r == (VerticeNormal { i, j, k }),
    {
        VerticeNormal { i, j, k }
    }
}

/// A parameter space vertex `vp u v [w]`.
#[derive(Debug)]
pub struct VerticeParameterSpace {
    pub u: Number,
    pub v: Number,
    pub w: Number,
}

impl VerticeParameterSpace {
    pub open spec fn view(&self) -> Seq<Seq<char>> {
        seq![self.u.literal@, self.v.literal@, self.w.literal@]
    }

    pub fn new(u: Number, v: Number, w: Number) -> (r: VerticeParameterSpace)
        ensures
            r == (VerticeParameterSpace { u, v, w }),
    {
        VerticeParameterSpace { u, v, w }
    }
}

/// The literals of `v x y z [w]` (tokens after the command); `w` is `1.0` when omitted.
pub open spec fn vertice_model(t: Seq<Seq<char>>) -> Option<Seq<Seq<char>>> {
    let w = token_or(t, 3, one_literal());
    if t.len() >= 3 && is_float_literal(t[0]) && is_float_literal(t[1]) && is_float_literal(t[2])
        && is_float_literal(w) {
        Some(seq![t[0], t[1], t[2], w])
    } else {
        None
    }
}

/// The literals of `vt u [v [w]]`; `v` and `w` are `0.0` when omitted.
pub open spec fn texture_model(t: Seq<Seq<char>>) -> Option<Seq<Seq<char>>> {
    let v = token_or(t, 1, zero_literal());
    let w = token_or(t, 2, zero_literal());
    if t.len() >= 1 && is_float_literal(t[0]) && is_float_literal(v) && is_float_literal(w) {
        Some(seq![t[0], v, w])
    } else {
        None
    }
}

/// The literals of `vn i j k`.
pub open spec fn normal_model(t: Seq<Seq<char>>) -> Option<Seq<Seq<char>>> {
    if t.len() >= 3 && is_float_literal(t[0]) && is_float_literal(t[1]) && is_float_literal(t[2]) {
        Some(seq![t[0], t[1], t[2]])
    } else {
        None
    }
}

/// The literals of `vp u v [w]`; `w` is `1.0` when omitted.
pub open spec fn parameter_model(t: Seq<Seq<char>>) -> Option<Seq<Seq<char>>> {
    let w = token_or(t, 2, one_literal());
    if t.len() >= 2 && is_float_literal(t[0]) && is_float_literal(t[1]) && is_float_literal(w) {
        Some(seq![t[0], t[1], w])
    } else {
        None
    }
}

/// Reads the tokens after `v`.
pub fn parse_vertice(tokens: &Vec<Vec<char>>, line_n: usize) -> (r: Result<Vertice, ParseError>)
    ensures
        match vertice_model(rows_view(tokens@)) {
            Some(m) => r matches Ok(v) && v.view() == m,
            None => r matches Err(e) && e.view() == error_at(ErrorKind::Vertex, line_n as nat, plain_error()),
        },
{
    let ghost t = rows_view(tokens@);
    let one = vec!['1', '.', '0'];
    let none = vec![];
    if tokens.len() < 3 {
        return Err(ParseError::InvalidVertex(line_n, plain_error_text()));
    }
    let x = number_at(tokens, 0, &none);
    let y = number_at(tokens, 1, &none);
    let z = number_at(tokens, 2, &none);
    let w = number_at(tokens, 3, &one);
    assert(one@ == one_literal());
    match (x, y, z, w) {
        (Some(x), Some(y), Some(z), Some(w)) => {
            let v = Vertice::new(x, y, z, w);
            assert(v.view() =~= vertice_model(t)->Some_0);
            Ok(v)
        },
        _ => Err(ParseError::InvalidVertex(line_n, plain_error_text())),
    }
}

/// Reads the tokens after `vt`.
pub fn parse_vertice_texture(tokens: &Vec<Vec<char>>, line_n: usize) -> (r: Result<
    VerticeTexture,
    ParseError,
>)
    ensures
        match texture_model(rows_view(tokens@)) {
            Some(m) => r matches Ok(v) && v.view() == m,
            None => r matches Err(e) && e.view() == error_at(ErrorKind::VertexTexture, line_n as nat, plain_error()),
        },
{
    let ghost t = rows_view(tokens@);
    let zero = vec!['0', '.', '0'];
    let none = vec![];
    if tokens.len() < 1 {
        return Err(ParseError::InvalidVertexTexture(line_n, plain_error_text()));
    }
    let u = number_at(tokens, 0, &none);
    let v = number_at(tokens, 1, &zero);
    let w = number_at(tokens, 2, &zero);
    assert(zero@ == zero_literal());
    match (u, v, w) {
        (Some(u), Some(v), Some(w)) => {
            let r = VerticeTexture::new(u, v, w);
            assert(r.view() =~= texture_model(t)->Some_0);
            Ok(r)
        },
        _ => Err(ParseError::InvalidVertexTexture(line_n, plain_error_text())),
    }
}

/// Reads the tokens after `vn`.
pub fn parse_vertice_normal(tokens: &Vec<Vec<char>>, line_n: usize) -> (r: Result<
    VerticeNormal,
    ParseError,
>)
    ensures
        match normal_model(rows_view(tokens@)) {
            Some(m) => r matches Ok(v) && v.view() == m,
            None => r matches Err(e) && e.view() == error_at(ErrorKind::VertexNormal, line_n as nat, plain_error()),
        },
{
    let ghost t = rows_view(tokens@);
    let none = vec![];
    if tokens.len() < 3 {
        return Err(ParseError::InvalidVertexNormal(line_n, plain_error_text()));
    }
    let i = number_at(tokens, 0, &none);
    let j = number_at(tokens, 1, &none);
    let k = number_at(tokens, 2, &none);
    match (i, j, k) {
        (Some(i), Some(j), Some(k)) => {
            let r = VerticeNormal::new(i, j, k);
            assert(r.view() =~= normal_model(t)->Some_0);
            Ok(r)
        },
        _ => Err(ParseError::InvalidVertexNormal(line_n, plain_error_text())),
    }
}

/// Reads the tokens after `vp`.
pub fn parse_vertice_parameter_space(tokens: &Vec<Vec<char>>, line_n: usize) -> (r: Result<
    VerticeParameterSpace,
    ParseError,
>)
    ensures
        match parameter_model(rows_view(tokens@)) {
            Some(m) => r matches Ok(v) && v.view() == m,
            None => r matches Err(e) && e.view() == error_at(
                ErrorKind::VertexParameterSpace,
                line_n as nat,
                plain_error(),
            ),
        },
{
    let ghost t = rows_view(tokens@);
    let one = vec!['1', '.', '0'];
    let none = vec![];
    if tokens.len() < 2 {
        return Err(ParseError::InvalidVertexParameterSpace(line_n, plain_error_text()));
    }
    let u = number_at(tokens, 0, &none);
    let v = number_at(tokens, 1, &none);
    let w = number_at(tokens, 2, &one);
    assert(one@ == one_literal());
    match (u, v, w) {
        (Some(u), Some(v), Some(w)) => {
            let r = VerticeParameterSpace::new(u, v, w);
            assert(r.view() =~= parameter_model(t)->Some_0);
            Ok(r)
        },
        _ => Err(ParseError::InvalidVertexParameterSpace(line_n, plain_error_text())),
    }
}

/// Whether two character strings are equal.
pub fn same_chars(a: &Vec<char>, b: &Vec<char>) -> (r: bool)
    ensures
        r == (a@ == b@),
{
    if a.len() != b.len() {
        return false;
    }
    let mut k: usize = 0;
    while k < a.len()
        invariant
            a@.len() == b@.len(),
            k <= a@.len(),
            forall|m: int| 0 <= m < k ==> a@[m] == b@[m],
        decreases a@.len() - k,
    {
        if a[k] != b[k] {
            return false;
        }
        k = k + 1;
    }
    assert(a@ =~= b@);
    true
}

/// Whether the token `t` is the word `w`.
pub fn token_is(t: &Vec<char>, w: &str) -> (r: bool)
    ensures
        r == (t@ == w@),
{
    let wc = chars_of(w);
    same_chars(t, &wc)
}

/// References of one face corner, 1-based; `vt` and `vn` are 0 where absent.
#[derive(Debug, Clone, Copy, PartialEq, Eq, Structural)]
pub struct VertexDataReference {
    pub v: usize,
    pub vt: usize,
    pub vn: usize,
}

impl VertexDataReference {
    pub fn new(v: usize, vt: usize, vn: usize) -> (r: VertexDataReference)
        ensures
            r == (VertexDataReference { v, vt, vn }),
    {
        VertexDataReference { v, vt, vn }
    }
}

/// A polygon: its corners, the material named by a `usemtl` line just before
/// it, and the material found under that name once libraries are loaded.
#[derive(Debug)]
pub struct Face {
    pub vertex_references: Vec<VertexDataReference>,
    pub material_name: Option<String>,
    pub material: Option<Material>,
    pub smoothing_group: Option<usize>,
}

pub struct FaceModel {
    pub corners: Seq<VertexDataReference>,
    pub material_name: Option<Seq<char>>,
}

pub open spec fn name_view(o: Option<String>) -> Option<Seq<char>> {
    match o {
        Some(s) => Some(s@),
        None => None,
    }
}

impl Face {
    pub open spec fn view(&self) -> FaceModel {
        FaceModel {
            corners: self.vertex_references@,
            material_name: name_view(self.material_name),
        }
    }

    /// A face whose material is not resolved yet.
    pub fn partial_new(vertex_references: Vec<VertexDataReference>, material_name: Option<String>) -> (r: Face)
        ensures
            r.vertex_references == vertex_references,
            r.material_name == material_name,
            r.material is None,
            r.smoothing_group is None,
    {
        Face { vertex_references, material_name, material: None, smoothing_group: None }
    }

    pub fn is_partial(&self) -> (r: bool)
        ensures
            r == self.material is None,
    {
        self.material.is_none()
    }

    pub fn set_material(&mut self, material: Option<Material>)
        ensures
            final(self).material == material,
            final(self).vertex_references == old(self).vertex_references,
            final(self).material_name == old(self).material_name,
            final(self).smoothing_group == old(self).smoothing_group,
    {
        self.material = material;
    }
}

/// Two faces are equal when their corners are: the material plays no part.
impl PartialEq for Face {
    fn eq(&self, other: &Face) -> (r: bool) {
        let a = &self.vertex_references;
        let b = &other.vertex_references;
        if a.len() != b.len() {
            assert(a@.len() != b@.len());
            return false;
        }
        let mut k: usize = 0;
        while k < a.len()
            invariant
                a@ == self.vertex_references@,
                b@ == other.vertex_references@,
                a@.len() == b@.len(),
                k <= a@.len(),
                forall|m: int| 0 <= m < k ==> a@[m] == b@[m],
            decreases a@.len() - k,
        {
            let x = a[k];
            let y = b[k];
            if x.v != y.v || x.vt != y.vt || x.vn != y.vn {
                assert(a@[k as int] != b@[k as int]);
                assert(self.vertex_references@ != other.vertex_references@);
                return false;
            }
            k = k + 1;
        }
        assert(a@ =~= b@);
        true
    }
}

impl vstd::std_specs::cmp::PartialEqSpecImpl for Face {
    open spec fn obeys_eq_spec() -> bool {
        true
    }

    open spec fn eq_spec(&self, other: &Face) -> bool {
        self.vertex_references@ == other.vertex_references@
    }
}

/// Corner `v`, `v/vt`, `v/vt/vn` or `v//vn`; the flag tells the last shape.
pub open spec fn corner_model(tok: Seq<char>) -> Option<(VertexDataReference, bool)> {
    let p = split(tok, '/');
    let v = p[0];
    let vt = token_or(p, 1, seq!['0']);
    let vn = token_or(p, 2, seq!['0']);
    if !is_index_literal(v) || !is_index_literal(vn) {
        None
    } else if vt.len() == 0 {
        Some((VertexDataReference { v: index_value(v) as usize, vt: 0, vn: index_value(vn) as usize }, true))
    } else if is_index_literal(vt) {
        Some((VertexDataReference {
            v: index_value(v) as usize,
            vt: index_value(vt) as usize,
            vn: index_value(vn) as usize,
        }, false))
    } else {
        None
    }
}

pub open spec fn mixed_corners_message() -> Seq<char> {
    "Illegal to give vertex texture for some vertices, but not all"@
}

pub open spec fn few_corners_message() -> Seq<char> {
    "A face needs at least three vertices"@
}

/// The material named on `prev` when it is a `usemtl` line.
pub open spec fn usemtl_name(prev: Option<Seq<char>>) -> Option<Seq<char>> {
    match prev {
        Some(l) => {
            let t = tokens_of(l);
            if t.len() >= 2 && t[0] == "usemtl"@ {
                Some(t[1])
            } else {
                None
            }
        },
        None => None,
    }
}

/// A face from the tokens after `f`, and the line before it.
pub open spec fn face_model(t: Seq<Seq<char>>, prev: Option<Seq<char>>, n: nat) -> Result<
    FaceModel,
    ErrorModel,
> {
    if exists|i: int| 0 <= i < t.len() && corner_model(#[trigger] t[i]) is None {
        Err(error_at(ErrorKind::FaceSide, n, plain_error()))
    } else if (exists|i: int| 0 <= i < t.len() && !corner_model(#[trigger] t[i])->Some_0.1) && (
    exists|i: int| 0 <= i < t.len() && corner_model(#[trigger] t[i])->Some_0.1) {
        Err(error_at(ErrorKind::Face, n, mixed_corners_message()))
    } else if t.len() < 3 {
        Err(error_at(ErrorKind::Face, n, few_corners_message()))
    } else {
        Ok(
            FaceModel {
                corners: t.map_values(|tok: Seq<char>| corner_model(tok)->Some_0.0),
                material_name: usemtl_name(prev),
            },
        )
    }
}

/// Reads one corner of a face.
fn parse_corner(tok: &Vec<char>) -> (r: Option<(VertexDataReference, bool)>)
    ensures
        r == corner_model(tok@),
{
    let p = split_on(tok, '/');
    let zero = vec!['0'];
    proof {
        crate::text::lemma_split_nonempty(tok@, '/');
    }
    let vt_tok: &Vec<char> = if p.len() > 1 {
        &p[1]
    } else {
        &zero
    };
    let vn_tok: &Vec<char> = if p.len() > 2 {
        &p[2]
    } else {
        &zero
    };
    let ghost ps = split(tok@, '/');
    assert(zero@ =~= seq!['0']);
    assert(ps.len() == p@.len());
    assert(p[0]@ == ps[0]);
    assert(vt_tok@ == token_or(ps, 1, seq!['0']));
    assert(vn_tok@ == token_or(ps, 2, seq!['0']));
    let v = parse_index(&p[0]);
    let vn = parse_index(vn_tok);
    match (v, vn) {
        (Some(v), Some(vn)) => {
            if vt_tok.len() == 0 {
                Some((VertexDataReference::new(v, 0, vn), true))
            } else {
                match parse_index(vt_tok) {
                    Some(vt) => Some((VertexDataReference::new(v, vt, vn), false)),
                    None => None,
                }
            }
        },
        _ => None,
    }
}

pub open spec fn line_view(line: Option<&Vec<char>>) -> Option<Seq<char>> {
    match line {
        Some(l) => Some(l@),
        None => None,
    }
}

/// The material named on `line` when it is a `usemtl` line.
fn parse_usemtl(line: Option<&Vec<char>>) -> (r: Option<String>)
    ensures
        name_view(r) == usemtl_name(line_view(line)),
{
    match line {
        Some(l) => {
            let t = solid_split(l, ' ');
            if t.len() >= 2 && token_is(&t[0], "usemtl") {
                Some(string_of(&t[1]))
            } else {
                None
            }
        },
        None => None,
    }
}

/// Reads the tokens after `f`; `previous_line` is the logical line before it.
pub fn parse_face(tokens: &Vec<Vec<char>>, previous_line: Option<&Vec<char>>, line_n: usize) -> (r:
    Result<Face, ParseError>)
    ensures
        match face_model(rows_view(tokens@), line_view(previous_line), line_n as nat) {
            Ok(m) => r matches Ok(f) && f.view() == m && f.material is None
                && f.smoothing_group is None,
            Err(e) => r matches Err(x) && x.view() == e,
        },
{
    let ghost t = rows_view(tokens@);
    let material_name = parse_usemtl(previous_line);
    let mut refs: Vec<VertexDataReference> = Vec::new();
    let mut triplets = false;
    let mut twins = false;
    let mut i: usize = 0;
    while i < tokens.len()
        invariant
            t == rows_view(tokens@),
            i <= t.len(),
            forall|j: int| 0 <= j < i ==> corner_model(#[trigger] t[j]) is Some,
            refs@ == t.take(i as int).map_values(|tok: Seq<char>| corner_model(tok)->Some_0.0),
            triplets == (exists|j: int| 0 <= j < i && !corner_model(#[trigger] t[j])->Some_0.1),
            twins == (exists|j: int| 0 <= j < i && corner_model(#[trigger] t[j])->Some_0.1),
        decreases t.len() - i,
    {
        assert(tokens[i as int]@ == t[i as int]);
        match parse_corner(&tokens[i]) {
            Some((c, twin)) => {
                refs.push(c);
                if twin {
                    twins = true;
                } else {
                    triplets = true;
                }
                assert(refs@ =~= t.take(i + 1).map_values(
                    |tok: Seq<char>| corner_model(tok)->Some_0.0,
                ));
            },
            None => {
                return Err(ParseError::InvalidFaceSide(line_n, plain_error_text()));
            },
        }
        i = i + 1;
    }
    assert(t.take(i as int) =~= t);
    if triplets && twins {
        return Err(
            ParseError::InvalidFace(
                line_n,
                "Illegal to give vertex texture for some vertices, but not all".to_owned(),
            ),
        );
    }
    if tokens.len() < 3 {
        return Err(
            ParseError::InvalidFace(line_n, "A face needs at least three vertices".to_owned()),
        );
    }
    Ok(Face::partial_new(refs, material_name))
}

/// Reads the tokens after `s`: a group number, with `off` or nothing meaning 0.
pub fn parse_smoothing_group(tokens: &Vec<Vec<char>>, line_n: usize) -> (r: Result<usize, ParseError>)
    ensures
        tokens@.len() == 0 ==> r == Ok::<usize, ParseError>(0),
        tokens@.len() > 0 && tokens@[0]@ == "off"@ ==> r == Ok::<usize, ParseError>(0),
        tokens@.len() > 0 && tokens@[0]@ != "off"@ ==> match r {
            Ok(id) => is_index_literal(tokens@[0]@) && id == index_value(tokens@[0]@),
            Err(e) => !is_index_literal(tokens@[0]@) && e.view() == error_at(
                ErrorKind::SmoothingGroup,
                line_n as nat,
                "Invalid smoothing group"@,
            ),
        },
{
    if tokens.len() == 0 {
        return Ok(0);
    }
    if token_is(&tokens[0], "off") {
        return Ok(0);
    }
    match parse_index(&tokens[0]) {
        Some(id) => Ok(id),
        None => Err(ParseError::InvalidSmoothingGroup(line_n, "Invalid smoothing group".to_owned())),
    }
}

/// The statements of the format that this parser does not implement.
pub open spec fn is_unimplemented(c: Seq<char>) -> bool {
    c == "cstype"@
        || c == "deg"@
        || c == "bmat"@
        || c == "step"@
        || c == "p"@
        || c == "l"@
        || c == "curv"@
        || c == "curv2"@
        || c == "surf"@
        || c == "parm"@
        || c == "trim"@
        || c == "hole"@
        || c == "scrv"@
        || c == "sp"@
        || c == "end"@
        || c == "con"@
        || c == "g"@
        || c == "s"@
        || c == "mg"@
        || c == "bevel"@
        || c == "c_interp"@
        || c == "d_interp"@
        || c == "lod"@
        || c == "shadow_obj"@
        || c == "trace_obj"@
        || c == "ctech"@
        || c == "stech"@
}

fn is_unimplemented_token(c: &Vec<char>) -> (r: bool)
    ensures
        r == is_unimplemented(c@),
{
    token_is(c, "cstype")
        || token_is(c, "deg")
        || token_is(c, "bmat")
        || token_is(c, "step")
        || token_is(c, "p")
        || token_is(c, "l")
        || token_is(c, "curv")
        || token_is(c, "curv2")
        || token_is(c, "surf")
        || token_is(c, "parm")
        || token_is(c, "trim")
        || token_is(c, "hole")
        || token_is(c, "scrv")
        || token_is(c, "sp")
        || token_is(c, "end")
        || token_is(c, "con")
        || token_is(c, "g")
        || token_is(c, "s")
        || token_is(c, "mg")
        || token_is(c, "bevel")
        || token_is(c, "c_interp")
        || token_is(c, "d_interp")
        || token_is(c, "lod")
        || token_is(c, "shadow_obj")
        || token_is(c, "trace_obj")
        || token_is(c, "ctech")
        || token_is(c, "stech")
}

/// A comment line starts with `#`.
pub open spec fn is_comment(c: Seq<char>) -> bool {
    c.len() > 0 && c[0] == '#'
}

/// A geometry file: vertex data, faces, object name and material libraries.
#[derive(Debug)]
pub struct OBJ {
    pub vertices: Vec<Vertice>,
    pub vertices_texture: Vec<VerticeTexture>,
    pub vertices_normal: Vec<VerticeNormal>,
    pub vertices_parameter_space: Vec<VerticeParameterSpace>,
    pub faces: Vec<Face>,
    pub name: Option<String>,
    pub materials_names: Vec<String>,
    pub mtls: Vec<MTL>,
}

/// What a parsed OBJ file holds, numbers as their literals.
pub struct ObjModel {
    pub vertices: Seq<Seq<Seq<char>>>,
    pub textures: Seq<Seq<Seq<char>>>,
    pub normals: Seq<Seq<Seq<char>>>,
    pub parameters: Seq<Seq<Seq<char>>>,
    pub faces: Seq<FaceModel>,
    pub name: Option<Seq<char>>,
    pub libraries: Seq<Seq<char>>,
}

pub open spec fn empty_model() -> ObjModel {
    ObjModel {
        vertices: Seq::empty(),
        textures: Seq::empty(),
        normals: Seq::empty(),
        parameters: Seq::empty(),
        faces: Seq::empty(),
        name: None,
        libraries: Seq::empty(),
    }
}

pub open spec fn strings_view(s: Seq<String>) -> Seq<Seq<char>> {
    s.map_values(|x: String| x@)
}

impl OBJ {
    pub open spec fn view(&self) -> ObjModel {
        ObjModel {
            vertices: self.vertices@.map_values(|v: Vertice| v.view()),
            textures: self.vertices_texture@.map_values(|v: VerticeTexture| v.view()),
            normals: self.vertices_normal@.map_values(|v: VerticeNormal| v.view()),
            parameters: self.vertices_parameter_space@.map_values(|v: VerticeParameterSpace| v.view()),
            faces: self.faces@.map_values(|f: Face| f.view()),
            name: name_view(self.name),
            libraries: strings_view(self.materials_names@),
        }
    }

    /// As the parser leaves it: no material resolved, no library loaded.
    pub open spec fn unresolved(&self) -> bool {
        &&& self.mtls@.len() == 0
        &&& forall|i: int| 0 <= i < self.faces@.len() ==> (#[trigger] self.faces@[i]).material is None
            && self.faces@[i].smoothing_group is None
    }

    pub fn has_loaded_materials(&self) -> (r: bool)
        ensures
            r == (self.mtls@.len() > 0),
    {
        self.mtls.len() > 0
    }
}

impl Default for OBJ {
    fn default() -> (r: Self)
        ensures
            r.view() == empty_model(),
            r.unresolved(),
    {
        let r = OBJ {
            vertices: Vec::new(),
            vertices_texture: Vec::new(),
            vertices_normal: Vec::new(),
            vertices_parameter_space: Vec::new(),
            faces: Vec::new(),
            name: None,
            materials_names: Vec::new(),
            mtls: Vec::new(),
        };
        assert(r.view().vertices =~= empty_model().vertices);
        assert(r.view().textures =~= empty_model().textures);
        assert(r.view().normals =~= empty_model().normals);
        assert(r.view().parameters =~= empty_model().parameters);
        assert(r.view().faces =~= empty_model().faces);
        assert(r.view().libraries =~= empty_model().libraries);
        r
    }
}

pub open spec fn quoted(prefix: Seq<char>, c: Seq<char>) -> Seq<char> {
    prefix + c + seq!['\'']
}

/// What line `n` with tokens `t` does to `m`; `prev` is the line before it.
pub open spec fn obj_step(m: ObjModel, t: Seq<Seq<char>>, prev: Option<Seq<char>>, n: nat) -> Result<
    ObjModel,
    ErrorModel,
> {
    if t.len() == 0 {
        Err(error_at(ErrorKind::Token, n, "Missing command"@))
    } else {
        let c = t[0];
        let rest = t.skip(1);
        if c == "v"@ {
            match vertice_model(rest) {
                Some(v) => Ok(ObjModel { vertices: m.vertices.push(v), ..m }),
                None => Err(error_at(ErrorKind::Vertex, n, plain_error())),
            }
        } else if c == "vt"@ {
            match texture_model(rest) {
                Some(v) => Ok(ObjModel { textures: m.textures.push(v), ..m }),
                None => Err(error_at(ErrorKind::VertexTexture, n, plain_error())),
            }
        } else if c == "vn"@ {
            match normal_model(rest) {
                Some(v) => Ok(ObjModel { normals: m.normals.push(v), ..m }),
                None => Err(error_at(ErrorKind::VertexNormal, n, plain_error())),
            }
        } else if c == "vp"@ {
            match parameter_model(rest) {
                Some(v) => Ok(ObjModel { parameters: m.parameters.push(v), ..m }),
                None => Err(error_at(ErrorKind::VertexParameterSpace, n, plain_error())),
            }
        } else if c == "f"@ {
            match face_model(rest, prev, n) {
                Ok(f) => Ok(ObjModel { faces: m.faces.push(f), ..m }),
                Err(e) => Err(e),
            }
        } else if c == "o"@ {
            if rest.len() > 0 {
                Ok(ObjModel { name: Some(rest[0]), ..m })
            } else {
                Ok(m)
            }
        } else if c == "usemtl"@ {
            if rest.len() == 1 {
                Ok(m)
            } else {
                Err(error_at(ErrorKind::FaceMaterial, n, "You can only specify one material"@))
            }
        } else if c == "mtllib"@ {
            Ok(ObjModel { libraries: rest.filter(library_filter()), ..m })
        } else if is_comment(c) {
            Ok(m)
        } else if is_unimplemented(c) {
            Err(error_at(ErrorKind::NotImplemented, n, quoted("Statement not implemented: '"@, c)))
        } else {
            Err(error_at(ErrorKind::Token, n, quoted("Unknown token: '"@, c)))
        }
    }
}

/// Parsing from line `i` on, with `m` read so far (line numbers are 1-based).
pub open spec fn obj_run(lines: Seq<Seq<char>>, i: int, m: ObjModel) -> Result<ObjModel, ErrorModel>
    decreases lines.len() - i,
{
    if i < 0 || i >= lines.len() {
        Ok(m)
    } else {
        let prev = if i > 0 {
            Some(lines[i - 1])
        } else {
            None
        };
        match obj_step(m, tokens_of(lines[i]), prev, (i + 1) as nat) {
            Ok(next) => obj_run(lines, i + 1, next),
            Err(e) => Err(e),
        }
    }
}

/// What an OBJ text holds, or the first error in it.
pub open spec fn obj_model(text: Seq<char>) -> Result<ObjModel, ErrorModel> {
    obj_run(crate::text::logical_lines(text), 0, empty_model())
}

/// Keeps the tokens of a `mtllib` line that name a library.
pub open spec fn library_filter() -> spec_fn(Seq<char>) -> bool {
    |w: Seq<char>| w != "mtllib"@
}

/// The tokens after the first.
pub(crate) fn rest_of(toks: &Vec<Vec<char>>) -> (r: Vec<Vec<char>>)
    requires
        toks@.len() >= 1,
    ensures
        rows_view(r@) == rows_view(toks@).skip(1),
{
    let mut r: Vec<Vec<char>> = Vec::new();
    let mut k: usize = 1;
    while k < toks.len()
        invariant
            1 <= k <= toks@.len(),
            rows_view(r@) == rows_view(toks@).subrange(1, k as int),
        decreases toks@.len() - k,
    {
        let mut c: Vec<char> = Vec::new();
        crate::text::push_all(&mut c, &toks[k]);
        let ghost before = rows_view(r@);
        r.push(c);
        k = k + 1;
        assert(rows_view(r@) =~= before.push(toks@[k - 1]@));
        assert(rows_view(r@) =~= rows_view(toks@).subrange(1, k as int));
    }
    assert(rows_view(toks@).subrange(1, k as int) =~= rows_view(toks@).skip(1));
    r
}

/// `prefix`, then `c`, then a closing quote.
fn quoted_text(prefix: &str, c: &Vec<char>) -> (r: String)
    ensures
        r@ == quoted(prefix@, c@),
{
    let mut out = chars_of(prefix);
    crate::text::push_all(&mut out, c);
    out.push('\'');
    assert(out@ =~= quoted(prefix@, c@));
    string_of(&out)
}

/// The library names of a `mtllib` line, `mtllib` itself left out.
fn library_names(rest: &Vec<Vec<char>>) -> (r: Vec<String>)
    ensures
        strings_view(r@) == rows_view(rest@).filter(library_filter()),
{
    let ghost t = rows_view(rest@);
    let mut r: Vec<String> = Vec::new();
    let mut k: usize = 0;
    proof {
        reveal(Seq::filter);
        assert(t.take(0) =~= Seq::<Seq<char>>::empty());
        assert(strings_view(r@) =~= Seq::<Seq<char>>::empty());
    }
    while k < rest.len()
        invariant
            t == rows_view(rest@),
            k <= t.len(),
            strings_view(r@) == t.take(k as int).filter(library_filter()),
        decreases t.len() - k,
    {
        let ghost before = strings_view(r@);
        proof {
            assert(t.take(k + 1) =~= t.take(k as int).push(rest@[k as int]@));
            t.take(k as int).lemma_filter_push(rest@[k as int]@, library_filter());
        }
        assert(t.take(k + 1).drop_last() =~= t.take(k as int));
        assert(t.take(k + 1).last() == rest@[k as int]@);
        if !token_is(&rest[k], "mtllib") {
            r.push(string_of(&rest[k]));
            assert(strings_view(r@) =~= before.push(rest@[k as int]@));
        } else {
            assert(strings_view(r@) =~= before);
        }
        k = k + 1;
    }
    assert(t.take(k as int) =~= t);
    r
}

/// Applies line `line_n`, with tokens `toks`, to `obj`.
fn apply_line(obj: &mut OBJ, toks: &Vec<Vec<char>>, prev: Option<&Vec<char>>, line_n: usize) -> (r:
    Result<(), ParseError>)
    requires
        old(obj).unresolved(),
    ensures
        final(obj).unresolved(),
        match obj_step(old(obj).view(), rows_view(toks@), line_view(prev), line_n as nat) {
            Ok(m) => r is Ok && final(obj).view() == m,
            Err(e) => r matches Err(x) && x.view() == e,
        },
{
    let ghost m = obj.view();
    if toks.len() == 0 {
        return Err(ParseError::InvalidToken(line_n, "Missing command".to_owned()));
    }
    let c = &toks[0];
    let rest = rest_of(toks);
    assert(c@ == rows_view(toks@)[0]);
    if token_is(c, "v") {
        let v = parse_vertice(&rest, line_n)?;
        obj.vertices.push(v);
        assert(obj.view().vertices =~= m.vertices.push(v.view()));
        assert(obj.view().textures =~= m.textures);
        assert(obj.view().normals =~= m.normals);
        assert(obj.view().parameters =~= m.parameters);
        assert(obj.view().faces =~= m.faces);
        Ok(())
    } else if token_is(c, "vt") {
        let v = parse_vertice_texture(&rest, line_n)?;
        obj.vertices_texture.push(v);
        assert(obj.view().textures =~= m.textures.push(v.view()));
        assert(obj.view().vertices =~= m.vertices);
        assert(obj.view().normals =~= m.normals);
        assert(obj.view().parameters =~= m.parameters);
        assert(obj.view().faces =~= m.faces);
        Ok(())
    } else if token_is(c, "vn") {
        let v = parse_vertice_normal(&rest, line_n)?;
        obj.vertices_normal.push(v);
        assert(obj.view().normals =~= m.normals.push(v.view()));
        assert(obj.view().vertices =~= m.vertices);
        assert(obj.view().textures =~= m.textures);
        assert(obj.view().parameters =~= m.parameters);
        assert(obj.view().faces =~= m.faces);
        Ok(())
    } else if token_is(c, "vp") {
        let v = parse_vertice_parameter_space(&rest, line_n)?;
        obj.vertices_parameter_space.push(v);
        assert(obj.view().parameters =~= m.parameters.push(v.view()));
        assert(obj.view().vertices =~= m.vertices);
        assert(obj.view().textures =~= m.textures);
        assert(obj.view().normals =~= m.normals);
        assert(obj.view().faces =~= m.faces);
        Ok(())
    } else if token_is(c, "f") {
        let f = parse_face(&rest, prev, line_n)?;
        let ghost fv = f.view();
        obj.faces.push(f);
        assert(obj.view().faces =~= m.faces.push(fv));
        assert(obj.view().vertices =~= m.vertices);
        assert(obj.view().textures =~= m.textures);
        assert(obj.view().normals =~= m.normals);
        assert(obj.view().parameters =~= m.parameters);
        Ok(())
    } else if token_is(c, "o") {
        if rest.len() > 0 {
            obj.name = Some(string_of(&rest[0]));
        }
        Ok(())
    } else if token_is(c, "usemtl") {
        if rest.len() == 1 {
            Ok(())
        } else {
            Err(ParseError::InvalidFaceMaterial(line_n, "You can only specify one material".to_owned()))
        }
    } else if token_is(c, "mtllib") {
        obj.materials_names = library_names(&rest);
        Ok(())
    } else if c.len() > 0 && c[0] == '#' {
        Ok(())
    } else if is_unimplemented_token(c) {
        Err(ParseError::NotImplemented(line_n, quoted_text("Statement not implemented: '", c)))
    } else {
        Err(ParseError::InvalidToken(line_n, quoted_text("Unknown token: '", c)))
    }
}

/// Parses an OBJ text: line by line, stopping at the first error.
pub fn parse_obj(data: &str) -> (r: Result<OBJ, ParseError>)
    ensures
        match obj_model(data@) {
            Ok(m) => r matches Ok(o) && o.view() == m && o.unresolved(),
            Err(e) => r matches Err(x) && x.view() == e,
        },
{
    let chars = chars_of(data);
    let lines = solid_split(&chars, '\n');
    let ghost ls = rows_view(lines@);
    let mut obj = OBJ::default();
    let mut i: usize = 0;
    while i < lines.len()
        invariant
            ls == rows_view(lines@),
            ls == crate::text::logical_lines(data@),
            i <= ls.len(),
            obj.unresolved(),
            obj_run(ls, 0, empty_model()) == obj_run(ls, i as int, obj.view()),
        decreases ls.len() - i,
    {
        let toks = solid_split(&lines[i], ' ');
        let prev: Option<&Vec<char>> = if i > 0 {
            Some(&lines[i - 1])
        } else {
            None
        };
        assert(line_view(prev) == (if i > 0 {
            Some(ls[i - 1])
        } else {
            None
        }));
        match apply_line(&mut obj, &toks, prev, i + 1) {
            Ok(()) => {},
            Err(e) => {
                return Err(e);
            },
        }
        i = i + 1;
    }
    Ok(obj)
}

/// Replaces the corners of every face by the corners of its fan triangulation.
pub fn triangulate_polygons(obj: &mut OBJ)
    requires
        forall|i: int|
            0 <= i < old(obj).faces@.len() ==> (#[trigger] old(obj).faces@[i]).vertex_references@.len()
                <= usize::MAX / 3,
    ensures
        final(obj).faces@.len() == old(obj).faces@.len(),
        forall|i: int|
            0 <= i < final(obj).faces@.len() ==> {
                &&& (#[trigger] final(obj).faces@[i]).vertex_references@ == fan(
                    old(obj).faces@[i].vertex_references@,
                )
                &&& final(obj).faces@[i].material_name == old(obj).faces@[i].material_name
                &&& final(obj).faces@[i].material == old(obj).faces@[i].material
                &&& final(obj).faces@[i].smoothing_group == old(obj).faces@[i].smoothing_group
            },
        final(obj).vertices == old(obj).vertices,
        final(obj).vertices_texture == old(obj).vertices_texture,
        final(obj).vertices_normal == old(obj).vertices_normal,
        final(obj).vertices_parameter_space == old(obj).vertices_parameter_space,
        final(obj).name == old(obj).name,
        final(obj).materials_names == old(obj).materials_names,
        final(obj).mtls == old(obj).mtls,
{
    let ghost orig = old(obj).faces@;
    let mut faces: Vec<Face> = Vec::new();
    std::mem::swap(&mut faces, &mut obj.faces);
    let n = faces.len();
    let mut rev: Vec<Face> = Vec::new();
    while faces.len() > 0
        invariant
            n == orig.len(),
            faces@.len() + rev@.len() == n,
            forall|j: int| 0 <= j < faces@.len() ==> #[trigger] faces@[j] == orig[j],
            forall|j: int| 0 <= j < rev@.len() ==> #[trigger] rev@[j] == orig[n - 1 - j],
        decreases faces@.len(),
    {
        let f = faces.pop().unwrap();
        rev.push(f);
    }
    let mut out: Vec<Face> = Vec::new();
    while rev.len() > 0
        invariant
            n == orig.len(),
            out@.len() + rev@.len() == n,
            forall|j: int| 0 <= j < rev@.len() ==> #[trigger] rev@[j] == orig[n - 1 - j],
            forall|j: int|
                0 <= j < orig.len() ==> (#[trigger] orig[j]).vertex_references@.len() <= usize::MAX
                    / 3,
            forall|j: int|
                0 <= j < out@.len() ==> {
                    &&& (#[trigger] out@[j]).vertex_references@ == fan(orig[j].vertex_references@)
                    &&& out@[j].material_name == orig[j].material_name
                    &&& out@[j].material == orig[j].material
                    &&& out@[j].smoothing_group == orig[j].smoothing_group
                },
        decreases rev@.len(),
    {
        let mut f = rev.pop().unwrap();
        assert(f == orig[out@.len() as int]);
        f.vertex_references = triangulate(&f.vertex_references);
        out.push(f);
    }
    obj.faces = out;
}

/// The material that `name` resolves to among `tables`: the one of the last
/// table that holds that name.
pub open spec fn resolve(tables: Seq<MTL>, name: Option<Seq<char>>) -> Option<Material>
    decreases tables.len(),
{
    match name {
        None => None,
        Some(n) => if tables.len() == 0 {
            None
        } else {
            match tables.last().lookup(n) {
                Some(m) => Some(m),
                None => resolve(tables.drop_last(), name),
            }
        },
    }
}

/// Looks `name` up in `tables`, the last table first.
fn find_material(tables: &Vec<MTL>, name: &String) -> (r: Option<Material>)
    requires
        forall|i: int| 0 <= i < tables@.len() ==> (#[trigger] tables@[i]).wf(),
    ensures
        r == resolve(tables@, Some(name@)),
{
    let mut k: usize = tables.len();
    assert(tables@.take(k as int) =~= tables@);
    while k > 0
        invariant
            k <= tables@.len(),
            forall|i: int| 0 <= i < tables@.len() ==> (#[trigger] tables@[i]).wf(),
            resolve(tables@, Some(name@)) == resolve(tables@.take(k as int), Some(name@)),
        decreases k,
    {
        let ghost pre = tables@.take(k as int);
        assert(pre.drop_last() =~= tables@.take(k - 1));
        assert(pre.last() == tables@[k - 1]);
        match tables[k - 1].get(name.as_str()) {
            Some(m) => {
                return Some(m.clone());
            },
            None => {},
        }
        k = k - 1;
    }
    None
}

/// Index of the last `/` before `i`, or -1.
pub open spec fn last_slash(s: Seq<char>, i: int) -> int
    decreases i,
{
    if i <= 0 || i > s.len() {
        -1
    } else if s[i - 1] == '/' {
        i - 1
    } else {
        last_slash(s, i - 1)
    }
}

/// `name` in the directory of `obj_path`: everything up to its last `/`, then `name`.
pub open spec fn library_path_of(obj_path: Seq<char>, name: Seq<char>) -> Seq<char> {
    obj_path.take(last_slash(obj_path, obj_path.len() as int) + 1) + name
}

/// The path of the material library `name` that the OBJ file at `obj_path` names.
pub fn library_path(obj_path: &str, name: &String) -> (r: String)
    ensures
        r@ == library_path_of(obj_path@, name@),
{
    let p = chars_of(obj_path);
    let mut i: usize = p.len();
    while i > 0 && p[i - 1] != '/'
        invariant
            i <= p@.len(),
            last_slash(p@, p@.len() as int) == last_slash(p@, i as int),
        decreases i,
    {
        i = i - 1;
    }
    let mut out: Vec<char> = Vec::new();
    let mut k: usize = 0;
    while k < i
        invariant
            k <= i <= p@.len(),
            out@ == p@.take(k as int),
        decreases i - k,
    {
        out.push(p[k]);
        k = k + 1;
        assert(out@ =~= p@.take(k as int));
    }
    let tail = chars_of(name.as_str());
    crate::text::push_all(&mut out, &tail);
    string_of(&out)
}

/// Where a corner's data comes from: a position index and a texture index,
/// both zero-based, or `None` where the reference names nothing and a zero
/// value stands in.
#[derive(Debug, Clone, Copy, PartialEq, Eq)]
pub struct CornerSource {
    pub position: Option<usize>,
    pub texture: Option<usize>,
}

/// The zero-based index of 1-based reference `r` into a list of `len`, if it names one.
pub open spec fn in_list(r: usize, len: nat) -> Option<usize> {
    if 1 <= r && r <= len {
        Some((r - 1) as usize)
    } else {
        None
    }
}

/// The sources of one corner. With no texture vertex in the file, texture
/// coordinates are generated per position, so the position reference picks
/// them; otherwise `vt` does, or `v` where the corner gives no `vt`.
pub open spec fn corner_source(c: VertexDataReference, positions: nat, textures: nat) -> CornerSource {
    CornerSource {
        position: in_list(c.v, positions),
        texture: if textures == 0 {
            in_list(c.v, positions)
        } else if c.vt >= 1 {
            in_list(c.vt, textures)
        } else {
            in_list(c.v, textures)
        },
    }
}

/// The sources of every corner, face after face.
pub open spec fn corner_sources_of(faces: Seq<Face>, positions: nat, textures: nat) -> Seq<CornerSource>
    decreases faces.len(),
{
    if faces.len() == 0 {
        Seq::empty()
    } else {
        corner_sources_of(faces.drop_last(), positions, textures) + faces.last().vertex_references@.map_values(
            |c: VertexDataReference| corner_source(c, positions, textures),
        )
    }
}

fn in_list_exec(r: usize, len: usize) -> (o: Option<usize>)
    ensures
        o == in_list(r, len as nat),
{
    if 1 <= r && r <= len {
        Some(r - 1)
    } else {
        None
    }
}

/// The zero-based position index of a corner; a zero reference, which names
/// no vertex, gives 0.
pub open spec fn raw_index(v: usize) -> u32 {
    if v == 0 {
        0
    } else {
        (v - 1) as u32
    }
}

pub open spec fn corner_indices(c: Seq<VertexDataReference>) -> Seq<u32> {
    c.map_values(|r: VertexDataReference| raw_index(r.v))
}

/// One index per corner, face after face.
pub open spec fn raw_indices(faces: Seq<Face>) -> Seq<u32>
    decreases faces.len(),
{
    if faces.len() == 0 {
        Seq::empty()
    } else {
        raw_indices(faces.drop_last()) + corner_indices(faces.last().vertex_references@)
    }
}

/// The faces of a smoothing group.
pub struct SmoothingGroup<'a> {
    pub id: usize,
    pub faces: Vec<&'a Face>,
}

pub open spec fn in_group(id: usize) -> spec_fn(Face) -> bool {
    |f: Face| f.smoothing_group == Some(id)
}

impl OBJ {
    /// The index buffer: one zero-based position index per face corner, in order.
    /// It describes a triangle list only once every face is a triangle.
    pub fn get_raw_indices(&self) -> (r: Vec<u32>)
        ensures
            r@ == raw_indices(self.faces@),
    {
        let mut out: Vec<u32> = Vec::new();
        let mut i: usize = 0;
        while i < self.faces.len()
            invariant
                i <= self.faces@.len(),
                out@ == raw_indices(self.faces@.take(i as int)),
            decreases self.faces@.len() - i,
        {
            let c = &self.faces[i].vertex_references;
            let ghost base = out@;
            let mut k: usize = 0;
            while k < c.len()
                invariant
                    k <= c@.len(),
                    out@ == base + corner_indices(c@.take(k as int)),
                decreases c@.len() - k,
            {
                let v = c[k].v;
                let idx: u32 = if v == 0 {
                    0
                } else {
                    (v - 1) as u32
                };
                out.push(idx);
                k = k + 1;
                assert(out@ =~= base + corner_indices(c@.take(k as int)));
            }
            assert(c@.take(k as int) =~= c@);
            assert(self.faces@.take(i + 1).drop_last() =~= self.faces@.take(i as int));
            i = i + 1;
        }
        assert(self.faces@.take(i as int) =~= self.faces@);
        out
    }

    /// Where each corner's position and texture coordinates come from, in the
    /// order of the vertex buffer: face after face, corner after corner.
    pub fn corner_sources(&self) -> (r: Vec<CornerSource>)
        ensures
            r@ == corner_sources_of(
                self.faces@,
                self.vertices@.len(),
                self.vertices_texture@.len(),
            ),
    {
        let np = self.vertices.len();
        let nt = self.vertices_texture.len();
        let mut out: Vec<CornerSource> = Vec::new();
        let mut i: usize = 0;
        while i < self.faces.len()
            invariant
                i <= self.faces@.len(),
                np == self.vertices@.len(),
                nt == self.vertices_texture@.len(),
                out@ == corner_sources_of(self.faces@.take(i as int), np as nat, nt as nat),
            decreases self.faces@.len() - i,
        {
            let c = &self.faces[i].vertex_references;
            let ghost base = out@;
            let mut k: usize = 0;
            while k < c.len()
                invariant
                    k <= c@.len(),
                    np == self.vertices@.len(),
                    nt == self.vertices_texture@.len(),
                    out@ == base + c@.take(k as int).map_values(
                        |x: VertexDataReference| corner_source(x, np as nat, nt as nat),
                    ),
                decreases c@.len() - k,
            {
                let r = c[k];
                let position = in_list_exec(r.v, np);
                let texture = if nt == 0 {
                    in_list_exec(r.v, np)
                } else if r.vt >= 1 {
                    in_list_exec(r.vt, nt)
                } else {
                    in_list_exec(r.v, nt)
                };
                out.push(CornerSource { position, texture });
                k = k + 1;
                assert(out@ =~= base + c@.take(k as int).map_values(
                    |x: VertexDataReference| corner_source(x, np as nat, nt as nat),
                ));
            }
            assert(c@.take(k as int) =~= c@);
            assert(self.faces@.take(i + 1).drop_last() =~= self.faces@.take(i as int));
            i = i + 1;
        }
        assert(self.faces@.take(i as int) =~= self.faces@);
        out
    }

    /// The faces whose smoothing group is `id`, in order.
    pub fn get_smoothing_group_by_id(&self, id: usize) -> (r: SmoothingGroup)
        ensures
            r.id == id,
            r.faces@.len() == self.faces@.filter(in_group(id)).len(),
            forall|k: int| 0 <= k < r.faces@.len() ==> *r.faces@[k] == self.faces@.filter(in_group(id))[k],
    {
        let mut faces: Vec<&Face> = Vec::new();
        let mut i: usize = 0;
        proof {
            reveal(Seq::filter);
        }
        assert(self.faces@.take(0) =~= Seq::<Face>::empty());
        while i < self.faces.len()
            invariant
                i <= self.faces@.len(),
                faces@.len() == self.faces@.take(i as int).filter(in_group(id)).len(),
                forall|k: int| 0 <= k < faces@.len() ==> *faces@[k] == self.faces@.take(i as int).filter(in_group(id))[k],
            decreases self.faces@.len() - i,
        {
            let f = &self.faces[i];
            proof {
                assert(self.faces@.take(i + 1) =~= self.faces@.take(i as int).push(self.faces@[i as int]));
                self.faces@.take(i as int).lemma_filter_push(self.faces@[i as int], in_group(id));
            }
            if f.smoothing_group == Some(id) {
                faces.push(f);
            }
            i = i + 1;
        }
        assert(self.faces@.take(i as int) =~= self.faces@);
        SmoothingGroup { id, faces }
    }

    /// Keeps the loaded libraries and resolves each face's material name in them.
    pub fn load_mtls(&mut self, mtls: Vec<MTL>)
        requires
            forall|i: int| 0 <= i < mtls@.len() ==> (#[trigger] mtls@[i]).wf(),
        ensures
            final(self).mtls == mtls,
            final(self).faces@.len() == old(self).faces@.len(),
            forall|i: int|
                0 <= i < final(self).faces@.len() ==> {
                    &&& (#[trigger] final(self).faces@[i]).material == resolve(
                        mtls@,
                        name_view(old(self).faces@[i].material_name),
                    )
                    &&& final(self).faces@[i].vertex_references == old(self).faces@[i].vertex_references
                    &&& final(self).faces@[i].material_name == old(self).faces@[i].material_name
                    &&& final(self).faces@[i].smoothing_group == old(self).faces@[i].smoothing_group
                },
            final(self).vertices == old(self).vertices,
            final(self).vertices_texture == old(self).vertices_texture,
            final(self).vertices_normal == old(self).vertices_normal,
            final(self).vertices_parameter_space == old(self).vertices_parameter_space,
            final(self).name == old(self).name,
            final(self).materials_names == old(self).materials_names,
    {
        self.mtls = mtls;
        let mut i: usize = 0;
        while i < self.faces.len()
            invariant
                i <= self.faces@.len(),
                self.faces@.len() == old(self).faces@.len(),
                self.mtls == mtls,
                forall|j: int| 0 <= j < mtls@.len() ==> (#[trigger] mtls@[j]).wf(),
                forall|j: int|
                    0 <= j < self.faces@.len() ==> {
                        &&& (#[trigger] self.faces@[j]).vertex_references == old(self).faces@[j].vertex_references
                        &&& self.faces@[j].material_name == old(self).faces@[j].material_name
                        &&& self.faces@[j].smoothing_group == old(self).faces@[j].smoothing_group
                    },
                forall|j: int|
                    0 <= j < i ==> (#[trigger] self.faces@[j]).material == resolve(
                        mtls@,
                        name_view(old(self).faces@[j].material_name),
                    ),
                forall|j: int| i <= j < self.faces@.len() ==> #[trigger] self.faces@[j] == old(self).faces@[j],
                self.vertices == old(self).vertices,
                self.vertices_texture == old(self).vertices_texture,
                self.vertices_normal == old(self).vertices_normal,
                self.vertices_parameter_space == old(self).vertices_parameter_space,
                self.name == old(self).name,
                self.materials_names == old(self).materials_names,
            decreases self.faces@.len() - i,
        {
            let found = match &self.faces[i].material_name {
                Some(name) => find_material(&self.mtls, name),
                None => None,
            };
            self.faces[i].set_material(found);
            i = i + 1;
        }
    }
}

} // verus!

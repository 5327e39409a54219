//! Material libraries (MTL): the material records and their parser.
use vstd::prelude::*;
use crate::number::{Number, is_float_literal, is_float_text, in_unit_range, in_unit_range_text};
use crate::obj::{ErrorKind, ErrorModel, describe, error_at, error_text, is_comment, quoted, rest_of, token_is, token_or};
use crate::text::{chars_of, rows_view, solid_split, string_of, tokens_of};

verus! {

/// Why an MTL file was refused; each carries a line number and a message.
#[derive(Debug)]
pub enum ParseError {
    InvalidToken(usize, String),
    InvalidValue(usize, String),
}

impl ParseError {
    pub open spec fn view(&self) -> ErrorModel {
        match self {
            ParseError::InvalidToken(l, m) => error_at(ErrorKind::Token, *l as nat, m@),
            ParseError::InvalidValue(l, m) => error_at(ErrorKind::Value, *l as nat, m@),
        }
    }

    /// The error written out, as in `Invalid value at line 7: ...`.
    pub fn to_string(&self) -> (r: String)
        ensures
            r@ == error_text(self.view()),
    {
        match self {
            ParseError::InvalidToken(l, m) => describe(ErrorKind::Token, *l, m),
            ParseError::InvalidValue(l, m) => describe(ErrorKind::Value, *l, m),
        }
    }
}

#[verifier::external_type_specification]
#[verifier::external_body]
pub struct ExIoError(std::io::Error);

/// Relies on `std::io::Error`'s `Display`: the system's description of the error.
#[verifier::external_body]
pub(crate) fn io_error_text(e: &std::io::Error) -> (r: String) {
    e.to_string()
}

/// `IO error: ` and the system's description of `e`.
pub fn describe_io_error(e: &std::io::Error) -> (r: String)
    ensures
        r@.len() >= 10,
        r@.subrange(0, 10) == "IO error: "@,
{
    let mut out = chars_of("IO error: ");
    proof {
        reveal_strlit("IO error: ");
    }
    let ghost head = out@;
    let text = io_error_text(e);
    let tail = chars_of(text.as_str());
    crate::text::push_all(&mut out, &tail);
    assert(out@.subrange(0, 10) =~= head);
    string_of(&out)
}

/// Why a material library could not be loaded.
#[derive(Debug)]
pub enum LoadMTLError {
    Io(std::io::Error),
    Parse(ParseError),
}

impl LoadMTLError {
    /// The error written out.
    pub fn to_string(&self) -> (r: String)
        ensures
            self matches LoadMTLError::Parse(p) ==> r@ == error_text(p.view()),
            self is Io ==> r@.len() >= 10 && r@.subrange(0, 10) == "IO error: "@,
    {
        match self {
            LoadMTLError::Io(e) => describe_io_error(e),
            LoadMTLError::Parse(p) => p.to_string(),
        }
    }
}

/// Red, green and blue components of a reflectivity statement.
#[derive(Debug)]
pub struct RGB {
    pub r: Number,
    pub g: Number,
    pub b: Number,
}

/// The literals of an RGB triple.
pub struct RgbModel {
    pub r: Seq<char>,
    pub g: Seq<char>,
    pub b: Seq<char>,
}

impl RGB {
    pub open spec fn view(&self) -> RgbModel {
        RgbModel { r: self.r.literal@, g: self.g.literal@, b: self.b.literal@ }
    }
}

impl Clone for RGB {
    fn clone(&self) -> (res: Self)
        ensures
            res == *self,
    {
        RGB { r: self.r.clone(), g: self.g.clone(), b: self.b.clone() }
    }
}

/// The illumination model of a material (`illum 0` to `illum 10`).
#[derive(Debug, Clone, Copy, PartialEq, Eq, Structural)]
pub enum IlluminationModel {
    ColorOnAmbientOff,
    ColorOnAmbientOn,
    HighlightOn,
    ReflectionOnRayTraceOn,
    TransparencyGlassOnReflectionRayTraceOn,
    ReflectionFresnelOnRayTraceOn,
    TransparencyRefractionOnReflectionFresnelOffRayTraceOn,
    TransparencyRefractionOnReflectionFresnelOnRayTraceOn,
    ReflectionOnRayTraceOff,
    TransparencyGlassOnReflectionRayTraceOff,
    CastsShadows,
}

/// The model that the code `s` names, if any.
pub open spec fn illumination_of(s: Seq<char>) -> Option<IlluminationModel> {
    if s == seq!['0'] {
        Some(IlluminationModel::ColorOnAmbientOff)
    } else if s == seq!['1'] {
        Some(IlluminationModel::ColorOnAmbientOn)
    } else if s == seq!['2'] {
        Some(IlluminationModel::HighlightOn)
    } else if s == seq!['3'] {
        Some(IlluminationModel::ReflectionOnRayTraceOn)
    } else if s == seq!['4'] {
        Some(IlluminationModel::TransparencyGlassOnReflectionRayTraceOn)
    } else if s == seq!['5'] {
        Some(IlluminationModel::ReflectionFresnelOnRayTraceOn)
    } else if s == seq!['6'] {
        Some(IlluminationModel::TransparencyRefractionOnReflectionFresnelOffRayTraceOn)
    } else if s == seq!['7'] {
        Some(IlluminationModel::TransparencyRefractionOnReflectionFresnelOnRayTraceOn)
    } else if s == seq!['8'] {
        Some(IlluminationModel::ReflectionOnRayTraceOff)
    } else if s == seq!['9'] {
        Some(IlluminationModel::TransparencyGlassOnReflectionRayTraceOff)
    } else if s == seq!['1', '0'] {
        Some(IlluminationModel::CastsShadows)
    } else {
        None
    }
}

impl IlluminationModel {
    /// Reads an illumination code, `"0"` to `"10"`.
    pub fn from_code(s: &Vec<char>) -> (r: Option<IlluminationModel>)
        ensures
            r == illumination_of(s@),
    {
        if s.len() == 1 {
            let c = s[0];
            let m = if c == '0' {
                Some(IlluminationModel::ColorOnAmbientOff)
            } else if c == '1' {
                Some(IlluminationModel::ColorOnAmbientOn)
            } else if c == '2' {
                Some(IlluminationModel::HighlightOn)
            } else if c == '3' {
                Some(IlluminationModel::ReflectionOnRayTraceOn)
            } else if c == '4' {
                Some(IlluminationModel::TransparencyGlassOnReflectionRayTraceOn)
            } else if c == '5' {
                Some(IlluminationModel::ReflectionFresnelOnRayTraceOn)
            } else if c == '6' {
                Some(IlluminationModel::TransparencyRefractionOnReflectionFresnelOffRayTraceOn)
            } else if c == '7' {
                Some(IlluminationModel::TransparencyRefractionOnReflectionFresnelOnRayTraceOn)
            } else if c == '8' {
                Some(IlluminationModel::ReflectionOnRayTraceOff)
            } else if c == '9' {
                Some(IlluminationModel::TransparencyGlassOnReflectionRayTraceOff)
            } else {
                None
            };
            assert(s@ =~= seq![c]);
            m
        } else if s.len() == 2 && s[0] == '1' && s[1] == '0' {
            assert(s@ =~= seq!['1', '0']);
            Some(IlluminationModel::CastsShadows)
        } else {
            assert(s@.len() != 1 && s@ != seq!['1', '0']);
            None
        }
    }
}

impl Default for IlluminationModel {
    fn default() -> (r: Self)
        ensures
            r == IlluminationModel::ColorOnAmbientOff,
    {
        IlluminationModel::ColorOnAmbientOff
    }
}

/// Dissolve (`d`) of a material, with its optional `-halo` flag.
#[derive(Debug)]
pub struct DissolveFactor {
    pub factor: Number,
    pub halo: bool,
}

impl Clone for DissolveFactor {
    fn clone(&self) -> (res: Self)
        ensures
            res == *self,
    {
        DissolveFactor { factor: self.factor.clone(), halo: self.halo }
    }
}

/// A material of a material library.
#[derive(Debug)]
pub struct Material {
    pub name: String,
    pub ambient_reflectivity: RGB,
    pub diffuse_reflectivity: RGB,
    pub atmosphere_reflectivity: RGB,
    pub transmission_filter: RGB,
    pub illumination_model: IlluminationModel,
    pub dissolve_factor: DissolveFactor,
    pub specular_highlight_exponent: Number,
    pub sharpness: Number,
    pub optical_density: Number,
}

/// What a material holds, over the literals of its numbers.
pub struct MaterialModel {
    pub name: Seq<char>,
    pub ambient: RgbModel,
    pub diffuse: RgbModel,
    pub specular: RgbModel,
    pub transmission: RgbModel,
    pub illumination: IlluminationModel,
    pub dissolve: Seq<char>,
    pub halo: bool,
    pub exponent: Seq<char>,
    pub sharpness: Seq<char>,
    pub optical_density: Seq<char>,
}

impl Material {
    pub open spec fn view(&self) -> MaterialModel {
        MaterialModel {
            name: self.name@,
            ambient: self.ambient_reflectivity.view(),
            diffuse: self.diffuse_reflectivity.view(),
            specular: self.atmosphere_reflectivity.view(),
            transmission: self.transmission_filter.view(),
            illumination: self.illumination_model,
            dissolve: self.dissolve_factor.factor.literal@,
            halo: self.dissolve_factor.halo,
            exponent: self.specular_highlight_exponent.literal@,
            sharpness: self.sharpness.literal@,
            optical_density: self.optical_density.literal@,
        }
    }
}

impl Clone for Material {
    fn clone(&self) -> (res: Self)
        ensures
            res == *self,
    {
        Material {
            name: self.name.clone(),
            ambient_reflectivity: self.ambient_reflectivity.clone(),
            diffuse_reflectivity: self.diffuse_reflectivity.clone(),
            atmosphere_reflectivity: self.atmosphere_reflectivity.clone(),
            transmission_filter: self.transmission_filter.clone(),
            illumination_model: self.illumination_model,
            dissolve_factor: self.dissolve_factor.clone(),
            specular_highlight_exponent: self.specular_highlight_exponent.clone(),
            sharpness: self.sharpness.clone(),
            optical_density: self.optical_density.clone(),
        }
    }
}

/// A material library: materials under unique names.
#[derive(Debug)]
pub struct MTL {
    pub materials: Vec<Material>,
}

impl MTL {
    /// The materials, in the order their names first appeared.
    pub open spec fn view(&self) -> Seq<MaterialModel> {
        self.materials@.map_values(|m: Material| m.view())
    }

    /// No two materials share a name.
    pub open spec fn wf(&self) -> bool {
        forall|i: int, j: int|
            0 <= i < j < self.materials@.len() ==> #[trigger] self.materials@[i].name@
                != #[trigger] self.materials@[j].name@
    }

    pub fn len(&self) -> (r: usize)
        ensures
            r == self.materials@.len(),
    {
        self.materials.len()
    }

    /// The material named `name`.
    pub fn get(&self, name: &str) -> (r: Option<&Material>)
        requires
            self.wf(),
        ensures
            match self.lookup(name@) {
                Some(m) => r matches Some(x) && *x == m,
                None => r is None,
            },
    {
        let key = chars_of(name);
        let mut k: usize = 0;
        while k < self.materials.len()
            invariant
                k <= self.materials@.len(),
                self.wf(),
                key@ == name@,
                forall|j: int| 0 <= j < k ==> #[trigger] self.materials@[j].name@ != name@,
            decreases self.materials@.len() - k,
        {
            let here = chars_of(self.materials[k].name.as_str());
            if crate::obj::same_chars(&here, &key) {
                proof {
                    assert(self.materials@[k as int].name@ == name@);
                    let i = choose|i: int|
                        0 <= i < self.materials@.len() && #[trigger] self.materials@[i].name@
                            == name@;
                    assert(0 <= i < self.materials@.len() && self.materials@[i].name@ == name@);
                    if i < k {
                        assert(self.materials@[i].name@ != self.materials@[k as int].name@);
                    } else if i > k {
                        assert(self.materials@[k as int].name@ != self.materials@[i].name@);
                    }
                }
                return Some(&self.materials[k]);
            }
            k = k + 1;
        }
        None
    }

    /// An empty library.
    pub fn new() -> (r: MTL)
        ensures
            r.view() == Seq::<MaterialModel>::empty(),
            r.wf(),
    {
        let r = MTL { materials: Vec::new() };
        assert(r.view() =~= Seq::<MaterialModel>::empty());
        r
    }

    /// Puts `m` under its name, replacing a material of the same name.
    pub fn insert(&mut self, m: Material)
        requires
            old(self).wf(),
        ensures
            final(self).wf(),
            final(self).view() == insert_named(old(self).view(), m.view()),
    {
        let ghost acc = self.view();
        let key = chars_of(m.name.as_str());
        let mut k: usize = 0;
        while k < self.materials.len()
            invariant
                k <= self.materials@.len(),
                self.wf(),
                acc == self.view(),
                acc == old(self).view(),
                key@ == m.name@,
                forall|j: int| 0 <= j < k ==> #[trigger] self.materials@[j].name@ != m.name@,
            decreases self.materials@.len() - k,
        {
            let here = chars_of(self.materials[k].name.as_str());
            if crate::obj::same_chars(&here, &key) {
                proof {
                    assert(acc[k as int].name == m.view().name);
                    let i = choose|i: int| 0 <= i < acc.len() && (#[trigger] acc[i]).name == m.view().name;
                    assert(0 <= i < acc.len() && acc[i].name == m.name@);
                    if i < k {
                        assert(self.materials@[i].name@ != self.materials@[k as int].name@);
                    } else if i > k {
                        assert(self.materials@[k as int].name@ != self.materials@[i].name@);
                    }
                    assert(i == k);
                    assert(insert_named(acc, m.view()) == acc.update(k as int, m.view()));
                }
                let ghost mv = m.view();
                let ghost before = self.materials@;
                self.materials.set(k, m);
                assert(self.view() =~= acc.update(k as int, mv));
                assert(self.wf()) by {
                    assert forall|a: int, b: int|
                        0 <= a < b < self.materials@.len() implies #[trigger] self.materials@[a].name@
                        != #[trigger] self.materials@[b].name@ by {
                        assert(before[a].name@ != before[b].name@);
                    }
                }
                return;
            }
            k = k + 1;
        }
        assert(!exists|i: int| 0 <= i < acc.len() && (#[trigger] acc[i]).name == m.view().name) by {
            assert forall|i: int| 0 <= i < acc.len() implies (#[trigger] acc[i]).name != m.view().name by {
                assert(self.materials@[i].name@ != m.name@);
            }
        }
        let ghost mv = m.view();
        self.materials.push(m);
        assert(self.view() =~= acc.push(mv));
        assert(self.wf()) by {
            assert forall|a: int, b: int|
                0 <= a < b < self.materials@.len() implies #[trigger] self.materials@[a].name@
                != #[trigger] self.materials@[b].name@ by {
                if b < self.materials@.len() - 1 {
                    assert(old(self).materials@[a].name@ != old(self).materials@[b].name@);
                }
            }
        }
    }

    /// The material named `name`, if the library has one.
    pub open spec fn lookup(&self, name: Seq<char>) -> Option<Material> {
        if exists|i: int| 0 <= i < self.materials@.len() && #[trigger] self.materials@[i].name@ == name {
            let i = choose|i: int| 0 <= i < self.materials@.len() && #[trigger] self.materials@[i].name@ == name;
            Some(self.materials@[i])
        } else {
            None
        }
    }
}

/// The literal a material holds before any statement sets it.
pub open spec fn zero_number() -> Seq<char> {
    seq!['0']
}

pub open spec fn zero_rgb() -> RgbModel {
    RgbModel { r: zero_number(), g: zero_number(), b: zero_number() }
}

/// A material named `name` with every property at its default.
pub open spec fn default_material(name: Seq<char>) -> MaterialModel {
    MaterialModel {
        name,
        ambient: zero_rgb(),
        diffuse: zero_rgb(),
        specular: zero_rgb(),
        transmission: zero_rgb(),
        illumination: IlluminationModel::ColorOnAmbientOff,
        dissolve: zero_number(),
        halo: false,
        exponent: zero_number(),
        sharpness: zero_number(),
        optical_density: zero_number(),
    }
}

fn zero() -> (r: Number)
    ensures
        r.literal@ == zero_number(),
{
    Number { literal: string_of(&vec!['0']) }
}

fn zero_triple() -> (r: RGB)
    ensures
        r.view() == zero_rgb(),
{
    RGB { r: zero(), g: zero(), b: zero() }
}

impl Material {
    /// A material named `name` with every property at its default.
    pub fn named(name: String) -> (r: Material)
        ensures
            r.view() == default_material(name@),
    {
        Material {
            name,
            ambient_reflectivity: zero_triple(),
            diffuse_reflectivity: zero_triple(),
            atmosphere_reflectivity: zero_triple(),
            transmission_filter: zero_triple(),
            illumination_model: IlluminationModel::ColorOnAmbientOff,
            dissolve_factor: DissolveFactor { factor: zero(), halo: false },
            specular_highlight_exponent: zero(),
            sharpness: zero(),
            optical_density: zero(),
        }
    }
}

/// `r [g [b]]`: `g` and `b` default to `r` (not `b` to `g`); or the message of the
/// first component that is not a number.
pub open spec fn rgb_model(t: Seq<Seq<char>>) -> Result<RgbModel, Seq<char>> {
    if t.len() == 0 || !is_float_literal(t[0]) {
        Err("Invalid R value"@)
    } else if !is_float_literal(token_or(t, 1, t[0])) {
        Err("Invalid G value"@)
    } else if !is_float_literal(token_or(t, 2, t[0])) {
        Err("Invalid B value"@)
    } else {
        Ok(RgbModel { r: t[0], g: token_or(t, 1, t[0]), b: token_or(t, 2, t[0]) })
    }
}

/// A single number after the statement.
pub open spec fn scalar_model(t: Seq<Seq<char>>) -> Option<Seq<char>> {
    if t.len() > 0 && is_float_literal(t[0]) {
        Some(t[0])
    } else {
        None
    }
}

/// `d [-halo] factor`.
pub open spec fn dissolve_model(t: Seq<Seq<char>>) -> Option<(Seq<char>, bool)> {
    if t.len() > 0 && t[0] == "-halo"@ {
        if t.len() > 1 && is_float_literal(t[1]) {
            Some((t[1], true))
        } else {
            None
        }
    } else if t.len() > 0 && is_float_literal(t[0]) {
        Some((t[0], false))
    } else {
        None
    }
}

pub open spec fn optical_density_message() -> Seq<char> {
    "'Ni' value should range between 0.001 and 10"@
}

/// What statement `c`, with tokens `t` after it, on line `n`, does to `m`.
pub open spec fn statement_model(m: MaterialModel, c: Seq<char>, t: Seq<Seq<char>>, n: nat) -> Result<
    MaterialModel,
    ErrorModel,
> {
    if c == "Ka"@ {
        match rgb_model(t) {
            Ok(v) => Ok(MaterialModel { ambient: v, ..m }),
            Err(msg) => Err(error_at(ErrorKind::Token, n, msg)),
        }
    } else if c == "Kd"@ {
        match rgb_model(t) {
            Ok(v) => Ok(MaterialModel { diffuse: v, ..m }),
            Err(msg) => Err(error_at(ErrorKind::Token, n, msg)),
        }
    } else if c == "Ks"@ {
        match rgb_model(t) {
            Ok(v) => Ok(MaterialModel { specular: v, ..m }),
            Err(msg) => Err(error_at(ErrorKind::Token, n, msg)),
        }
    } else if c == "Tf"@ {
        match rgb_model(t) {
            Ok(v) => Ok(MaterialModel { transmission: v, ..m }),
            Err(msg) => Err(error_at(ErrorKind::Token, n, msg)),
        }
    } else if c == "illum"@ {
        if t.len() > 0 && illumination_of(t[0]) is Some {
            Ok(MaterialModel { illumination: illumination_of(t[0])->Some_0, ..m })
        } else {
            Err(error_at(ErrorKind::Token, n, "Invalid 'illumn_#' value"@))
        }
    } else if c == "d"@ {
        match dissolve_model(t) {
            Some((f, h)) => Ok(MaterialModel { dissolve: f, halo: h, ..m }),
            None => Err(error_at(ErrorKind::Token, n, "Invalid 'd' value"@)),
        }
    } else if c == "Ns"@ {
        match scalar_model(t) {
            Some(v) => Ok(MaterialModel { exponent: v, ..m }),
            None => Err(error_at(ErrorKind::Token, n, "Invalid 'exponent' value"@)),
        }
    } else if c == "sharpness"@ {
        match scalar_model(t) {
            Some(v) => Ok(MaterialModel { sharpness: v, ..m }),
            None => Err(error_at(ErrorKind::Token, n, "Invalid 'sharpness' value"@)),
        }
    } else if c == "Ni"@ {
        match scalar_model(t) {
            Some(v) => if in_unit_range(v) {
                Ok(MaterialModel { optical_density: v, ..m })
            } else {
                Err(error_at(ErrorKind::Value, n, optical_density_message()))
            },
            None => Err(error_at(ErrorKind::Token, n, "Invalid 'Ni' value"@)),
        }
    } else {
        Err(error_at(ErrorKind::Token, n, quoted("Unknown statement: '"@, c)))
    }
}

/// Reads the statements of a material from line `j` on, up to the next
/// `newmtl` or the end; `read` counts the statements read (comments are not
/// counted), and errors are reported at line `initial + read`.
pub open spec fn block_run(
    lines: Seq<Seq<char>>,
    j: int,
    m: MaterialModel,
    read: nat,
    initial: nat,
) -> Result<(MaterialModel, nat), ErrorModel>
    decreases lines.len() - j,
{
    if j < 0 || j >= lines.len() {
        Ok((m, read))
    } else {
        let t = tokens_of(lines[j]);
        let n = initial + read;
        if t.len() == 0 {
            Err(error_at(ErrorKind::Token, n, "Missing statement"@))
        } else if t[0] == "newmtl"@ {
            Ok((m, read))
        } else if is_comment(t[0]) {
            block_run(lines, j + 1, m, read, initial)
        } else {
            match statement_model(m, t[0], t.skip(1), n) {
                Ok(next) => block_run(lines, j + 1, next, read + 1, initial),
                Err(e) => Err(e),
            }
        }
    }
}

/// `acc` with `m` put under its name: replacing the material of that name, or added last.
pub open spec fn insert_named(acc: Seq<MaterialModel>, m: MaterialModel) -> Seq<MaterialModel> {
    if exists|i: int| 0 <= i < acc.len() && (#[trigger] acc[i]).name == m.name {
        acc.update(choose|i: int| 0 <= i < acc.len() && (#[trigger] acc[i]).name == m.name, m)
    } else {
        acc.push(m)
    }
}

/// The outer scan from line `i` on: `cur` counts the lines the scan has visited
/// (a material block's lines are skipped by its statement count).
pub open spec fn mtl_run(lines: Seq<Seq<char>>, i: int, cur: nat, acc: Seq<MaterialModel>) -> Result<
    Seq<MaterialModel>,
    ErrorModel,
>
    decreases lines.len() - i,
{
    if i < 0 || i >= lines.len() {
        Ok(acc)
    } else {
        let t = tokens_of(lines[i]);
        if t.len() == 0 {
            Err(error_at(ErrorKind::Token, cur, "Missing command"@))
        } else if t[0] == "newmtl"@ {
            if t.len() < 2 {
                Err(error_at(ErrorKind::Token, cur, "Missing material name"@))
            } else {
                match block_run(lines, i + 1, default_material(t[1]), 0, cur) {
                    Ok((m, read)) => {
                        let next = if i + 1 + read < lines.len() {
                            i + 1 + read
                        } else {
                            lines.len() as int
                        };
                        mtl_run(lines, next, cur + 1, insert_named(acc, m))
                    },
                    Err(e) => Err(e),
                }
            }
        } else {
            mtl_run(lines, i + 1, cur + 1, acc)
        }
    }
}

/// What an MTL text holds, or its first error.
pub open spec fn mtl_model(text: Seq<char>) -> Result<Seq<MaterialModel>, ErrorModel> {
    mtl_run(crate::text::logical_lines(text), 0, 1, Seq::empty())
}

/// The number written as `t`.
fn number_of(t: &Vec<char>) -> (r: Option<Number>)
    ensures
        r is Some <==> is_float_literal(t@),
        r matches Some(n) ==> n.literal@ == t@,
{
    if is_float_text(t) {
        Some(Number { literal: string_of(t) })
    } else {
        None
    }
}

/// Reads the tokens after `Ka`, `Kd`, `Ks` or `Tf`.
pub fn parse_material_rgb(tokens: &Vec<Vec<char>>, line_n: usize) -> (r: Result<RGB, ParseError>)
    ensures
        match rgb_model(rows_view(tokens@)) {
            Ok(v) => r matches Ok(x) && x.view() == v,
            Err(msg) => r matches Err(e) && e.view() == error_at(ErrorKind::Token, line_n as nat, msg),
        },
{
    if tokens.len() == 0 {
        return Err(ParseError::InvalidToken(line_n, "Invalid R value".to_owned()));
    }
    let r = match number_of(&tokens[0]) {
        Some(n) => n,
        None => {
            return Err(ParseError::InvalidToken(line_n, "Invalid R value".to_owned()));
        },
    };
    let g_tok: &Vec<char> = if tokens.len() > 1 {
        &tokens[1]
    } else {
        &tokens[0]
    };
    let g = match number_of(g_tok) {
        Some(n) => n,
        None => {
            return Err(ParseError::InvalidToken(line_n, "Invalid G value".to_owned()));
        },
    };
    let b_tok: &Vec<char> = if tokens.len() > 2 {
        &tokens[2]
    } else {
        &tokens[0]
    };
    let b = match number_of(b_tok) {
        Some(n) => n,
        None => {
            return Err(ParseError::InvalidToken(line_n, "Invalid B value".to_owned()));
        },
    };
    Ok(RGB { r, g, b })
}

/// Reads the tokens after `illum`.
pub fn parse_material_illumination_model(tokens: &Vec<Vec<char>>, line_n: usize) -> (r: Result<
    IlluminationModel,
    ParseError,
>)
    ensures
        tokens@.len() > 0 && illumination_of(tokens@[0]@) is Some ==> r == Ok::<
            IlluminationModel,
            ParseError,
        >(illumination_of(tokens@[0]@)->Some_0),
        !(tokens@.len() > 0 && illumination_of(tokens@[0]@) is Some) ==> (r matches Err(e)
            && e.view() == error_at(ErrorKind::Token, line_n as nat, "Invalid 'illumn_#' value"@)),
{
    if tokens.len() > 0 {
        if let Some(m) = IlluminationModel::from_code(&tokens[0]) {
            return Ok(m);
        }
    }
    Err(ParseError::InvalidToken(line_n, "Invalid 'illumn_#' value".to_owned()))
}

/// Reads the tokens after `d`.
pub fn parse_material_dissolve_factor(tokens: &Vec<Vec<char>>, line_n: usize) -> (r: Result<
    DissolveFactor,
    ParseError,
>)
    ensures
        match dissolve_model(rows_view(tokens@)) {
            Some((f, h)) => r matches Ok(x) && x.factor.literal@ == f && x.halo == h,
            None => r matches Err(e) && e.view() == error_at(ErrorKind::Token, line_n as nat, "Invalid 'd' value"@),
        },
{
    if tokens.len() > 0 && token_is(&tokens[0], "-halo") {
        if tokens.len() > 1 {
            if let Some(factor) = number_of(&tokens[1]) {
                return Ok(DissolveFactor { factor, halo: true });
            }
        }
    } else if tokens.len() > 0 {
        if let Some(factor) = number_of(&tokens[0]) {
            return Ok(DissolveFactor { factor, halo: false });
        }
    }
    Err(ParseError::InvalidToken(line_n, "Invalid 'd' value".to_owned()))
}

/// Reads the single number after a statement; `message` on failure.
fn parse_scalar(tokens: &Vec<Vec<char>>, line_n: usize, message: &str) -> (r: Result<Number, ParseError>)
    ensures
        match scalar_model(rows_view(tokens@)) {
            Some(v) => r matches Ok(x) && x.literal@ == v,
            None => r matches Err(e) && e.view() == error_at(ErrorKind::Token, line_n as nat, message@),
        },
{
    if tokens.len() > 0 {
        if let Some(n) = number_of(&tokens[0]) {
            return Ok(n);
        }
    }
    Err(ParseError::InvalidToken(line_n, message.to_owned()))
}

/// Reads the tokens after `Ns`.
pub fn parse_material_specular_highlight_exponent(tokens: &Vec<Vec<char>>, line_n: usize) -> (r:
    Result<Number, ParseError>)
    ensures
        match scalar_model(rows_view(tokens@)) {
            Some(v) => r matches Ok(x) && x.literal@ == v,
            None => r matches Err(e) && e.view() == error_at(ErrorKind::Token, line_n as nat, "Invalid 'exponent' value"@),
        },
{
    parse_scalar(tokens, line_n, "Invalid 'exponent' value")
}

/// Reads the tokens after `sharpness`.
pub fn parse_material_sharpness(tokens: &Vec<Vec<char>>, line_n: usize) -> (r: Result<
    Number,
    ParseError,
>)
    ensures
        match scalar_model(rows_view(tokens@)) {
            Some(v) => r matches Ok(x) && x.literal@ == v,
            None => r matches Err(e) && e.view() == error_at(ErrorKind::Token, line_n as nat, "Invalid 'sharpness' value"@),
        },
{
    parse_scalar(tokens, line_n, "Invalid 'sharpness' value")
}

/// Reads the tokens after `Ni`: a number in `[0.001, 10]`.
pub fn parse_material_optical_density(tokens: &Vec<Vec<char>>, line_n: usize) -> (r: Result<
    Number,
    ParseError,
>)
    ensures
        match scalar_model(rows_view(tokens@)) {
            Some(v) => if in_unit_range(v) {
                r matches Ok(x) && x.literal@ == v
            } else {
                r matches Err(e) && e.view() == error_at(ErrorKind::Value, line_n as nat, optical_density_message())
            },
            None => r matches Err(e) && e.view() == error_at(ErrorKind::Token, line_n as nat, "Invalid 'Ni' value"@),
        },
{
    let n = parse_scalar(tokens, line_n, "Invalid 'Ni' value")?;
    if !in_unit_range_text(&tokens[0]) {
        return Err(
            ParseError::InvalidValue(line_n, "'Ni' value should range between 0.001 and 10".to_owned()),
        );
    }
    Ok(n)
}

/// Applies statement `c` (tokens `rest` after it) of line `line_n` to `material`.
fn apply_statement(material: &mut Material, c: &Vec<char>, rest: &Vec<Vec<char>>, line_n: usize) -> (r:
    Result<(), ParseError>)
    ensures
        match statement_model(old(material).view(), c@, rows_view(rest@), line_n as nat) {
            Ok(m) => r is Ok && final(material).view() == m,
            Err(e) => r matches Err(x) && x.view() == e,
        },
{
    if token_is(c, "Ka") {
        material.ambient_reflectivity = parse_material_rgb(rest, line_n)?;
    } else if token_is(c, "Kd") {
        material.diffuse_reflectivity = parse_material_rgb(rest, line_n)?;
    } else if token_is(c, "Ks") {
        material.atmosphere_reflectivity = parse_material_rgb(rest, line_n)?;
    } else if token_is(c, "Tf") {
        material.transmission_filter = parse_material_rgb(rest, line_n)?;
    } else if token_is(c, "illum") {
        material.illumination_model = parse_material_illumination_model(rest, line_n)?;
    } else if token_is(c, "d") {
        material.dissolve_factor = parse_material_dissolve_factor(rest, line_n)?;
    } else if token_is(c, "Ns") {
        material.specular_highlight_exponent = parse_material_specular_highlight_exponent(
            rest,
            line_n,
        )?;
    } else if token_is(c, "sharpness") {
        material.sharpness = parse_material_sharpness(rest, line_n)?;
    } else if token_is(c, "Ni") {
        material.optical_density = parse_material_optical_density(rest, line_n)?;
    } else {
        return Err(ParseError::InvalidToken(line_n, quoted_text("Unknown statement: '", c)));
    }
    Ok(())
}

/// Reads the material `name` whose statements start at `lines[start]`; gives it
/// with the number of statements read. `initial_line_n` is the line number that
/// errors count from.
pub fn parse_material(name: &Vec<char>, lines: &Vec<Vec<char>>, start: usize, initial_line_n: usize) -> (r:
    Result<(Material, usize), ParseError>)
    requires
        start <= lines@.len(),
        initial_line_n <= start,
    ensures
        match block_run(rows_view(lines@), start as int, default_material(name@), 0, initial_line_n as nat) {
            Ok((m, read)) => r matches Ok((x, k)) && x.view() == m && k == read && k <= lines@.len() - start,
            Err(e) => r matches Err(x) && x.view() == e,
        },
{
    let ghost ls = rows_view(lines@);
    let mut material = Material::named(string_of(name));
    let mut read: usize = 0;
    let mut j: usize = start;
    while j < lines.len()
        invariant
            ls == rows_view(lines@),
            start <= j <= ls.len(),
            initial_line_n <= start,
            read <= j - start,
            block_run(ls, start as int, default_material(name@), 0, initial_line_n as nat)
                == block_run(ls, j as int, material.view(), read as nat, initial_line_n as nat),
        decreases ls.len() - j,
    {
        let line_n = initial_line_n + read;
        let toks = solid_split(&lines[j], ' ');
        if toks.len() == 0 {
            return Err(ParseError::InvalidToken(line_n, "Missing statement".to_owned()));
        }
        if token_is(&toks[0], "newmtl") {
            return Ok((material, read));
        }
        if toks[0].len() > 0 && toks[0][0] == '#' {
            j = j + 1;
        } else {
            let rest = rest_of(&toks);
            match apply_statement(&mut material, &toks[0], &rest, line_n) {
                Ok(()) => {},
                Err(e) => {
                    return Err(e);
                },
            }
            read = read + 1;
            j = j + 1;
        }
    }
    Ok((material, read))
}

fn quoted_text(prefix: &str, c: &Vec<char>) -> (r: String)
    ensures
        r@ == quoted(prefix@, c@),
{
    let mut out = chars_of(prefix);
    crate::text::push_all(&mut out, c);
    out.push('\'');
    assert(out@ =~= quoted(prefix@, c@));
    string_of(&out)
}

/// Parses an MTL text: each `newmtl NAME` starts a material whose statements
/// follow it; other lines between blocks are skipped.
pub fn parse_mtl(data: &str) -> (r: Result<MTL, ParseError>)
    ensures
        match mtl_model(data@) {
            Ok(ms) => r matches Ok(x) && x.view() == ms && x.wf(),
            Err(e) => r matches Err(x) && x.view() == e,
        },
{
    let chars = chars_of(data);
    let lines = solid_split(&chars, '\n');
    let ghost ls = rows_view(lines@);
    let mut mtl = MTL::new();
    let mut i: usize = 0;
    let mut cur: usize = 1;
    while i < lines.len()
        invariant
            ls == rows_view(lines@),
            ls == crate::text::logical_lines(data@),
            i <= ls.len(),
            1 <= cur <= i + 1,
            mtl.wf(),
            mtl_run(ls, 0, 1, Seq::empty()) == mtl_run(ls, i as int, cur as nat, mtl.view()),
        decreases ls.len() - i,
    {
        let toks = solid_split(&lines[i], ' ');
        if toks.len() == 0 {
            return Err(ParseError::InvalidToken(cur, "Missing command".to_owned()));
        }
        if token_is(&toks[0], "newmtl") {
            if toks.len() < 2 {
                return Err(ParseError::InvalidToken(cur, "Missing material name".to_owned()));
            }
            let (material, read) = parse_material(&toks[1], &lines, i + 1, cur)?;
            mtl.insert(material);
            i = if read < lines.len() - (i + 1) {
                i + 1 + read
            } else {
                lines.len()
            };
        } else {
            i = i + 1;
        }
        if i < lines.len() {
            cur = cur + 1;
        } else {
            assert(mtl_run(ls, i as int, (cur + 1) as nat, mtl.view()) == mtl_run(
                ls,
                i as int,
                cur as nat,
                mtl.view(),
            ));
        }
    }
    Ok(mtl)
}

} // verus!

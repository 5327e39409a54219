//! Properties of the parsers that hold for every input.
use vstd::prelude::*;
use crate::mtl::{RgbModel, block_run, default_material, rgb_model, statement_model, MaterialModel};
use crate::number::is_float_literal;
use crate::obj::{ObjModel, empty_model, face_model, obj_run, obj_step, one_literal, is_comment};
use crate::text::tokens_of;

verus! {

/// A `v` line with three numbers keeps their literals, and `w` is `1.0`.
pub proof fn lemma_vertex_line_keeps_literals(
    m: ObjModel,
    x: Seq<char>,
    y: Seq<char>,
    z: Seq<char>,
    prev: Option<Seq<char>>,
    n: nat,
)
    requires
        is_float_literal(x),
        is_float_literal(y),
        is_float_literal(z),
    ensures
        obj_step(m, seq!["v"@, x, y, z], prev, n) == Ok::<ObjModel, crate::obj::ErrorModel>(
            ObjModel { vertices: m.vertices.push(seq![x, y, z, one_literal()]), ..m },
        ),
{
    let t = seq!["v"@, x, y, z];
    assert(t.skip(1) =~= seq![x, y, z]);
    lemma_one_is_a_number();
}

/// A `vt` line with three numbers keeps their literals.
pub proof fn lemma_texture_line_keeps_literals(
    m: ObjModel,
    u: Seq<char>,
    v: Seq<char>,
    w: Seq<char>,
    prev: Option<Seq<char>>,
    n: nat,
)
    requires
        is_float_literal(u),
        is_float_literal(v),
        is_float_literal(w),
    ensures
        obj_step(m, seq!["vt"@, u, v, w], prev, n) == Ok::<ObjModel, crate::obj::ErrorModel>(
            ObjModel { textures: m.textures.push(seq![u, v, w]), ..m },
        ),
{
    let t = seq!["vt"@, u, v, w];
    assert(t.skip(1) =~= seq![u, v, w]);
    reveal_strlit("v");
    reveal_strlit("vt");
    assert("vt"@ != "v"@) by {
        assert("vt"@.len() != "v"@.len());
    }
}

/// A `vn` line with three numbers keeps their literals.
pub proof fn lemma_normal_line_keeps_literals(
    m: ObjModel,
    i: Seq<char>,
    j: Seq<char>,
    k: Seq<char>,
    prev: Option<Seq<char>>,
    n: nat,
)
    requires
        is_float_literal(i),
        is_float_literal(j),
        is_float_literal(k),
    ensures
        obj_step(m, seq!["vn"@, i, j, k], prev, n) == Ok::<ObjModel, crate::obj::ErrorModel>(
            ObjModel { normals: m.normals.push(seq![i, j, k]), ..m },
        ),
{
    let t = seq!["vn"@, i, j, k];
    assert(t.skip(1) =~= seq![i, j, k]);
    reveal_strlit("v");
    reveal_strlit("vt");
    reveal_strlit("vn");
    assert("vn"@ != "v"@) by {
        assert("vn"@.len() != "v"@.len());
    }
    assert("vn"@ != "vt"@) by {
        assert("vn"@[1] != "vt"@[1]);
    }
}

/// A `vp` line with three numbers keeps their literals.
pub proof fn lemma_parameter_line_keeps_literals(
    m: ObjModel,
    u: Seq<char>,
    v: Seq<char>,
    w: Seq<char>,
    prev: Option<Seq<char>>,
    n: nat,
)
    requires
        is_float_literal(u),
        is_float_literal(v),
        is_float_literal(w),
    ensures
        obj_step(m, seq!["vp"@, u, v, w], prev, n) == Ok::<ObjModel, crate::obj::ErrorModel>(
            ObjModel { parameters: m.parameters.push(seq![u, v, w]), ..m },
        ),
{
    let t = seq!["vp"@, u, v, w];
    assert(t.skip(1) =~= seq![u, v, w]);
    reveal_strlit("v");
    reveal_strlit("vt");
    reveal_strlit("vn");
    reveal_strlit("vp");
    assert("vp"@ != "v"@) by {
        assert("vp"@.len() != "v"@.len());
    }
    assert("vp"@ != "vt"@) by {
        assert("vp"@[1] != "vt"@[1]);
    }
    assert("vp"@ != "vn"@) by {
        assert("vp"@[1] != "vn"@[1]);
    }
}

/// `1.0` is a number.
pub proof fn lemma_one_is_a_number()
    ensures
        is_float_literal(one_literal()),
{
    let s = one_literal();
    assert(s.len() == 3 && s[0] == '1' && s[1] == '.' && s[2] == '0');
    assert(crate::number::sign_len(s) == 0);
    assert(crate::number::digit_run(s, 3) == 3);
    assert(crate::number::digit_run(s, 2) == 3);
    assert(crate::number::digit_run(s, 1) == 1);
    assert(crate::number::digit_run(s, 0) == 1);
    assert(crate::number::int_digits(s).len() == 1);
}

/// With one component, green and blue repeat red; with two, blue repeats red (not green).
pub proof fn lemma_rgb_fallback(r: Seq<char>, g: Seq<char>)
    requires
        is_float_literal(r),
        is_float_literal(g),
    ensures
        rgb_model(seq![r]) == Ok::<RgbModel, Seq<char>>(RgbModel { r, g: r, b: r }),
        rgb_model(seq![r, g]) == Ok::<RgbModel, Seq<char>>(RgbModel { r, g, b: r }),
{
}

/// Within a material, a statement given twice keeps only its last value.
pub proof fn lemma_last_statement_wins(
    m: MaterialModel,
    c: Seq<char>,
    first: Seq<Seq<char>>,
    second: Seq<Seq<char>>,
    n1: nat,
    n2: nat,
)
    requires
        statement_model(m, c, first, n1) is Ok,
    ensures
        statement_model(statement_model(m, c, first, n1)->Ok_0, c, second, n2) == statement_model(
            m,
            c,
            second,
            n2,
        ),
{
}

/// A face right after `usemtl NAME` takes `NAME`; a face after any other line,
/// or on the first line, takes no material name.
pub proof fn lemma_usemtl_names_next_face(
    t: Seq<Seq<char>>,
    prev: Option<Seq<char>>,
    name: Seq<char>,
    n: nat,
)
    requires
        face_model(t, prev, n) is Ok,
    ensures
        prev matches Some(l) && tokens_of(l) == seq!["usemtl"@, name] ==> face_model(t, prev, n)->Ok_0.material_name == Some(name),
        (prev is None || (prev matches Some(l) && tokens_of(l).len() > 0 && tokens_of(l)[0] != "usemtl"@)) ==> face_model(t, prev, n)->Ok_0.material_name is None,
{
}

proof fn lemma_block_shift(lines: Seq<Seq<char>>, j: int, k: int, m: MaterialModel, read: nat, initial: nat)
    requires
        0 <= j <= lines.len(),
        0 <= k,
    ensures
        block_run(lines, j + k, m, read, initial) == block_run(lines.skip(j), k, m, read, initial),
    decreases lines.len() - j - k,
{
    let rest = lines.skip(j);
    if j + k < lines.len() {
        assert(rest[k] == lines[j + k]);
        let t = tokens_of(lines[j + k]);
        let n = initial + read;
        if t.len() > 0 && t[0] != "newmtl"@ {
            if crate::obj::is_comment(t[0]) {
                lemma_block_shift(lines, j, k + 1, m, read, initial);
            } else if statement_model(m, t[0], t.skip(1), n) is Ok {
                lemma_block_shift(lines, j, k + 1, statement_model(m, t[0], t.skip(1), n)->Ok_0, read + 1, initial);
            }
        }
    }
}

/// The material that a `newmtl NAME` block defines depends on the block's own
/// lines alone: it starts from the defaults, and nothing before the block
/// reaches it.
pub proof fn lemma_block_reads_only_its_lines(lines: Seq<Seq<char>>, j: int, name: Seq<char>, initial: nat)
    requires
        0 <= j <= lines.len(),
    ensures
        block_run(lines, j, default_material(name), 0, initial) == block_run(
            lines.skip(j),
            0,
            default_material(name),
            0,
            initial,
        ),
{
    lemma_block_shift(lines, j, 0, default_material(name), 0, initial);
}

proof fn lemma_illumination_kept(lines: Seq<Seq<char>>, j: int, m: MaterialModel, read: nat, initial: nat)
    requires
        0 <= j <= lines.len(),
        forall|k: int| j <= k < lines.len() ==> !starts_with_command(#[trigger] lines[k], "illum"@),
        block_run(lines, j, m, read, initial) is Ok,
    ensures
        block_run(lines, j, m, read, initial)->Ok_0.0.illumination == m.illumination,
    decreases lines.len() - j,
{
    if j < lines.len() {
        let t = tokens_of(lines[j]);
        let n = initial + read;
        assert(!starts_with_command(lines[j], "illum"@));
        if t.len() > 0 && t[0] != "newmtl"@ {
            if crate::obj::is_comment(t[0]) {
                lemma_illumination_kept(lines, j + 1, m, read, initial);
            } else {
                let next = statement_model(m, t[0], t.skip(1), n)->Ok_0;
                assert(next.illumination == m.illumination);
                lemma_illumination_kept(lines, j + 1, next, read + 1, initial);
            }
        }
    }
}

/// A material whose lines hold no `illum` statement keeps the default
/// illumination model, `ColorOnAmbientOff`.
pub proof fn lemma_illumination_defaults(lines: Seq<Seq<char>>, j: int, name: Seq<char>, initial: nat)
    requires
        0 <= j <= lines.len(),
        forall|k: int| j <= k < lines.len() ==> !starts_with_command(#[trigger] lines[k], "illum"@),
        block_run(lines, j, default_material(name), 0, initial) is Ok,
    ensures
        block_run(lines, j, default_material(name), 0, initial)->Ok_0.0.illumination
            == crate::mtl::IlluminationModel::ColorOnAmbientOff,
{
    lemma_illumination_kept(lines, j, default_material(name), 0, initial);
}

/// Whether the first token of `line` is `w`.
pub open spec fn starts_with_command(line: Seq<char>, w: Seq<char>) -> bool {
    tokens_of(line).len() > 0 && tokens_of(line)[0] == w
}

/// How many of `lines` start with the command `w`.
pub open spec fn command_count(lines: Seq<Seq<char>>, w: Seq<char>) -> nat
    decreases lines.len(),
{
    if lines.len() == 0 {
        0
    } else {
        (if starts_with_command(lines[0], w) {
            1nat
        } else {
            0nat
        }) + command_count(lines.drop_first(), w)
    }
}

proof fn lemma_words_differ()
    ensures
        "vt"@ != "v"@,
        "vn"@ != "v"@,
        "vp"@ != "v"@,
        "f"@ != "v"@,
        "f"@ != "vt"@,
        "f"@ != "vn"@,
        "f"@ != "vp"@,
{
    reveal_strlit("v");
    reveal_strlit("vt");
    reveal_strlit("vn");
    reveal_strlit("vp");
    reveal_strlit("f");
    assert("vt"@.len() != "v"@.len());
    assert("vn"@.len() != "v"@.len());
    assert("vp"@.len() != "v"@.len());
    assert("f"@[0] != "v"@[0]);
    assert("f"@.len() != "vt"@.len());
    assert("f"@.len() != "vn"@.len());
    assert("f"@.len() != "vp"@.len());
}

/// One line adds a vertex exactly when it is a `v` line, and a face exactly
/// when it is an `f` line.
proof fn lemma_step_counts(m: ObjModel, t: Seq<Seq<char>>, prev: Option<Seq<char>>, n: nat)
    requires
        obj_step(m, t, prev, n) is Ok,
    ensures
        obj_step(m, t, prev, n)->Ok_0.vertices.len() == m.vertices.len() + (if t.len() > 0 && t[0]
            == "v"@ {
            1nat
        } else {
            0nat
        }),
        obj_step(m, t, prev, n)->Ok_0.faces.len() == m.faces.len() + (if t.len() > 0 && t[0]
            == "f"@ {
            1nat
        } else {
            0nat
        }),
{
    lemma_words_differ();
}

/// Parsing from line `i` adds one vertex per `v` line and one face per `f` line.
proof fn lemma_run_counts(lines: Seq<Seq<char>>, i: int, m: ObjModel)
    requires
        0 <= i <= lines.len(),
        obj_run(lines, i, m) is Ok,
    ensures
        obj_run(lines, i, m)->Ok_0.vertices.len() == m.vertices.len() + command_count(
            lines.skip(i),
            "v"@,
        ),
        obj_run(lines, i, m)->Ok_0.faces.len() == m.faces.len() + command_count(lines.skip(i), "f"@),
    decreases lines.len() - i,
{
    if i == lines.len() {
        assert(lines.skip(i).len() == 0);
    } else {
        let prev = if i > 0 {
            Some(lines[i - 1])
        } else {
            None
        };
        let t = tokens_of(lines[i]);
        lemma_step_counts(m, t, prev, (i + 1) as nat);
        let next = obj_step(m, t, prev, (i + 1) as nat)->Ok_0;
        lemma_run_counts(lines, i + 1, next);
        assert(lines.skip(i).drop_first() =~= lines.skip(i + 1));
        assert(lines.skip(i)[0] == lines[i]);
    }
}

/// Inserting `c` adds one to the count of `w` lines exactly when `c` is one.
proof fn lemma_insert_count(lines: Seq<Seq<char>>, k: int, c: Seq<char>, w: Seq<char>)
    requires
        0 <= k <= lines.len(),
    ensures
        command_count(lines.insert(k, c), w) == command_count(lines, w) + (if starts_with_command(
            c,
            w,
        ) {
            1nat
        } else {
            0nat
        }),
    decreases k,
{
    if k == 0 {
        assert(lines.insert(0, c).drop_first() =~= lines);
    } else {
        assert(lines.insert(k, c).drop_first() =~= lines.drop_first().insert(k - 1, c));
        assert(lines.insert(k, c)[0] == lines[0]);
        lemma_insert_count(lines.drop_first(), k - 1, c, w);
    }
}

/// A comment line, wherever it is inserted, changes neither the number of
/// vertices nor the number of faces of a file that parses.
pub proof fn lemma_comments_keep_counts(lines: Seq<Seq<char>>, k: int, c: Seq<char>)
    requires
        0 <= k <= lines.len(),
        tokens_of(c).len() > 0,
        is_comment(tokens_of(c)[0]),
        obj_run(lines, 0, empty_model()) is Ok,
        obj_run(lines.insert(k, c), 0, empty_model()) is Ok,
    ensures
        obj_run(lines, 0, empty_model())->Ok_0.vertices.len() == obj_run(
            lines.insert(k, c),
            0,
            empty_model(),
        )->Ok_0.vertices.len(),
        obj_run(lines, 0, empty_model())->Ok_0.faces.len() == obj_run(
            lines.insert(k, c),
            0,
            empty_model(),
        )->Ok_0.faces.len(),
{
    reveal_strlit("v");
    reveal_strlit("f");
    assert(!starts_with_command(c, "v"@)) by {
        assert(tokens_of(c)[0][0] == '#');
    }
    assert(!starts_with_command(c, "f"@)) by {
        assert(tokens_of(c)[0][0] == '#');
    }
    lemma_run_counts(lines, 0, empty_model());
    lemma_run_counts(lines.insert(k, c), 0, empty_model());
    assert(lines.skip(0) =~= lines);
    assert(lines.insert(k, c).skip(0) =~= lines.insert(k, c));
    lemma_insert_count(lines, k, c, "v"@);
    lemma_insert_count(lines, k, c, "f"@);
}

} // verus!

//! The persisted text documents.
//!
//! Two documents leave and enter this core: a video-source
//! configuration object, and a camera-parameter file holding the 3x3
//! intrinsic matrix and the 1x5 distortion vector as shape-tagged
//! arrays of IEEE-754 bit patterns.  Each document has a
//! specification-level serializer and parser, executable functions
//! proved equal to them, and a proof that parsing undoes serializing.
//! The writers emit one canonical form and the parsers accept exactly
//! it; reading and writing the files themselves is the caller's I/O.

use vstd::prelude::*;
use crate::source::VideoSourceConfig;
use crate::text::{
    dec_digits, emit_escaped, emit_lit, emit_u64, esc_string, is_digit,
    lemma_dec_digits_shape, lemma_embed_index, lemma_parse_esc_embed, lemma_parse_u64_embed,
    lemma_split_embed, match_lit, match_lit_exec, parse_string_body, parse_string_body_exec,
    parse_u64_at, parse_u64_exec, str_to_chars, chars_to_string,
};

verus! {

// ---------------------------------------------------------------------
// Signed numbers.
// ---------------------------------------------------------------------

/// The decimal form of a signed 32-bit number: a minus sign for
/// negative values, then the digits of the magnitude.
pub open spec fn dec_i32(i: i32) -> Seq<char> {
    if i < 0 {
        seq!['-'] + dec_digits((-(i as int)) as nat)
    } else {
        dec_digits(i as nat)
    }
}

/// Parse a signed 32-bit decimal number at position `i`.
pub open spec fn parse_i32_at(s: Seq<char>, i: int) -> Option<(i32, int)> {
    if i < s.len() && s[i] == '-' {
        match parse_u64_at(s, i + 1) {
            Some((n, j)) => if 1 <= n <= 0x80000000u64 {
                Some(((-(n as int)) as i32, j))
            } else {
                None
            },
            None => None,
        }
    } else {
        match parse_u64_at(s, i) {
            Some((n, j)) => if n <= 0x7fffffffu64 {
                Some((n as i32, j))
            } else {
                None
            },
            None => None,
        }
    }
}

/// Parsing at an embedded `dec_i32(x)` that a non-digit terminates
/// yields exactly `x`.
pub proof fn lemma_parse_i32_embed(s: Seq<char>, i: int, x: i32)
    requires
        0 <= i,
        i + dec_i32(x).len() <= s.len(),
        s.subrange(i, i + dec_i32(x).len()) == dec_i32(x),
        i + dec_i32(x).len() == s.len() || !is_digit(s[i + dec_i32(x).len()]),
    ensures
        parse_i32_at(s, i) == Some((x, i + dec_i32(x).len())),
{
    if x < 0 {
        let mag = (-(x as int)) as nat;
        let d = dec_digits(mag);
        let minus = seq!['-'];
        assert(dec_i32(x) =~= minus + d);
        lemma_split_embed(s, i, minus, d);
        lemma_embed_index(s, i, minus, 0);
        assert(s[i + 0] == '-');
        lemma_parse_u64_embed(s, i + 1, mag as u64);
        assert(1 <= mag as u64 <= 0x80000000u64);
        assert((-(mag as int)) as i32 == x);
    } else {
        lemma_parse_u64_embed(s, i, x as u64);
        lemma_dec_digits_shape(x as nat);
        lemma_embed_index(s, i, dec_digits(x as nat), 0);
        assert(is_digit(s[i + 0]));
        assert(s[i] != '-') by {
            assert('-' as u32 == 45);
        }
        assert(x as u64 <= 0x7fffffffu64);
    }
}

/// Append the decimal form of a signed 32-bit number.
pub fn emit_i32(out: &mut Vec<char>, x: i32)
    ensures
        final(out)@ == old(out)@ + dec_i32(x),
{
    if x < 0 {
        out.push('-');
        let mag: u64 = (-(x as i64)) as u64;
        emit_u64(out, mag);
        proof {
            assert(out@ =~= old(out)@ + dec_i32(x));
        }
    } else {
        emit_u64(out, x as u64);
    }
}

/// Parse a signed 32-bit decimal number at position `i`, exactly as
/// the specification parser does.
pub fn parse_i32_exec(v: &Vec<char>, i: usize) -> (r: Option<(i32, usize)>)
    requires
        i <= v@.len(),
    ensures
        match r {
            Some((x, j)) => parse_i32_at(v@, i as int) == Some((x, j as int)) && j <= v@.len(),
            None => parse_i32_at(v@, i as int) is None,
        },
{
    if i < v.len() && v[i] == '-' {
        match parse_u64_exec(v, i + 1) {
            Some((n, j)) => {
                if 1 <= n && n <= 0x80000000u64 {
                    let x: i32 = (-(n as i64)) as i32;
                    Some((x, j))
                } else {
                    None
                }
            },
            None => None,
        }
    } else {
        match parse_u64_exec(v, i) {
            Some((n, j)) => {
                if n <= 0x7fffffffu64 {
                    Some((n as i32, j))
                } else {
                    None
                }
            },
            None => None,
        }
    }
}

// ---------------------------------------------------------------------
// The video-source configuration document.
// ---------------------------------------------------------------------

/// The mathematical content of a [`VideoSourceConfig`]: the same two
/// kinds, with the path as a plain character sequence.
pub enum ConfigModel {
    Device { index: i32 },
    MemoryMapped { path: Seq<char> },
}

/// The model of a configuration value.
pub open spec fn config_model(c: VideoSourceConfig) -> ConfigModel {
    match c {
        VideoSourceConfig::DeviceCapture { index } => ConfigModel::Device { index },
        VideoSourceConfig::MemoryMappedFeed { path } => ConfigModel::MemoryMapped {
            path: path@,
        },
    }
}

/// Opening of the device form, up to the index value.
pub open spec fn dev_open() -> Seq<char> {
    "{\"kind\":\"device\",\"index\":"@
}

/// Opening of the memory-mapped form, up to the path characters.
pub open spec fn mm_open() -> Seq<char> {
    "{\"kind\":\"memory_mapped\",\"path\":\""@
}

/// The canonical text of one configuration.
pub open spec fn spec_serialize_config(m: ConfigModel) -> Seq<char> {
    match m {
        ConfigModel::Device { index } => dev_open() + dec_i32(index) + "}"@,
        ConfigModel::MemoryMapped { path } => mm_open() + esc_string(path) + "\"}"@,
    }
}

/// Parse one configuration object at position `i`, consuming it up to
/// and including its closing brace.
pub open spec fn parse_config_at(s: Seq<char>, i: int) -> Option<(ConfigModel, int)> {
    if match_lit(s, i, dev_open()) {
        match parse_i32_at(s, i + dev_open().len()) {
            Some((x, j)) => if j < s.len() && s[j] == '}' {
                Some((ConfigModel::Device { index: x }, j + 1))
            } else {
                None
            },
            None => None,
        }
    } else if match_lit(s, i, mm_open()) {
        match parse_string_body(s, i + mm_open().len()) {
            Some((t, j)) => if j + 1 < s.len() && s[j] == '"' && s[j + 1] == '}' {
                Some((ConfigModel::MemoryMapped { path: t }, j + 2))
            } else {
                None
            },
            None => None,
        }
    } else {
        None
    }
}

/// Parse a whole configuration document: one configuration object and
/// nothing after it.
pub open spec fn spec_parse_config(s: Seq<char>) -> Option<ConfigModel> {
    match parse_config_at(s, 0) {
        Some((m, j)) => if j == s.len() {
            Some(m)
        } else {
            None
        },
        None => None,
    }
}

/// Parsing at an embedded serialized configuration yields exactly that
/// configuration, consuming exactly its text.
pub proof fn lemma_parse_config_embed(s: Seq<char>, i: int, m: ConfigModel)
    requires
        0 <= i,
        i + spec_serialize_config(m).len() <= s.len(),
        s.subrange(i, i + spec_serialize_config(m).len()) == spec_serialize_config(m),
    ensures
        parse_config_at(s, i) == Some((m, i + spec_serialize_config(m).len())),
{
    let e = spec_serialize_config(m);
    let l = e.len() as int;
    reveal_strlit("{\"kind\":\"device\",\"index\":");
    reveal_strlit("{\"kind\":\"memory_mapped\",\"path\":\"");
    reveal_strlit("}");
    reveal_strlit("\"}");
    match m {
        ConfigModel::Device { index } => {
            let num = dec_i32(index);
            let tail = num + "}"@;
            assert(e =~= dev_open() + tail);
            lemma_split_embed(s, i, dev_open(), tail);
            let i1 = i + dev_open().len() as int;
            lemma_split_embed(s, i1, num, "}"@);
            lemma_embed_index(s, i1 + num.len(), "}"@, 0);
            assert(s[i1 + num.len() + 0] == '}');
            assert(!is_digit('}')) by {
                assert('}' as u32 == 125);
            }
            lemma_parse_i32_embed(s, i1, index);
        },
        ConfigModel::MemoryMapped { path } => {
            // The device opening cannot match: the two openings differ
            // at their tenth character.
            assert(!match_lit(s, i, dev_open())) by {
                let emm = esc_string(path) + "\"}"@;
                assert(e =~= mm_open() + emm);
                lemma_split_embed(s, i, mm_open(), emm);
                lemma_embed_index(s, i, mm_open(), 9);
                assert(s[i + 9] == mm_open()[9]);
                if match_lit(s, i, dev_open()) {
                    lemma_embed_index(s, i, dev_open(), 9);
                    assert(s[i + 9] == dev_open()[9]);
                    assert(false);
                }
            }
            let emm = esc_string(path) + "\"}"@;
            assert(e =~= mm_open() + emm);
            lemma_split_embed(s, i, mm_open(), emm);
            let i1 = i + mm_open().len() as int;
            lemma_split_embed(s, i1, esc_string(path), "\"}"@);
            let j = i1 + esc_string(path).len() as int;
            lemma_embed_index(s, j, "\"}"@, 0);
            lemma_embed_index(s, j, "\"}"@, 1);
            assert(s[j + 0] == '"' && s[j + 1] == '}');
            lemma_parse_esc_embed(s, i1, path);
        },
    }
}

/// Round trip: parsing the canonical text of any configuration gives
/// back exactly that configuration.
pub proof fn lemma_config_round_trip(m: ConfigModel)
    ensures
        spec_parse_config(spec_serialize_config(m)) == Some(m),
{
    let s = spec_serialize_config(m);
    assert(s.subrange(0, s.len() as int) =~= s);
    lemma_parse_config_embed(s, 0, m);
}

/// The canonical text of a configuration value.
pub fn serialize_config(c: &VideoSourceConfig) -> (r: String)
    ensures
        r@ == spec_serialize_config(config_model(*c)),
{
    let mut out: Vec<char> = Vec::new();
    match c {
        VideoSourceConfig::DeviceCapture { index } => {
            emit_lit(&mut out, "{\"kind\":\"device\",\"index\":");
            emit_i32(&mut out, *index);
            emit_lit(&mut out, "}");
            proof {
                assert(out@ =~= spec_serialize_config(config_model(*c)));
            }
        },
        VideoSourceConfig::MemoryMappedFeed { path } => {
            emit_lit(&mut out, "{\"kind\":\"memory_mapped\",\"path\":\"");
            let pv = str_to_chars(path.as_str());
            emit_escaped(&mut out, &pv);
            emit_lit(&mut out, "\"}");
            proof {
                assert(out@ =~= spec_serialize_config(config_model(*c)));
            }
        },
    }
    chars_to_string(&out)
}

/// Parse a configuration object at position `i`, exactly as the
/// specification parser does.
pub fn parse_config_at_exec(v: &Vec<char>, i: usize) -> (r: Option<(VideoSourceConfig, usize)>)
    requires
        i <= v@.len(),
    ensures
        match r {
            Some((c, j)) => parse_config_at(v@, i as int) == Some((config_model(c), j as int))
                && j <= v@.len(),
            None => parse_config_at(v@, i as int) is None,
        },
{
    let total = v.len();
    assert(v@.len() <= usize::MAX);
    if match_lit_exec(v, i, "{\"kind\":\"device\",\"index\":") {
        let l = "{\"kind\":\"device\",\"index\":".unicode_len();
        assert(i + l <= v@.len());
        match parse_i32_exec(v, i + l) {
            Some((x, j)) => {
                if j < v.len() && v[j] == '}' {
                    Some((VideoSourceConfig::DeviceCapture { index: x }, j + 1))
                } else {
                    None
                }
            },
            None => None,
        }
    } else if match_lit_exec(v, i, "{\"kind\":\"memory_mapped\",\"path\":\"") {
        let l = "{\"kind\":\"memory_mapped\",\"path\":\"".unicode_len();
        assert(i + l <= v@.len());
        match parse_string_body_exec(v, i + l) {
            Some((chars, j)) => {
                if v.len() - j > 1 && v[j] == '"' && v[j + 1] == '}' {
                    let path = chars_to_string(&chars);
                    Some((VideoSourceConfig::MemoryMappedFeed { path }, j + 2))
                } else {
                    None
                }
            },
            None => None,
        }
    } else {
        None
    }
}

// ---------------------------------------------------------------------
// Comma-separated number lists.
// ---------------------------------------------------------------------

/// The canonical text of a number list: decimal values separated by
/// single commas, no brackets.
pub open spec fn ser_u64_list(xs: Seq<u64>) -> Seq<char>
    decreases xs.len(),
{
    if xs.len() == 0 {
        Seq::empty()
    } else if xs.len() == 1 {
        dec_digits(xs[0] as nat)
    } else {
        dec_digits(xs[0] as nat) + seq![','] + ser_u64_list(xs.drop_first())
    }
}

/// Parse exactly `n` comma-separated numbers at position `i`.
pub open spec fn parse_u64_list(s: Seq<char>, i: int, n: nat) -> Option<(Seq<u64>, int)>
    decreases n,
{
    if n == 0 {
        Some((Seq::empty(), i))
    } else {
        match parse_u64_at(s, i) {
            Some((x, j)) => if n == 1 {
                Some((seq![x], j))
            } else if j < s.len() && s[j] == ',' {
                match parse_u64_list(s, j + 1, (n - 1) as nat) {
                    Some((t, k)) => Some((seq![x] + t, k)),
                    None => None,
                }
            } else {
                None
            },
            None => None,
        }
    }
}

/// Parsing at an embedded serialized number list that neither a digit
/// nor a comma follows yields exactly that list.
pub proof fn lemma_parse_u64_list_embed(s: Seq<char>, i: int, xs: Seq<u64>)
    requires
        0 <= i,
        xs.len() >= 1,
        i + ser_u64_list(xs).len() <= s.len(),
        s.subrange(i, i + ser_u64_list(xs).len()) == ser_u64_list(xs),
        i + ser_u64_list(xs).len() == s.len()
            || (!is_digit(s[i + ser_u64_list(xs).len()])
                && s[i + ser_u64_list(xs).len()] != ','),
    ensures
        parse_u64_list(s, i, xs.len()) == Some((xs, i + ser_u64_list(xs).len())),
    decreases xs.len(),
{
    let e = ser_u64_list(xs);
    let l = e.len() as int;
    if xs.len() == 1 {
        lemma_parse_u64_embed(s, i, xs[0]);
        assert(seq![xs[0]] =~= xs);
    } else {
        let head = dec_digits(xs[0] as nat);
        let comma = seq![','];
        let rest = ser_u64_list(xs.drop_first());
        assert(e =~= head + (comma + rest));
        lemma_split_embed(s, i, head, comma + rest);
        let i1 = i + head.len() as int;
        lemma_split_embed(s, i1, comma, rest);
        lemma_embed_index(s, i1, comma, 0);
        assert(s[i1 + 0] == ',');
        assert(!is_digit(',')) by {
            assert(',' as u32 == 44);
        }
        lemma_parse_u64_embed(s, i, xs[0]);
        lemma_parse_u64_list_embed(s, i1 + 1, xs.drop_first());
        assert(seq![xs[0]] + xs.drop_first() =~= xs);
    }
}

/// Append the canonical text of the numbers of `xs` from index `from`
/// on.
pub fn emit_u64_list_from(out: &mut Vec<char>, xs: &Vec<u64>, from: usize)
    requires
        from <= xs@.len(),
    ensures
        final(out)@ == old(out)@ + ser_u64_list(xs@.skip(from as int)),
    decreases xs@.len() - from,
{
    if from == xs.len() {
        proof {
            assert(xs@.skip(from as int) =~= Seq::<u64>::empty());
            assert(old(out)@ + Seq::<char>::empty() =~= old(out)@);
        }
        return;
    }
    emit_u64(out, xs[from]);
    proof {
        assert(xs@.skip(from as int)[0] == xs@[from as int]);
    }
    if from + 1 < xs.len() {
        out.push(',');
        emit_u64_list_from(out, xs, from + 1);
        proof {
            assert(xs@.skip(from as int).drop_first() =~= xs@.skip(from + 1));
            assert(xs@.skip(from as int).len() >= 2);
            assert(out@ =~= old(out)@ + ser_u64_list(xs@.skip(from as int)));
        }
    } else {
        proof {
            assert(xs@.skip(from as int).len() == 1);
            assert(out@ =~= old(out)@ + ser_u64_list(xs@.skip(from as int)));
        }
    }
}

/// Parse exactly `n` comma-separated numbers at position `i`, exactly
/// as the specification parser does.
pub fn parse_u64_list_exec(v: &Vec<char>, i: usize, n: usize) -> (r: Option<(Vec<u64>, usize)>)
    requires
        i <= v@.len(),
    ensures
        match r {
            Some(p) => parse_u64_list(v@, i as int, n as nat) == Some((p.0@, p.1 as int))
                && p.1 <= v@.len(),
            None => parse_u64_list(v@, i as int, n as nat) is None,
        },
    decreases n,
{
    if n == 0 {
        let xs: Vec<u64> = Vec::new();
        proof {
            assert(xs@ =~= Seq::<u64>::empty());
        }
        return Some((xs, i));
    }
    match parse_u64_exec(v, i) {
        None => None,
        Some((x, j)) => {
            if n == 1 {
                let mut xs: Vec<u64> = Vec::new();
                xs.push(x);
                proof {
                    assert(xs@ =~= seq![x]);
                }
                Some((xs, j))
            } else if j < v.len() && v[j] == ',' {
                match parse_u64_list_exec(v, j + 1, n - 1) {
                    Some((mut rest, k)) => {
                        let mut xs: Vec<u64> = Vec::new();
                        xs.push(x);
                        let ghost rest_view = rest@;
                        xs.append(&mut rest);
                        proof {
                            assert(xs@ =~= seq![x] + rest_view);
                        }
                        Some((xs, k))
                    },
                    None => None,
                }
            } else {
                None
            }
        },
    }
}

// ---------------------------------------------------------------------
// The camera-parameter document.
// ---------------------------------------------------------------------

/// The mathematical content of a camera-parameter file: the matrix
/// and distortion entries as IEEE-754 double precision bit patterns.
pub struct ParamsModel {
    pub matrix: Seq<u64>,
    pub dist: Seq<u64>,
}

/// Opening of the parameter document, up to the matrix entries.
pub open spec fn params_open() -> Seq<char> {
    "{\"camera_matrix\":{\"dtype\":\"f64-bits\",\"rows\":3,\"cols\":3,\"data\":["@
}

/// Middle of the parameter document, between the matrix and the
/// distortion entries.
pub open spec fn params_mid() -> Seq<char> {
    "]},\"dist_coeffs\":{\"dtype\":\"f64-bits\",\"rows\":1,\"cols\":5,\"data\":["@
}

/// Closing of the parameter document.
pub open spec fn params_close() -> Seq<char> {
    "]}}"@
}

/// The canonical text of a parameter set.
pub open spec fn spec_serialize_params(m: ParamsModel) -> Seq<char> {
    params_open() + ser_u64_list(m.matrix) + params_mid() + ser_u64_list(m.dist)
        + params_close()
}

/// Parse a whole camera-parameter document: exactly nine matrix
/// entries, exactly five distortion entries, nothing after it.
pub open spec fn spec_parse_params(s: Seq<char>) -> Option<ParamsModel> {
    if match_lit(s, 0, params_open()) {
        match parse_u64_list(s, params_open().len() as int, 9) {
            Some((mat, j)) => if match_lit(s, j, params_mid()) {
                match parse_u64_list(s, j + params_mid().len(), 5) {
                    Some((dist, k)) => if k + params_close().len() == s.len()
                        && match_lit(s, k, params_close()) {
                        Some(ParamsModel { matrix: mat, dist })
                    } else {
                        None
                    },
                    None => None,
                }
            } else {
                None
            },
            None => None,
        }
    } else {
        None
    }
}

/// Round trip: parsing the canonical text of any well-shaped
/// parameter set gives back exactly that parameter set.
pub proof fn lemma_params_round_trip(m: ParamsModel)
    requires
        m.matrix.len() == 9,
        m.dist.len() == 5,
    ensures
        spec_parse_params(spec_serialize_params(m)) == Some(m),
{
    let s = spec_serialize_params(m);
    let mat_txt = ser_u64_list(m.matrix);
    let dist_txt = ser_u64_list(m.dist);
    reveal_strlit("{\"camera_matrix\":{\"dtype\":\"f64-bits\",\"rows\":3,\"cols\":3,\"data\":[");
    reveal_strlit("]},\"dist_coeffs\":{\"dtype\":\"f64-bits\",\"rows\":1,\"cols\":5,\"data\":[");
    reveal_strlit("]}}");
    assert(s.subrange(0, s.len() as int) =~= s);
    let after_open = mat_txt + (params_mid() + (dist_txt + params_close()));
    assert(s =~= params_open() + after_open);
    lemma_split_embed(s, 0, params_open(), after_open);
    let i1 = params_open().len() as int;
    lemma_split_embed(s, i1, mat_txt, params_mid() + (dist_txt + params_close()));
    let j = i1 + mat_txt.len() as int;
    lemma_split_embed(s, j, params_mid(), dist_txt + params_close());
    let i2 = j + params_mid().len() as int;
    lemma_split_embed(s, i2, dist_txt, params_close());
    let k = i2 + dist_txt.len() as int;
    lemma_embed_index(s, j, params_mid(), 0);
    assert(s[j + 0] == ']');
    assert(!is_digit(']') && ']' != ',') by {
        assert(']' as u32 == 93);
        assert(',' as u32 == 44);
    }
    lemma_parse_u64_list_embed(s, i1, m.matrix);
    lemma_embed_index(s, k, params_close(), 0);
    assert(s[k + 0] == ']');
    lemma_parse_u64_list_embed(s, i2, m.dist);
}

/// Round trip at the configuration type itself: serializing any
/// configuration value and parsing the text back yields a value with
/// the same kind, index and path.
pub proof fn lemma_config_text_round_trip(c: VideoSourceConfig)
    ensures
        spec_parse_config(spec_serialize_config(config_model(c))) == Some(config_model(c)),
{
    lemma_config_round_trip(config_model(c));
}

/// The canonical text of a flat parameter set, when it has the
/// 3x3 + 1x5 shape.
pub fn serialize_params(matrix: &Vec<u64>, dist: &Vec<u64>) -> (r: String)
    requires
        matrix@.len() == 9,
        dist@.len() == 5,
    ensures
        r@ == spec_serialize_params(ParamsModel { matrix: matrix@, dist: dist@ }),
{
    let mut out: Vec<char> = Vec::new();
    emit_lit(&mut out, "{\"camera_matrix\":{\"dtype\":\"f64-bits\",\"rows\":3,\"cols\":3,\"data\":[");
    emit_u64_list_from(&mut out, matrix, 0);
    emit_lit(&mut out, "]},\"dist_coeffs\":{\"dtype\":\"f64-bits\",\"rows\":1,\"cols\":5,\"data\":[");
    emit_u64_list_from(&mut out, dist, 0);
    emit_lit(&mut out, "]}}");
    proof {
        assert(matrix@.skip(0) =~= matrix@);
        assert(dist@.skip(0) =~= dist@);
        assert(out@ =~= spec_serialize_params(ParamsModel { matrix: matrix@, dist: dist@ }));
    }
    chars_to_string(&out)
}

/// Parse a whole camera-parameter document, exactly as the
/// specification parser does; the two vectors hold nine and five
/// entries respectively.
pub fn parse_params(text: &str) -> (r: Option<(Vec<u64>, Vec<u64>)>)
    ensures
        match r {
            Some((mat, dist)) => spec_parse_params(text@)
                == Some(ParamsModel { matrix: mat@, dist: dist@ })
                && mat@.len() == 9 && dist@.len() == 5,
            None => spec_parse_params(text@) is None,
        },
{
    let v = str_to_chars(text);
    let total = v.len();
    assert(v@.len() <= usize::MAX);
    if !match_lit_exec(&v, 0, "{\"camera_matrix\":{\"dtype\":\"f64-bits\",\"rows\":3,\"cols\":3,\"data\":[") {
        return None;
    }
    let l1 = "{\"camera_matrix\":{\"dtype\":\"f64-bits\",\"rows\":3,\"cols\":3,\"data\":[".unicode_len();
    assert(l1 <= v@.len());
    match parse_u64_list_exec(&v, l1, 9) {
        None => None,
        Some((mat, j)) => {
            if !match_lit_exec(&v, j, "]},\"dist_coeffs\":{\"dtype\":\"f64-bits\",\"rows\":1,\"cols\":5,\"data\":[") {
                return None;
            }
            let l2 = "]},\"dist_coeffs\":{\"dtype\":\"f64-bits\",\"rows\":1,\"cols\":5,\"data\":[".unicode_len();
            assert(j + l2 <= v@.len());
            match parse_u64_list_exec(&v, j + l2, 5) {
                None => None,
                Some((dist, k)) => {
                    let l3 = "]}}".unicode_len();
                    if v.len() - k == l3 && match_lit_exec(&v, k, "]}}") {
                        proof {
                            assert(parse_u64_list(v@, l1 as int, 9) == Some((mat@, j as int)));
                            lemma_list_len(v@, l1 as int, 9, mat@, j as int);
                            lemma_list_len(v@, j + l2, 5, dist@, k as int);
                        }
                        Some((mat, dist))
                    } else {
                        None
                    }
                },
            }
        },
    }
}

/// A successful `n`-element list parse yields `n` values.
proof fn lemma_list_len(s: Seq<char>, i: int, n: nat, xs: Seq<u64>, j: int)
    requires
        parse_u64_list(s, i, n) == Some((xs, j)),
    ensures
        xs.len() == n,
    decreases n,
{
    if n > 0 {
        match parse_u64_at(s, i) {
            Some((x, j0)) => {
                if n > 1 && j0 < s.len() && s[j0] == ',' {
                    match parse_u64_list(s, j0 + 1, (n - 1) as nat) {
                        Some((t, k)) => {
                            lemma_list_len(s, j0 + 1, (n - 1) as nat, t, k);
                        },
                        None => {},
                    }
                }
            },
            None => {},
        }
    }
}

/// Parse a whole configuration document, exactly as the specification
/// parser does: one configuration object and nothing after it.
pub fn parse_config(text: &str) -> (r: Option<VideoSourceConfig>)
    ensures
        match r {
            Some(c) => spec_parse_config(text@) == Some(config_model(c)),
            None => spec_parse_config(text@) is None,
        },
{
    let v = str_to_chars(text);
    match parse_config_at_exec(&v, 0) {
        Some((c, j)) => {
            if j == v.len() {
                Some(c)
            } else {
                None
            }
        },
        None => None,
    }
}

// ---------------------------------------------------------------------
// The registry configuration document.
// ---------------------------------------------------------------------

/// The mathematical content of one registry entry: the camera's name
/// and its source configuration.
pub open spec fn entry_model(e: (String, VideoSourceConfig)) -> (Seq<char>, ConfigModel) {
    (e.0@, config_model(e.1))
}

/// The mathematical content of a registry entry list.
pub open spec fn entries_model(v: Seq<(String, VideoSourceConfig)>)
    -> Seq<(Seq<char>, ConfigModel)> {
    v.map_values(|e: (String, VideoSourceConfig)| entry_model(e))
}

/// Opening of one registry entry, up to the name characters.
pub open spec fn entry_open() -> Seq<char> {
    "{\"name\":\""@
}

/// Middle of one registry entry, between the name and the source
/// configuration; its first character closes the name's quotes.
pub open spec fn entry_mid() -> Seq<char> {
    "\",\"source\":"@
}

/// Opening of the registry document, up to the first entry.
pub open spec fn reg_open() -> Seq<char> {
    "{\"cameras\":["@
}

/// Closing of the registry document.
pub open spec fn reg_close() -> Seq<char> {
    "]}"@
}

/// The canonical text of one registry entry.
pub open spec fn ser_entry(name: Seq<char>, cfg: ConfigModel) -> Seq<char> {
    entry_open() + esc_string(name) + entry_mid() + spec_serialize_config(cfg) + "}"@
}

/// The canonical text of a nonempty entry list: entries separated by
/// single commas.
pub open spec fn ser_entries(es: Seq<(Seq<char>, ConfigModel)>) -> Seq<char>
    decreases es.len(),
{
    if es.len() == 0 {
        Seq::empty()
    } else if es.len() == 1 {
        ser_entry(es[0].0, es[0].1)
    } else {
        ser_entry(es[0].0, es[0].1) + seq![','] + ser_entries(es.drop_first())
    }
}

/// The canonical text of the whole registry configuration.
pub open spec fn spec_serialize_registry(es: Seq<(Seq<char>, ConfigModel)>) -> Seq<char> {
    reg_open() + ser_entries(es) + reg_close()
}

/// Parse one registry entry at position `i`, consuming it up to and
/// including its closing brace.
pub open spec fn parse_entry_at(s: Seq<char>, i: int)
    -> Option<((Seq<char>, ConfigModel), int)> {
    if match_lit(s, i, entry_open()) {
        match parse_string_body(s, i + entry_open().len()) {
            Some((name, j)) => if match_lit(s, j, entry_mid()) {
                match parse_config_at(s, j + entry_mid().len()) {
                    Some((cfg, k)) => if k < s.len() && s[k] == '}' {
                        Some(((name, cfg), k + 1))
                    } else {
                        None
                    },
                    None => None,
                }
            } else {
                None
            },
            None => None,
        }
    } else {
        None
    }
}

/// Parse comma-separated registry entries at position `i` until the
/// character after an entry is no longer a comma.  `fuel` bounds the
/// number of entries; parses of a document text never exhaust it.
pub open spec fn parse_entries(s: Seq<char>, i: int, fuel: nat)
    -> Option<(Seq<(Seq<char>, ConfigModel)>, int)>
    decreases fuel,
{
    if fuel == 0 {
        None
    } else {
        match parse_entry_at(s, i) {
            Some((e, j)) => if j < s.len() && s[j] == ',' {
                match parse_entries(s, j + 1, (fuel - 1) as nat) {
                    Some((t, k)) => Some((seq![e] + t, k)),
                    None => None,
                }
            } else {
                Some((seq![e], j))
            },
            None => None,
        }
    }
}

/// Parse a whole registry configuration document: the camera array,
/// empty or comma-separated, and nothing after it.
pub open spec fn spec_parse_registry(s: Seq<char>) -> Option<Seq<(Seq<char>, ConfigModel)>> {
    if match_lit(s, 0, reg_open()) {
        if s.len() == reg_open().len() + reg_close().len()
            && match_lit(s, reg_open().len() as int, reg_close()) {
            Some(Seq::empty())
        } else {
            match parse_entries(s, reg_open().len() as int, s.len() as nat) {
                Some((es, j)) => if j + reg_close().len() == s.len()
                    && match_lit(s, j, reg_close()) {
                    Some(es)
                } else {
                    None
                },
                None => None,
            }
        }
    } else {
        None
    }
}

/// Parsing at an embedded serialized entry yields exactly that entry,
/// consuming exactly its text.
pub proof fn lemma_parse_entry_embed(s: Seq<char>, i: int, name: Seq<char>, cfg: ConfigModel)
    requires
        0 <= i,
        i + ser_entry(name, cfg).len() <= s.len(),
        s.subrange(i, i + ser_entry(name, cfg).len()) == ser_entry(name, cfg),
    ensures
        parse_entry_at(s, i) == Some(((name, cfg), i + ser_entry(name, cfg).len())),
{
    reveal_strlit("{\"name\":\"");
    reveal_strlit("\",\"source\":");
    reveal_strlit("}");
    let e = ser_entry(name, cfg);
    let en = esc_string(name);
    let ec = spec_serialize_config(cfg);
    let tail1 = en + (entry_mid() + (ec + "}"@));
    assert(e =~= entry_open() + tail1);
    lemma_split_embed(s, i, entry_open(), tail1);
    let i1 = i + entry_open().len() as int;
    lemma_split_embed(s, i1, en, entry_mid() + (ec + "}"@));
    let j = i1 + en.len() as int;
    lemma_split_embed(s, j, entry_mid(), ec + "}"@);
    let i2 = j + entry_mid().len() as int;
    lemma_split_embed(s, i2, ec, "}"@);
    let k = i2 + ec.len() as int;
    lemma_embed_index(s, j, entry_mid(), 0);
    assert(s[j + 0] == '"');
    lemma_parse_esc_embed(s, i1, name);
    lemma_parse_config_embed(s, i2, cfg);
    lemma_embed_index(s, k, "}"@, 0);
    assert(s[k + 0] == '}');
}

/// An entry's text is never empty.
pub proof fn lemma_ser_entry_len(name: Seq<char>, cfg: ConfigModel)
    ensures
        ser_entry(name, cfg).len() >= 1,
{
    reveal_strlit("{\"name\":\"");
}

/// An entry list's text holds at least one character per entry.
pub proof fn lemma_ser_entries_len(es: Seq<(Seq<char>, ConfigModel)>)
    ensures
        ser_entries(es).len() >= es.len(),
    decreases es.len(),
{
    if es.len() == 1 {
        lemma_ser_entry_len(es[0].0, es[0].1);
    } else if es.len() > 1 {
        lemma_ser_entry_len(es[0].0, es[0].1);
        lemma_ser_entries_len(es.drop_first());
    }
}

/// Parsing at an embedded serialized entry list that a non-comma
/// follows yields exactly that list, for any sufficient fuel.
pub proof fn lemma_parse_entries_embed(
    s: Seq<char>,
    i: int,
    es: Seq<(Seq<char>, ConfigModel)>,
    fuel: nat,
)
    requires
        0 <= i,
        es.len() >= 1,
        fuel >= es.len(),
        i + ser_entries(es).len() < s.len(),
        s.subrange(i, i + ser_entries(es).len()) == ser_entries(es),
        s[i + ser_entries(es).len()] != ',',
    ensures
        parse_entries(s, i, fuel) == Some((es, i + ser_entries(es).len())),
    decreases es.len(),
{
    let e = ser_entries(es);
    if es.len() == 1 {
        lemma_parse_entry_embed(s, i, es[0].0, es[0].1);
        assert(seq![es[0]] =~= es);
    } else {
        let head = ser_entry(es[0].0, es[0].1);
        let comma = seq![','];
        let rest = ser_entries(es.drop_first());
        assert(e =~= head + (comma + rest));
        lemma_split_embed(s, i, head, comma + rest);
        let i1 = i + head.len() as int;
        lemma_split_embed(s, i1, comma, rest);
        lemma_embed_index(s, i1, comma, 0);
        assert(s[i1 + 0] == ',');
        lemma_parse_entry_embed(s, i, es[0].0, es[0].1);
        lemma_parse_entries_embed(s, i1 + 1, es.drop_first(), (fuel - 1) as nat);
        assert(seq![es[0]] + es.drop_first() =~= es);
    }
}

/// Round trip: parsing the canonical text of any entry list gives
/// back exactly that list.
pub proof fn lemma_registry_round_trip(es: Seq<(Seq<char>, ConfigModel)>)
    ensures
        spec_parse_registry(spec_serialize_registry(es)) == Some(es),
{
    reveal_strlit("{\"cameras\":[");
    reveal_strlit("]}");
    let s = spec_serialize_registry(es);
    let body = ser_entries(es);
    assert(s =~= reg_open() + (body + reg_close()));
    assert(s.subrange(0, s.len() as int) =~= s);
    lemma_split_embed(s, 0, reg_open(), body + reg_close());
    let i1 = reg_open().len() as int;
    lemma_split_embed(s, i1, body, reg_close());
    let j = i1 + body.len() as int;
    if es.len() == 0 {
        assert(body =~= Seq::<char>::empty());
        assert(s.len() == reg_open().len() + reg_close().len());
    } else {
        lemma_ser_entries_len(es);
        assert(s.len() > reg_open().len() + reg_close().len());
        lemma_embed_index(s, j, reg_close(), 0);
        assert(s[j + 0] == ']');
        lemma_parse_entries_embed(s, i1, es, s.len() as nat);
    }
}

/// Append the canonical text of one registry entry.
fn emit_entry(out: &mut Vec<char>, name: &String, cfg: &VideoSourceConfig)
    ensures
        final(out)@ == old(out)@ + ser_entry(name@, config_model(*cfg)),
{
    emit_lit(out, "{\"name\":\"");
    let nv = str_to_chars(name.as_str());
    emit_escaped(out, &nv);
    emit_lit(out, "\",\"source\":");
    emit_config(out, cfg);
    emit_lit(out, "}");
    proof {
        assert(out@ =~= old(out)@ + ser_entry(name@, config_model(*cfg)));
    }
}

/// Append the canonical text of one configuration.
fn emit_config(out: &mut Vec<char>, c: &VideoSourceConfig)
    ensures
        final(out)@ == old(out)@ + spec_serialize_config(config_model(*c)),
{
    match c {
        VideoSourceConfig::DeviceCapture { index } => {
            emit_lit(out, "{\"kind\":\"device\",\"index\":");
            emit_i32(out, *index);
            emit_lit(out, "}");
            proof {
                assert(out@ =~= old(out)@ + spec_serialize_config(config_model(*c)));
            }
        },
        VideoSourceConfig::MemoryMappedFeed { path } => {
            emit_lit(out, "{\"kind\":\"memory_mapped\",\"path\":\"");
            let pv = str_to_chars(path.as_str());
            emit_escaped(out, &pv);
            emit_lit(out, "\"}");
            proof {
                assert(out@ =~= old(out)@ + spec_serialize_config(config_model(*c)));
            }
        },
    }
}

/// Append the canonical text of the entries of `entries` from index
/// `from` on.
fn emit_entries_from(out: &mut Vec<char>, entries: &Vec<(String, VideoSourceConfig)>, from: usize)
    requires
        from <= entries@.len(),
    ensures
        final(out)@ == old(out)@ + ser_entries(entries_model(entries@.skip(from as int))),
    decreases entries@.len() - from,
{
    if from == entries.len() {
        proof {
            assert(entries_model(entries@.skip(from as int)).len() == 0);
            assert(old(out)@ + Seq::<char>::empty() =~= old(out)@);
        }
        return;
    }
    let entry = &entries[from];
    emit_entry(out, &entry.0, &entry.1);
    proof {
        assert(entries_model(entries@.skip(from as int))[0] == entry_model(entries@[from as int]));
    }
    if from + 1 < entries.len() {
        out.push(',');
        emit_entries_from(out, entries, from + 1);
        proof {
            assert(entries_model(entries@.skip(from as int)).drop_first()
                =~= entries_model(entries@.skip(from + 1)));
            assert(entries_model(entries@.skip(from as int)).len() >= 2);
            assert(out@ =~= old(out)@ + ser_entries(entries_model(entries@.skip(from as int))));
        }
    } else {
        proof {
            assert(entries_model(entries@.skip(from as int)).len() == 1);
            assert(out@ =~= old(out)@ + ser_entries(entries_model(entries@.skip(from as int))));
        }
    }
}

/// The canonical text of the registry configuration: each camera's
/// name and source configuration, in registry order.
pub fn serialize_registry(entries: &Vec<(String, VideoSourceConfig)>) -> (r: String)
    ensures
        r@ == spec_serialize_registry(entries_model(entries@)),
{
    let mut out: Vec<char> = Vec::new();
    emit_lit(&mut out, "{\"cameras\":[");
    emit_entries_from(&mut out, entries, 0);
    emit_lit(&mut out, "]}");
    proof {
        assert(entries@.skip(0) =~= entries@);
        assert(out@ =~= spec_serialize_registry(entries_model(entries@)));
    }
    chars_to_string(&out)
}

/// Parse one registry entry at position `i`, exactly as the
/// specification parser does.
fn parse_entry_at_exec(v: &Vec<char>, i: usize)
    -> (r: Option<((String, VideoSourceConfig), usize)>)
    requires
        i <= v@.len(),
    ensures
        match r {
            Some((e, j)) => parse_entry_at(v@, i as int) == Some((entry_model(e), j as int))
                && j <= v@.len(),
            None => parse_entry_at(v@, i as int) is None,
        },
{
    let total = v.len();
    assert(v@.len() <= usize::MAX);
    if !match_lit_exec(v, i, "{\"name\":\"") {
        return None;
    }
    let l1 = "{\"name\":\"".unicode_len();
    assert(i + l1 <= v@.len());
    match parse_string_body_exec(v, i + l1) {
        None => None,
        Some((name_chars, j)) => {
            if !match_lit_exec(v, j, "\",\"source\":") {
                return None;
            }
            let l2 = "\",\"source\":".unicode_len();
            assert(j + l2 <= v@.len());
            match parse_config_at_exec(v, j + l2) {
                None => None,
                Some((cfg, k)) => {
                    if k < v.len() && v[k] == '}' {
                        let name = chars_to_string(&name_chars);
                        Some(((name, cfg), k + 1))
                    } else {
                        None
                    }
                },
            }
        },
    }
}

/// Parse comma-separated registry entries at position `i`, exactly as
/// the specification parser does with the same fuel.
fn parse_entries_exec(v: &Vec<char>, i: usize, fuel: usize)
    -> (r: Option<(Vec<(String, VideoSourceConfig)>, usize)>)
    requires
        i <= v@.len(),
    ensures
        match r {
            Some(p) => parse_entries(v@, i as int, fuel as nat)
                == Some((entries_model(p.0@), p.1 as int)) && p.1 <= v@.len(),
            None => parse_entries(v@, i as int, fuel as nat) is None,
        },
    decreases fuel,
{
    if fuel == 0 {
        return None;
    }
    match parse_entry_at_exec(v, i) {
        None => None,
        Some((e, j)) => {
            if j < v.len() && v[j] == ',' {
                match parse_entries_exec(v, j + 1, fuel - 1) {
                    Some((mut rest, k)) => {
                        let mut es: Vec<(String, VideoSourceConfig)> = Vec::new();
                        let ghost e_model = entry_model(e);
                        es.push(e);
                        let ghost rest_view = rest@;
                        es.append(&mut rest);
                        proof {
                            assert(entries_model(es@) =~= seq![e_model]
                                + entries_model(rest_view));
                        }
                        Some((es, k))
                    },
                    None => None,
                }
            } else {
                let ghost e_model = entry_model(e);
                let mut es: Vec<(String, VideoSourceConfig)> = Vec::new();
                es.push(e);
                proof {
                    assert(entries_model(es@) =~= seq![e_model]);
                }
                Some((es, j))
            }
        },
    }
}

/// Parse a whole registry configuration document, exactly as the
/// specification parser does.
pub fn parse_registry(text: &str) -> (r: Option<Vec<(String, VideoSourceConfig)>>)
    ensures
        match r {
            Some(es) => spec_parse_registry(text@) == Some(entries_model(es@)),
            None => spec_parse_registry(text@) is None,
        },
{
    let v = str_to_chars(text);
    let total = v.len();
    assert(v@.len() <= usize::MAX);
    if !match_lit_exec(&v, 0, "{\"cameras\":[") {
        return None;
    }
    let l1 = "{\"cameras\":[".unicode_len();
    let l2 = "]}".unicode_len();
    if v.len() - l1 == l2 && match_lit_exec(&v, l1, "]}") {
        let es: Vec<(String, VideoSourceConfig)> = Vec::new();
        proof {
            assert(entries_model(es@) =~= Seq::<(Seq<char>, ConfigModel)>::empty());
        }
        return Some(es);
    }
    assert(l1 <= v@.len());
    match parse_entries_exec(&v, l1, v.len()) {
        None => None,
        Some((es, j)) => {
            if v.len() - j == l2 && match_lit_exec(&v, j, "]}") {
                Some(es)
            } else {
                None
            }
        },
    }
}

} // verus!


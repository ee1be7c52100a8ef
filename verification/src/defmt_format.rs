//! Which defmt tables the ground station decodes: the format strings of a
//! table, their parameters, and the rule that keeps out the parameters the
//! host-side formatter cannot show.
//!
//! The formatter stops the program on a signed `isize` shown in hex (its
//! own hint, or the hint of a formatted value it is nested in), may stop it
//! on a timestamp shown as a calendar date that is out of range, hands CBOR
//! to another crate, and sizes slices and arrays of formatted values by
//! counts that come from the received bytes. A table with any of these is
//! refused.

use defmt_parser::{DisplayHint, Fragment, Parameter, ParserMode, TimePrecision, Type};
use vstd::prelude::*;

verus! {

#[verifier::external_type_specification]
pub struct ExType(Type);

#[verifier::external_type_specification]
pub struct ExTimePrecision(TimePrecision);

#[verifier::external_type_specification]
pub struct ExDisplayHint(DisplayHint);

#[verifier::external_type_specification]
pub struct ExParameter(Parameter);

/// The type of a format parameter, as `defmt_parser::Type` gives it.
#[derive(Debug, Clone, Copy, PartialEq, Eq, Structural)]
pub enum ParamType {
    BitField,
    Bool,
    Char,
    Debug,
    Display,
    FormatSequence,
    F32,
    F64,
    Format,
    FormatArray,
    FormatSlice,
    I8,
    I16,
    I32,
    I64,
    I128,
    Isize,
    IStr,
    Str,
    U8,
    U16,
    U32,
    U64,
    U128,
    Usize,
    U8Slice,
    U8Array,
}

/// The display hint of a format parameter, as `defmt_parser::DisplayHint`
/// gives it; `Absent` when the parameter has none.
#[derive(Debug, Clone, Copy, PartialEq, Eq, Structural)]
pub enum ParamHint {
    Absent,
    NoHint,
    Hexadecimal,
    Octal,
    Binary,
    Ascii,
    Debug,
    Seconds,
    Time,
    Iso8601,
    Bitflags,
    Cbor,
    Unknown,
    Other,
}

/// A parameter of a format string: its type and its display hint.
#[derive(Debug, Clone, Copy, PartialEq, Eq, Structural)]
pub struct FormatParam {
    pub ty: ParamType,
    pub hint: ParamHint,
}

/// A part of a format string: literal text, or a parameter.
#[derive(Debug, Clone, Copy, PartialEq, Eq, Structural)]
pub enum FormatFragment {
    Literal,
    Parameter(FormatParam),
}

/// The format strings of the defmt table given by its JSON text (the
/// timestamp's, if any, then the entries'), or `None` when the text does
/// not describe a table.
pub uninterp spec fn table_formats(json: Seq<char>) -> Option<Seq<Seq<char>>>;

/// What `defmt_parser::parse` makes of a format string in its
/// forwards-compatible mode: its fragments, or `None` when it fails.
pub uninterp spec fn format_fragments(format: Seq<char>) -> Option<Seq<FormatFragment>>;

/// The pieces of a string between its `|` characters, as `str::split`
/// yields them: the variants of an enum's format string.
pub uninterp spec fn bar_pieces(s: Seq<char>) -> Seq<Seq<char>>;

/// Reads the format strings out of a table's JSON text (the fields
/// `timestamp.string.string` and `entries.*.string.string` that `Table`'s
/// `Serialize` writes); a function of the text alone.
#[verifier::external_body]
pub(crate) fn json_table_formats(json: &str) -> (r: Option<Vec<String>>)
    ensures
        r matches Some(v) ==> table_formats(json@) matches Some(fs) && fs == v@.map_values(|s: String| s@),
        r is None ==> table_formats(json@) is None,
{
    let v: serde_json::Value = serde_json::from_str(json).ok()?;
    let mut out: Vec<String> = Vec::new();
    if let Some(t) = v["timestamp"]["string"]["string"].as_str() {
        out.push(t.to_string());
    }
    for e in v.get("entries")?.as_object()?.values() {
        out.push(e["string"]["string"].as_str()?.to_string());
    }
    Some(out)
}

/// Calls `defmt_parser::parse` in forwards-compatible mode (the mode the
/// decoder reads formats in), keeping each fragment's parameter (`None` for
/// literal text).
#[verifier::external_body]
fn parse_format(format: &str) -> (r: Option<Vec<Option<Parameter>>>)
    ensures
        r matches Some(v) ==> format_fragments(format@) == Some(
            v@.map_values(|o: Option<Parameter>| fragment_of(o)),
        ),
        r is None ==> format_fragments(format@) is None,
{
    let fragments = defmt_parser::parse(format, ParserMode::ForwardsCompatible).ok()?;
    Some(
        fragments.into_iter().map(|f| match f {
            Fragment::Literal(_) => None,
            Fragment::Parameter(p) => Some(p),
        }).collect(),
    )
}

/// A parameter's type.
pub open spec fn param_type(t: Type) -> ParamType {
    match t {
        Type::BitField(_) => ParamType::BitField,
        Type::Bool => ParamType::Bool,
        Type::Char => ParamType::Char,
        Type::Debug => ParamType::Debug,
        Type::Display => ParamType::Display,
        Type::FormatSequence => ParamType::FormatSequence,
        Type::F32 => ParamType::F32,
        Type::F64 => ParamType::F64,
        Type::Format => ParamType::Format,
        Type::FormatArray(_) => ParamType::FormatArray,
        Type::FormatSlice => ParamType::FormatSlice,
        Type::I8 => ParamType::I8,
        Type::I16 => ParamType::I16,
        Type::I32 => ParamType::I32,
        Type::I64 => ParamType::I64,
        Type::I128 => ParamType::I128,
        Type::Isize => ParamType::Isize,
        Type::IStr => ParamType::IStr,
        Type::Str => ParamType::Str,
        Type::U8 => ParamType::U8,
        Type::U16 => ParamType::U16,
        Type::U32 => ParamType::U32,
        Type::U64 => ParamType::U64,
        Type::U128 => ParamType::U128,
        Type::Usize => ParamType::Usize,
        Type::U8Slice => ParamType::U8Slice,
        Type::U8Array(_) => ParamType::U8Array,
    }
}

/// A parameter's display hint.
pub open spec fn param_hint(h: Option<DisplayHint>) -> ParamHint {
    match h {
        None => ParamHint::Absent,
        Some(DisplayHint::NoHint { .. }) => ParamHint::NoHint,
        Some(DisplayHint::Hexadecimal { .. }) => ParamHint::Hexadecimal,
        Some(DisplayHint::Octal { .. }) => ParamHint::Octal,
        Some(DisplayHint::Binary { .. }) => ParamHint::Binary,
        Some(DisplayHint::Ascii) => ParamHint::Ascii,
        Some(DisplayHint::Debug) => ParamHint::Debug,
        Some(DisplayHint::Seconds(_)) => ParamHint::Seconds,
        Some(DisplayHint::Time(_)) => ParamHint::Time,
        Some(DisplayHint::ISO8601(_)) => ParamHint::Iso8601,
        Some(DisplayHint::Bitflags { .. }) => ParamHint::Bitflags,
        Some(DisplayHint::Cbor) => ParamHint::Cbor,
        Some(DisplayHint::Unknown(_)) => ParamHint::Unknown,
        Some(_) => ParamHint::Other,
    }
}

/// A fragment, from its parameter (`None` for literal text).
pub open spec fn fragment_of(o: Option<Parameter>) -> FormatFragment {
    match o {
        Some(p) => FormatFragment::Parameter(FormatParam { ty: param_type(p.ty), hint: param_hint(p.hint) }),
        None => FormatFragment::Literal,
    }
}

fn convert_type(t: &Type) -> (r: ParamType)
    ensures
        r == param_type(*t),
{
    match t {
        Type::BitField(_) => ParamType::BitField,
        Type::Bool => ParamType::Bool,
        Type::Char => ParamType::Char,
        Type::Debug => ParamType::Debug,
        Type::Display => ParamType::Display,
        Type::FormatSequence => ParamType::FormatSequence,
        Type::F32 => ParamType::F32,
        Type::F64 => ParamType::F64,
        Type::Format => ParamType::Format,
        Type::FormatArray(_) => ParamType::FormatArray,
        Type::FormatSlice => ParamType::FormatSlice,
        Type::I8 => ParamType::I8,
        Type::I16 => ParamType::I16,
        Type::I32 => ParamType::I32,
        Type::I64 => ParamType::I64,
        Type::I128 => ParamType::I128,
        Type::Isize => ParamType::Isize,
        Type::IStr => ParamType::IStr,
        Type::Str => ParamType::Str,
        Type::U8 => ParamType::U8,
        Type::U16 => ParamType::U16,
        Type::U32 => ParamType::U32,
        Type::U64 => ParamType::U64,
        Type::U128 => ParamType::U128,
        Type::Usize => ParamType::Usize,
        Type::U8Slice => ParamType::U8Slice,
        Type::U8Array(_) => ParamType::U8Array,
    }
}

fn convert_hint(h: &Option<DisplayHint>) -> (r: ParamHint)
    ensures
        r == param_hint(*h),
{
    match h {
        None => ParamHint::Absent,
        Some(DisplayHint::NoHint { .. }) => ParamHint::NoHint,
        Some(DisplayHint::Hexadecimal { .. }) => ParamHint::Hexadecimal,
        Some(DisplayHint::Octal { .. }) => ParamHint::Octal,
        Some(DisplayHint::Binary { .. }) => ParamHint::Binary,
        Some(DisplayHint::Ascii) => ParamHint::Ascii,
        Some(DisplayHint::Debug) => ParamHint::Debug,
        Some(DisplayHint::Seconds(_)) => ParamHint::Seconds,
        Some(DisplayHint::Time(_)) => ParamHint::Time,
        Some(DisplayHint::ISO8601(_)) => ParamHint::Iso8601,
        Some(DisplayHint::Bitflags { .. }) => ParamHint::Bitflags,
        Some(DisplayHint::Cbor) => ParamHint::Cbor,
        Some(DisplayHint::Unknown(_)) => ParamHint::Unknown,
        Some(_) => ParamHint::Other,
    }
}

/// The pieces joined again, with a `|` between each two.
pub open spec fn join_bars(ps: Seq<Seq<char>>) -> Seq<char>
    decreases ps.len(),
{
    if ps.len() <= 1 {
        if ps.len() == 0 {
            Seq::empty()
        } else {
            ps[0]
        }
    } else {
        join_bars(ps.drop_last()) + seq!['|'] + ps.last()
    }
}

/// Calls `str::split` with `'|'` and collects the pieces: at least one, none
/// holding a `|`, and joined by `|` they give the string back.
#[verifier::external_body]
fn split_bars(s: &str) -> (r: Vec<String>)
    ensures
        r@.map_values(|p: String| p@) == bar_pieces(s@),
        r@.len() >= 1,
        forall|i: int| 0 <= i < r@.len() ==> !(#[trigger] r@[i])@.contains('|'),
        join_bars(r@.map_values(|p: String| p@)) == s@,
{
    s.split('|').map(|p| p.to_string()).collect()
}

/// The parameters among the fragments, in order.
pub open spec fn fragment_params(fr: Seq<FormatFragment>) -> Seq<FormatParam>
    decreases fr.len(),
{
    if fr.len() == 0 {
        Seq::empty()
    } else {
        fragment_params(fr.drop_last()) + match fr.last() {
            FormatFragment::Parameter(p) => seq![p],
            FormatFragment::Literal => Seq::empty(),
        }
    }
}

/// The parameters of a format string that parses; none for one that does
/// not (the decoder refuses such a format).
pub open spec fn parsed_params(f: Seq<char>) -> Seq<FormatParam> {
    match format_fragments(f) {
        Some(fr) => fragment_params(fr),
        None => Seq::empty(),
    }
}

/// The parameters of each of the strings, in order.
pub open spec fn pieces_params(ps: Seq<Seq<char>>) -> Seq<FormatParam>
    decreases ps.len(),
{
    if ps.len() == 0 {
        Seq::empty()
    } else {
        pieces_params(ps.drop_last()) + parsed_params(ps.last())
    }
}

/// The parameters of a table's format string: those of the whole string,
/// and those of each enum variant in it.
pub open spec fn format_all_params(f: Seq<char>) -> Seq<FormatParam> {
    parsed_params(f) + pieces_params(bar_pieces(f))
}

/// The parameters of all of a table's format strings.
pub open spec fn table_params(fs: Seq<Seq<char>>) -> Seq<FormatParam>
    decreases fs.len(),
{
    if fs.len() == 0 {
        Seq::empty()
    } else {
        table_params(fs.drop_last()) + format_all_params(fs.last())
    }
}

/// A parameter of a formatted value passes its hint to the values nested
/// in it; a hexadecimal one reaches the signed values among them.
pub open spec fn gives_nested_hex(p: FormatParam) -> bool {
    (p.ty is Format || p.ty is FormatSequence) && p.hint is Hexadecimal
}

/// Whether the host can show a parameter: not a calendar date, not CBOR,
/// not a slice or array of formatted values, not an `isize` in hex; and,
/// when some formatted value of the table is shown in hex, not an `isize`
/// without a hint of its own.
pub open spec fn param_shows(p: FormatParam, nested_hex: bool) -> bool {
    &&& !(p.hint is Iso8601)
    &&& !(p.hint is Cbor)
    &&& !(p.ty is FormatSlice)
    &&& !(p.ty is FormatArray)
    &&& !(p.ty is Isize && p.hint is Hexadecimal)
    &&& nested_hex ==> !(p.ty is Isize && p.hint is Absent)
}

/// Whether the host can show every parameter of the list.
pub open spec fn params_show(ps: Seq<FormatParam>) -> bool {
    forall|k: int| 0 <= k < ps.len() ==> #[trigger] param_shows(ps[k], nested_hex_in(ps))
}

/// Whether some formatted value of the list is shown in hex.
pub open spec fn nested_hex_in(ps: Seq<FormatParam>) -> bool {
    exists|k: int| 0 <= k < ps.len() && #[trigger] gives_nested_hex(ps[k])
}

/// A table the ground station decodes: its format strings can be read,
/// and the host can show every parameter in them.
pub open spec fn table_accepted(json: Seq<char>) -> bool {
    table_formats(json) matches Some(fs) && params_show(table_params(fs))
}

fn push_params(acc: &mut Vec<FormatParam>, f: &str)
    ensures
        final(acc)@ == old(acc)@ + parsed_params(f@),
{
    match parse_format(f) {
        Some(fr) => {
            let ghost start = acc@;
            let ghost frv = fr@.map_values(|o: Option<Parameter>| fragment_of(o));
            for i in 0..fr.len()
                invariant
                    frv == fr@.map_values(|o: Option<Parameter>| fragment_of(o)),
                    format_fragments(f@) == Some(frv),
                    acc@ == start + fragment_params(frv.take(i as int)),
            {
                proof {
                    assert(frv.take(i + 1).drop_last() =~= frv.take(i as int));
                }
                match &fr[i] {
                    Some(p) => {
                        acc.push(FormatParam { ty: convert_type(&p.ty), hint: convert_hint(&p.hint) });
                    },
                    None => {},
                }
                proof {
                    assert(acc@ =~= start + fragment_params(frv.take(i + 1)));
                }
            }
            assert(frv.take(frv.len() as int) =~= frv);
        },
        None => {
            assert(acc@ =~= old(acc)@ + parsed_params(f@));
        },
    }
}

fn push_format_params(acc: &mut Vec<FormatParam>, f: &str)
    ensures
        final(acc)@ == old(acc)@ + format_all_params(f@),
{
    push_params(acc, f);
    let pieces = split_bars(f);
    let ghost mid = acc@;
    let ghost pv = pieces@.map_values(|p: String| p@);
    for i in 0..pieces.len()
        invariant
            pv == pieces@.map_values(|p: String| p@),
            pv == bar_pieces(f@),
            mid == old(acc)@ + parsed_params(f@),
            acc@ == mid + pieces_params(pv.take(i as int)),
    {
        push_params(acc, pieces[i].as_str());
        proof {
            assert(pv.take(i + 1).drop_last() =~= pv.take(i as int));
            assert(acc@ =~= mid + pieces_params(pv.take(i + 1)));
        }
    }
    assert(pv.take(pv.len() as int) =~= pv);
    assert(acc@ =~= old(acc)@ + format_all_params(f@));
}

fn params_show_exec(ps: &Vec<FormatParam>) -> (b: bool)
    ensures
        b == params_show(ps@),
{
    let mut nested_hex = false;
    for i in 0..ps.len()
        invariant
            nested_hex == exists|k: int| 0 <= k < i && #[trigger] gives_nested_hex(ps@[k]),
    {
        let p = ps[i];
        let gives = (p.ty == ParamType::Format || p.ty == ParamType::FormatSequence) && p.hint
            == ParamHint::Hexadecimal;
        assert(gives == gives_nested_hex(ps@[i as int]));
        if gives {
            nested_hex = true;
        }
        proof {
            if !gives {
                assert forall|k: int| 0 <= k < i + 1 && #[trigger] gives_nested_hex(ps@[k]) implies k < i by {}
            }
        }
    }
    let ghost nh = nested_hex_in(ps@);
    assert(nested_hex == nh);
    for i in 0..ps.len()
        invariant
            nested_hex == nh,
            nh == nested_hex_in(ps@),
            forall|k: int| 0 <= k < i ==> #[trigger] param_shows(ps@[k], nh),
    {
        let p = ps[i];
        let shows = p.hint != ParamHint::Iso8601 && p.hint != ParamHint::Cbor && p.ty
            != ParamType::FormatSlice && p.ty != ParamType::FormatArray && !(p.ty == ParamType::Isize
            && p.hint == ParamHint::Hexadecimal) && !(nested_hex && p.ty == ParamType::Isize
            && p.hint == ParamHint::Absent);
        assert(shows == param_shows(ps@[i as int], nh));
        if !shows {
            assert(!param_shows(ps@[i as int], nested_hex_in(ps@)));
            assert(!params_show(ps@));
            return false;
        }
    }
    true
}

/// Whether the ground station decodes the table given by its JSON text:
/// `table_accepted`.
pub fn accepts_table(json: &str) -> (b: bool)
    ensures
        b == table_accepted(json@),
{
    let formats = match json_table_formats(json) {
        Some(f) => f,
        None => return false,
    };
    let ghost fv = formats@.map_values(|s: String| s@);
    let mut all: Vec<FormatParam> = Vec::new();
    for i in 0..formats.len()
        invariant
            fv == formats@.map_values(|s: String| s@),
            all@ == table_params(fv.take(i as int)),
    {
        push_format_params(&mut all, formats[i].as_str());
        proof {
            assert(fv.take(i + 1).drop_last() =~= fv.take(i as int));
        }
    }
    assert(fv.take(fv.len() as int) =~= fv);
    params_show_exec(&all)
}

/// A plain formatted parameter (`{}` or `{=?}`: a formatted value with no
/// hint) is shown, whatever else the table holds.
pub proof fn lemma_plain_formatted_value_shows(p: FormatParam, nested_hex: bool)
    requires
        p.ty is Format,
        p.hint is Absent,
    ensures
        param_shows(p, nested_hex),
{
}

/// A table is accepted when its format strings can be read and none of
/// their parameters is an `isize` or a slice or array of formatted values,
/// and none has a calendar-date or CBOR hint: in particular a table of
/// integers, strings and plain `{}`.
pub proof fn lemma_tables_without_refused_parameters_accepted(json: Seq<char>)
    requires
        table_formats(json) matches Some(fs) && forall|k: int|
            0 <= k < table_params(fs).len() ==> {
                let p = #[trigger] table_params(fs)[k];
                &&& !(p.ty is Isize)
                &&& !(p.ty is FormatSlice)
                &&& !(p.ty is FormatArray)
                &&& !(p.hint is Iso8601)
                &&& !(p.hint is Cbor)
            },
    ensures
        table_accepted(json),
{
}

/// The parameters the rule refuses: an `isize` in hex, and any calendar
/// date, CBOR, slice or array of formatted values.
pub proof fn lemma_refused_parameters(p: FormatParam, nested_hex: bool)
    ensures
        (p.ty is Isize && p.hint is Hexadecimal) ==> !param_shows(p, nested_hex),
        p.hint is Iso8601 ==> !param_shows(p, nested_hex),
        p.hint is Cbor ==> !param_shows(p, nested_hex),
        p.ty is FormatSlice ==> !param_shows(p, nested_hex),
        p.ty is FormatArray ==> !param_shows(p, nested_hex),
{
}

} // verus!

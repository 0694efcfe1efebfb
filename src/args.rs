//! Argument schemas and the normalization of raw arguments against them.
use vstd::prelude::*;

verus! {

/// The declared kind of a parameter.
pub enum ParamKind {
    /// A whole number, with an optional default and an optional inclusive range
    /// that a resolved value is clamped into.
    Number { default: Option<u32>, range: Option<(u32, u32)> },
    /// A piece of text, with an optional default.
    Text { default_text: Option<String> },
}

/// One parameter of a command.
pub struct ParamSpec {
    pub name: String,
    pub kind: ParamKind,
}

/// A value supplied for, or resolved for, a parameter.
pub enum ArgValue {
    Number(u32),
    Text(String),
}

/// The abstract form of an argument value.
pub enum ArgModel {
    Number(u32),
    Text(Seq<char>),
}

/// One argument as the caller supplied it.
pub struct RawArgument {
    pub name: String,
    pub value: ArgValue,
}

/// Why a set of raw arguments could not be normalized.
pub enum ArgError {
    /// A parameter without a default was not supplied.
    Missing(String),
    /// A parameter was supplied with a value of the wrong kind.
    WrongKind(String),
}

/// The abstract form of an argument error: its kind and the parameter's name.
pub enum ArgErrorModel {
    Missing(Seq<char>),
    WrongKind(Seq<char>),
}

pub open spec fn arg_model(v: ArgValue) -> ArgModel {
    match v {
        ArgValue::Number(n) => ArgModel::Number(n),
        ArgValue::Text(t) => ArgModel::Text(t@),
    }
}

pub open spec fn arg_error_model(e: ArgError) -> ArgErrorModel {
    match e {
        ArgError::Missing(n) => ArgErrorModel::Missing(n@),
        ArgError::WrongKind(n) => ArgErrorModel::WrongKind(n@),
    }
}

/// `v` clamped into `range`, where one is declared.
pub open spec fn clamp_spec(v: u32, range: Option<(u32, u32)>) -> u32 {
    match range {
        Some((lo, hi)) => if v < lo { lo } else if v > hi { hi } else { v },
        None => v,
    }
}

/// The first value supplied under `name`, if any.
pub open spec fn supplied(raw: Seq<RawArgument>, name: Seq<char>) -> Option<ArgModel>
    decreases raw.len(),
{
    if raw.len() == 0 {
        None
    } else if raw[0].name@ == name {
        Some(arg_model(raw[0].value))
    } else {
        supplied(raw.skip(1), name)
    }
}

/// The value a parameter resolves to: the supplied one, else its default;
/// a number is then clamped into its range.
pub open spec fn resolve_spec(p: ParamSpec, raw: Seq<RawArgument>) -> Result<ArgModel, ArgErrorModel> {
    match (p.kind, supplied(raw, p.name@)) {
        (ParamKind::Number { range, .. }, Some(ArgModel::Number(n))) => Ok(ArgModel::Number(clamp_spec(n, range))),
        (ParamKind::Text { .. }, Some(ArgModel::Text(t))) => Ok(ArgModel::Text(t)),
        (_, Some(_)) => Err(ArgErrorModel::WrongKind(p.name@)),
        (ParamKind::Number { default: Some(d), range }, None) => Ok(ArgModel::Number(clamp_spec(d, range))),
        (ParamKind::Text { default_text: Some(t) }, None) => Ok(ArgModel::Text(t@)),
        (_, None) => Err(ArgErrorModel::Missing(p.name@)),
    }
}

/// Every parameter resolved in schema order, or the first parameter's error.
pub open spec fn normalize_spec(schema: Seq<ParamSpec>, raw: Seq<RawArgument>) -> Result<Seq<ArgModel>, ArgErrorModel>
    decreases schema.len(),
{
    if schema.len() == 0 {
        Ok(Seq::empty())
    } else {
        match normalize_spec(schema.drop_last(), raw) {
            Err(e) => Err(e),
            Ok(vals) => match resolve_spec(schema.last(), raw) {
                Err(e) => Err(e),
                Ok(v) => Ok(vals.push(v)),
            },
        }
    }
}

proof fn lemma_error_stays(schema: Seq<ParamSpec>, raw: Seq<RawArgument>, k: int)
    requires
        0 <= k <= schema.len(),
        normalize_spec(schema.take(k), raw) is Err,
    ensures
        normalize_spec(schema, raw) == normalize_spec(schema.take(k), raw),
    decreases schema.len(),
{
    if k == schema.len() {
        assert(schema.take(k) =~= schema);
    } else {
        assert(schema.drop_last().take(k) =~= schema.take(k));
        lemma_error_stays(schema.drop_last(), raw, k);
    }
}

/// `v` clamped into the inclusive range `[lo, hi]`.
pub fn clamp(v: u32, range: Option<(u32, u32)>) -> (r: u32)
    ensures
        r == clamp_spec(v, range),
{
    match range {
        Some((lo, hi)) => if v < lo { lo } else if v > hi { hi } else { v },
        None => v,
    }
}

fn find_supplied(raw: &Vec<RawArgument>, name: &String) -> (r: Option<usize>)
    ensures
        match r {
            Some(i) => i < raw@.len() && supplied(raw@, name@) == Some(arg_model(raw@[i as int].value)),
            None => supplied(raw@, name@) is None,
        },
{
    let mut i: usize = 0;
    assert(raw@.skip(0) =~= raw@);
    while i < raw.len()
        invariant
            i <= raw.len(),
            supplied(raw@, name@) == supplied(raw@.skip(i as int), name@),
        decreases raw.len() - i,
    {
        assert(raw@.skip(i as int).skip(1) =~= raw@.skip(i + 1));
        if raw[i].name == *name {
            return Some(i);
        }
        i = i + 1;
    }
    None
}

fn copy_value(v: &ArgValue) -> (r: ArgValue)
    ensures
        arg_model(r) == arg_model(*v),
{
    match v {
        ArgValue::Number(n) => ArgValue::Number(*n),
        ArgValue::Text(t) => ArgValue::Text(t.clone()),
    }
}

/// Resolves one parameter against the raw arguments.
pub fn resolve(p: &ParamSpec, raw: &Vec<RawArgument>) -> (r: Result<ArgValue, ArgError>)
    ensures
        match r {
            Ok(v) => resolve_spec(*p, raw@) == Ok::<ArgModel, ArgErrorModel>(arg_model(v)),
            Err(e) => resolve_spec(*p, raw@) == Err::<ArgModel, ArgErrorModel>(arg_error_model(e)),
        },
{
    match find_supplied(raw, &p.name) {
        Some(i) => match (&p.kind, &raw[i].value) {
            (ParamKind::Number { range, .. }, ArgValue::Number(n)) => Ok(ArgValue::Number(clamp(*n, *range))),
            (ParamKind::Text { .. }, ArgValue::Text(t)) => Ok(ArgValue::Text(t.clone())),
            _ => Err(ArgError::WrongKind(p.name.clone())),
        },
        None => match &p.kind {
            ParamKind::Number { default: Some(d), range } => Ok(ArgValue::Number(clamp(*d, *range))),
            ParamKind::Text { default_text: Some(t) } => Ok(ArgValue::Text(t.clone())),
            _ => Err(ArgError::Missing(p.name.clone())),
        },
    }
}

/// Resolves every parameter of `schema` in order, stopping at the first error.
pub fn normalize(schema: &Vec<ParamSpec>, raw: &Vec<RawArgument>) -> (r: Result<Vec<ArgValue>, ArgError>)
    ensures
        match r {
            Ok(vals) => normalize_spec(schema@, raw@) == Ok::<Seq<ArgModel>, ArgErrorModel>(vals@.map_values(|v: ArgValue| arg_model(v))),
            Err(e) => normalize_spec(schema@, raw@) == Err::<Seq<ArgModel>, ArgErrorModel>(arg_error_model(e)),
        },
{
    let mut out: Vec<ArgValue> = Vec::new();
    let mut i: usize = 0;
    assert(schema@.take(0) =~= Seq::<ParamSpec>::empty());
    assert(out@.map_values(|v: ArgValue| arg_model(v)) =~= Seq::<ArgModel>::empty());
    while i < schema.len()
        invariant
            i <= schema.len(),
            normalize_spec(schema@.take(i as int), raw@) == Ok::<Seq<ArgModel>, ArgErrorModel>(out@.map_values(|v: ArgValue| arg_model(v))),
        decreases schema.len() - i,
    {
        assert(schema@.take(i + 1).drop_last() =~= schema@.take(i as int));
        match resolve(&schema[i], raw) {
            Ok(v) => {
                let ghost before = out@;
                out.push(v);
                assert(out@.map_values(|v: ArgValue| arg_model(v)) =~= before.map_values(|v: ArgValue| arg_model(v)).push(arg_model(v)));
            },
            Err(e) => {
                proof {
                    lemma_error_stays(schema@, raw@, i + 1);
                }
                return Err(e);
            },
        }
        i = i + 1;
    }
    assert(schema@.take(i as int) =~= schema@);
    Ok(out)
}

} // verus!

//! The argument binder: the value of each handler argument, taken from the
//! path, the query string or the request body.

use crate::error::{EmberError, ErrorKind};
use crate::json::{decode_json, json_decoded};
use crate::number::{integer_within, read_integer};
use crate::outcome::{all_or_first_err, lemma_all_ok, lemma_first_err_decides};
use crate::routes::{binding_views, ArgSource, ArgType, ArgumentBinding, BindingView};
use crate::text::{
    chars_of, find_char, first_with_prefix, has_prefix, lemma_position, position, same_chars,
    slice_of, split, split_chars, str_opt_view, string_of, views,
};
use vstd::prelude::*;
use vstd::utf8::encode_utf8;

verus! {

impl ArgType {
    /// Whether the type is an integer type.
    pub open spec fn is_integer(self) -> bool {
        self != ArgType::Text && self != ArgType::Bool
    }

    /// Whether the type is a signed integer type.
    pub open spec fn is_signed(self) -> bool {
        self == ArgType::I8 || self == ArgType::I16 || self == ArgType::I32 || self
            == ArgType::I64
    }

    /// The least value of an integer type.
    pub open spec fn lowest(self) -> int {
        match self {
            ArgType::I8 => -0x80,
            ArgType::I16 => -0x8000,
            ArgType::I32 => -0x8000_0000,
            ArgType::I64 => -0x8000_0000_0000_0000,
            _ => 0,
        }
    }

    /// The greatest value of an integer type.
    pub open spec fn highest(self) -> int {
        match self {
            ArgType::I8 => 0x7f,
            ArgType::I16 => 0x7fff,
            ArgType::I32 => 0x7fff_ffff,
            ArgType::I64 => 0x7fff_ffff_ffff_ffff,
            ArgType::U8 => 0xff,
            ArgType::U16 => 0xffff,
            ArgType::U32 => 0xffff_ffff,
            ArgType::U64 => 0xffff_ffff_ffff_ffff,
            _ => 0,
        }
    }
}

/// The value bound to a handler argument.
#[derive(Debug)]
pub enum ArgValue {
    Text(String),
    Bool(bool),
    /// A value of a signed integer type.
    Int(i64),
    /// A value of an unsigned integer type.
    Uint(u64),
    /// The request body as a JSON document.
    Json(serde_json::Value),
}

/// An [`ArgValue`] with its text as a plain value.
pub enum ArgValueView {
    Text(Seq<char>),
    Bool(bool),
    Int(i64),
    Uint(u64),
    Json(serde_json::Value),
}

impl View for ArgValue {
    type V = ArgValueView;

    open spec fn view(&self) -> ArgValueView {
        match self {
            ArgValue::Text(s) => ArgValueView::Text(s@),
            ArgValue::Bool(b) => ArgValueView::Bool(*b),
            ArgValue::Int(v) => ArgValueView::Int(*v),
            ArgValue::Uint(v) => ArgValueView::Uint(*v),
            ArgValue::Json(doc) => ArgValueView::Json(*doc),
        }
    }
}

/// The values of a list of arguments, as plain values.
pub open spec fn value_views(values: Seq<ArgValue>) -> Seq<ArgValueView> {
    Seq::new(values.len(), |i: int| values[i]@)
}

/// The value of type `ty` that the text `raw` writes. A string is taken as
/// it stands; a boolean is `true` or `false`; an integer is a decimal
/// numeral within the range of its type.
pub open spec fn scalar_of(ty: ArgType, raw: Seq<char>) -> Option<ArgValueView> {
    match ty {
        ArgType::Text => Some(ArgValueView::Text(raw)),
        ArgType::Bool => if raw == "true"@ {
            Some(ArgValueView::Bool(true))
        } else if raw == "false"@ {
            Some(ArgValueView::Bool(false))
        } else {
            None
        },
        _ => match integer_within(raw, ty.is_signed(), ty.lowest(), ty.highest()) {
            Some(v) => Some(
                if ty.is_signed() {
                    ArgValueView::Int(v as i64)
                } else {
                    ArgValueView::Uint(v as u64)
                },
            ),
            None => None,
        },
    }
}

/// Reads `raw` as a value of type `ty`.
pub fn parse_scalar(ty: ArgType, raw: &str) -> (r: Option<ArgValue>)
    ensures
        match r {
            Some(v) => scalar_of(ty, raw@) == Some(v@),
            None => scalar_of(ty, raw@) is None,
        },
{
    let (signed, lo, hi): (bool, i64, u64) = match ty {
        ArgType::Text => {
            return Some(ArgValue::Text(raw.to_owned()));
        },
        ArgType::Bool => {
            let chars = chars_of(raw);
            if same_chars(&chars, &chars_of("true")) {
                return Some(ArgValue::Bool(true));
            } else if same_chars(&chars, &chars_of("false")) {
                return Some(ArgValue::Bool(false));
            } else {
                return None;
            }
        },
        ArgType::I8 => (true, -0x80, 0x7f),
        ArgType::I16 => (true, -0x8000, 0x7fff),
        ArgType::I32 => (true, -0x8000_0000, 0x7fff_ffff),
        ArgType::I64 => (true, -0x8000_0000_0000_0000, 0x7fff_ffff_ffff_ffff),
        ArgType::U8 => (false, 0, 0xff),
        ArgType::U16 => (false, 0, 0xffff),
        ArgType::U32 => (false, 0, 0xffff_ffff),
        ArgType::U64 => (false, 0, 0xffff_ffff_ffff_ffff),
    };
    match read_integer(&chars_of(raw), signed, lo, hi) {
        None => None,
        Some((negative, magnitude)) => {
            if !signed {
                Some(ArgValue::Uint(magnitude))
            } else if !negative {
                Some(ArgValue::Int(magnitude as i64))
            } else if magnitude == 0x8000_0000_0000_0000 {
                Some(ArgValue::Int(i64::MIN))
            } else {
                Some(ArgValue::Int(-(magnitude as i64)))
            }
        },
    }
}

/// The value of a hexadecimal digit given as an ASCII byte.
pub open spec fn hex_value(b: u8) -> Option<u8> {
    if 0x30 <= b <= 0x39 {
        Some((b - 0x30) as u8)
    } else if 0x61 <= b <= 0x66 {
        Some((b - 0x61 + 10) as u8)
    } else if 0x41 <= b <= 0x46 {
        Some((b - 0x41 + 10) as u8)
    } else {
        None
    }
}

/// The value of a hexadecimal digit given as an ASCII byte.
pub fn from_hex(value: u8) -> (r: Option<u8>)
    ensures
        r == hex_value(value),
        r matches Some(v) ==> v < 16,
{
    if 0x30 <= value && value <= 0x39 {
        Some(value - 0x30)
    } else if 0x61 <= value && value <= 0x66 {
        Some(value - 0x61 + 10)
    } else if 0x41 <= value && value <= 0x46 {
        Some(value - 0x41 + 10)
    } else {
        None
    }
}

/// Percent-decoding, byte by byte: `+` stands for a space; `%` and two
/// hexadecimal digits stand for the character with that code; a `%`
/// followed by anything else is dropped together with the (up to two) bytes
/// after it; every other byte stands for the character with its code.
pub open spec fn url_decoded(b: Seq<u8>) -> Seq<char>
    decreases b.len(),
{
    if b.len() == 0 {
        Seq::empty()
    } else if b[0] == 0x2b {
        seq![' '] + url_decoded(b.skip(1))
    } else if b[0] == 0x25 {
        if b.len() < 3 {
            Seq::empty()
        } else {
            match (hex_value(b[1]), hex_value(b[2])) {
                (Some(hi), Some(lo)) => seq![((hi * 16 + lo) as u8) as char] + url_decoded(
                    b.skip(3),
                ),
                _ => url_decoded(b.skip(3)),
            }
        }
    } else {
        seq![b[0] as char] + url_decoded(b.skip(1))
    }
}

/// Percent-decodes the bytes of `value`.
pub fn url_decode(value: &str) -> (out: String)
    ensures
        out@ == url_decoded(encode_utf8(value@)),
{
    let bytes = value.as_bytes();
    let n = bytes.len();
    let mut out: Vec<char> = Vec::new();
    let mut i: usize = 0;
    proof {
        assert(bytes@.skip(0) =~= bytes@);
    }
    while i < n
        invariant
            i <= n,
            n == bytes@.len(),
            out@ + url_decoded(bytes@.skip(i as int)) == url_decoded(bytes@),
        decreases n - i,
    {
        let ghost rest = bytes@.skip(i as int);
        let ghost before = out@;
        let b = bytes[i];
        assert(rest[0] == b);
        if b == 0x2b {
            out.push(' ');
            proof {
                assert(rest.skip(1) =~= bytes@.skip(i + 1));
                assert(before.push(' ') + url_decoded(rest.skip(1)) =~= before + (seq![' ']
                    + url_decoded(rest.skip(1))));
            }
            i += 1;
        } else if b == 0x25 {
            if n - i < 3 {
                proof {
                    assert(url_decoded(rest) =~= Seq::<char>::empty());
                    assert(bytes@.skip(n as int) =~= Seq::<u8>::empty());
                    assert(before + Seq::<char>::empty() =~= before);
                }
                i = n;
            } else {
                let hi = from_hex(bytes[i + 1]);
                let lo = from_hex(bytes[i + 2]);
                proof {
                    assert(rest[1] == bytes@[i + 1]);
                    assert(rest[2] == bytes@[i + 2]);
                    assert(rest.skip(3) =~= bytes@.skip(i + 3));
                }
                match (hi, lo) {
                    (Some(h), Some(l)) => {
                        let c: char = (h * 16 + l) as char;
                        out.push(c);
                        proof {
                            assert(before.push(c) + url_decoded(rest.skip(3)) =~= before + (seq![c]
                                + url_decoded(rest.skip(3))));
                        }
                    },
                    _ => {},
                }
                i += 3;
            }
        } else {
            let c: char = b as char;
            out.push(c);
            proof {
                assert(rest.skip(1) =~= bytes@.skip(i + 1));
                assert(before.push(c) + url_decoded(rest.skip(1)) =~= before + (seq![c]
                    + url_decoded(rest.skip(1))));
            }
            i += 1;
        }
    }
    proof {
        assert(bytes@.skip(n as int) =~= Seq::<u8>::empty());
        assert(out@ + Seq::<char>::empty() =~= out@);
    }
    string_of(&out)
}

/// The value of the parameter `name` in a query string: of the pairs
/// between `&`, the first that starts with `name=` counts; its value is
/// what follows its first `=`, percent-decoded. Without a query string, or
/// without such a pair, there is none.
pub open spec fn query_value(query: Option<Seq<char>>, name: Seq<char>) -> Option<Seq<char>> {
    match query {
        None => None,
        Some(q) => match first_with_prefix(split(q, '&'), name.push('=')) {
            Some(pair) => Some(url_decoded(encode_utf8(pair.skip(position(pair, '=') + 1)))),
            None => None,
        },
    }
}

/// Looks the parameter `name` up in a query string.
pub fn query_param(query: Option<&str>, name: &str) -> (r: Option<String>)
    ensures
        match r {
            Some(v) => query_value(str_opt_view(query), name@) == Some(v@),
            None => query_value(str_opt_view(query), name@) is None,
        },
{
    let q = match query {
        Some(q) => q,
        None => {
            return None;
        },
    };
    let mut target = chars_of(name);
    target.push('=');
    let pairs = split_chars(&chars_of(q), '&');
    let ghost all = split(q@, '&');
    let mut i: usize = 0;
    proof {
        assert(all.skip(0) =~= all);
    }
    while i < pairs.len()
        invariant
            i <= pairs@.len(),
            all == views(pairs@),
            all == split(q@, '&'),
            str_opt_view(query) == Some(q@),
            target@ == name@.push('='),
            first_with_prefix(all.skip(i as int), target@) == first_with_prefix(all, target@),
        decreases pairs@.len() - i,
    {
        let pair = &pairs[i];
        let ghost rest = all.skip(i as int);
        proof {
            assert(rest[0] == pair@);
            assert(rest.drop_first() =~= all.skip(i + 1));
        }
        if has_prefix(pair, &target) {
            let eq = find_char(pair, '=');
            proof {
                lemma_position(pair@, '=');
                if eq == pair@.len() {
                    assert(pair@[name@.len() as int] == target@[name@.len() as int]);
                }
            }
            let value = string_of(&slice_of(pair, eq + 1, pair.len()));
            proof {
                assert(value@ == pair@.skip(eq + 1));
                assert(first_with_prefix(rest, target@) == Some(pair@));
            }
            return Some(url_decode(value.as_str()));
        }
        i += 1;
    }
    proof {
        assert(all.skip(all.len() as int) =~= Seq::<Seq<char>>::empty());
    }
    None
}

/// The value of one argument, or the message of the binding error: a path
/// or query value that does not write a value of the argument's type, a
/// query parameter that is missing where the argument is no string, or a
/// body that is no JSON document.
pub open spec fn bound_value(
    b: BindingView,
    param: Seq<char>,
    query: Option<Seq<char>>,
    body: Seq<u8>,
) -> Result<ArgValueView, Seq<char>> {
    match b.source {
        ArgSource::PathParam => match scalar_of(b.ty, param) {
            Some(v) => Ok(v),
            None => Err("invalid parameter"@),
        },
        ArgSource::QueryParam => match query_value(query, b.name) {
            Some(raw) => match scalar_of(b.ty, raw) {
                Some(v) => Ok(v),
                None => Err("invalid query parameter"@),
            },
            None => if b.ty == ArgType::Text {
                Ok(ArgValueView::Text(Seq::empty()))
            } else {
                Err("missing query parameter"@)
            },
        },
        ArgSource::JsonBody => match json_decoded(body) {
            Ok(doc) => Ok(ArgValueView::Json(doc)),
            Err(text) => Err("invalid JSON: "@ + text),
        },
    }
}

/// The outcome of binding each argument on its own.
pub open spec fn bound_each(
    bindings: Seq<BindingView>,
    param: Seq<char>,
    query: Option<Seq<char>>,
    body: Seq<u8>,
) -> Seq<Result<ArgValueView, Seq<char>>> {
    Seq::new(bindings.len(), |i: int| bound_value(bindings[i], param, query, body))
}

/// The values of all arguments in declaration order, or the message of
/// the first argument that fails.
pub open spec fn bound_values(
    bindings: Seq<BindingView>,
    param: Seq<char>,
    query: Option<Seq<char>>,
    body: Seq<u8>,
) -> Result<Seq<ArgValueView>, Seq<char>> {
    all_or_first_err(bound_each(bindings, param, query, body))
}

/// Binds one argument.
pub fn bind_arg(b: &ArgumentBinding, param: &str, query: Option<&str>, body: &[u8]) -> (r: Result<
    ArgValue,
    EmberError,
>)
    ensures
        match r {
            Ok(v) => bound_value(b@, param@, str_opt_view(query), body@) == Ok::<
                ArgValueView,
                Seq<char>,
            >(v@),
            Err(e) => bound_value(b@, param@, str_opt_view(query), body@) == Err::<
                ArgValueView,
                Seq<char>,
            >(e@) && e.kind() == ErrorKind::Binding,
        },
{
    match b.source {
        ArgSource::PathParam => match parse_scalar(b.ty, param) {
            Some(v) => Ok(v),
            None => Err(EmberError::binding("invalid parameter")),
        },
        ArgSource::QueryParam => match query_param(query, b.name.as_str()) {
            Some(raw) => match parse_scalar(b.ty, raw.as_str()) {
                Some(v) => Ok(v),
                None => Err(EmberError::binding("invalid query parameter")),
            },
            None => if b.ty == ArgType::Text {
                Ok(ArgValue::Text(String::new()))
            } else {
                Err(EmberError::binding("missing query parameter"))
            },
        },
        ArgSource::JsonBody => match decode_json(body) {
            Ok(doc) => Ok(ArgValue::Json(doc)),
            Err(text) => Err(EmberError::binding_with_detail("invalid JSON: ", text.as_str())),
        },
    }
}

/// Binds the arguments of a route, in declaration order. The first
/// argument that fails fails the request, with its message.
pub fn bind_args(
    bindings: &Vec<ArgumentBinding>,
    param: &str,
    query: Option<&str>,
    body: &[u8],
) -> (r: Result<Vec<ArgValue>, EmberError>)
    ensures
        match r {
            Ok(values) => bound_values(
                binding_views(bindings@),
                param@,
                str_opt_view(query),
                body@,
            ) == Ok::<Seq<ArgValueView>, Seq<char>>(value_views(values@)),
            Err(e) => bound_values(binding_views(bindings@), param@, str_opt_view(query), body@)
                == Err::<Seq<ArgValueView>, Seq<char>>(e@) && e.kind() == ErrorKind::Binding,
        },
{
    let ghost each = bound_each(binding_views(bindings@), param@, str_opt_view(query), body@);
    let mut values: Vec<ArgValue> = Vec::new();
    let mut i: usize = 0;
    while i < bindings.len()
        invariant
            i <= bindings@.len(),
            each == bound_each(binding_views(bindings@), param@, str_opt_view(query), body@),
            values@.len() == i,
            forall|j: int| 0 <= j < i ==> (#[trigger] each[j]) is Ok,
            forall|j: int| 0 <= j < i ==> (#[trigger] values@[j])@ == each[j]->Ok_0,
        decreases bindings@.len() - i,
    {
        assert(binding_views(bindings@)[i as int] == bindings@[i as int]@);
        match bind_arg(&bindings[i], param, query, body) {
            Ok(v) => {
                values.push(v);
            },
            Err(e) => {
                proof {
                    lemma_first_err_decides(each, i as int);
                }
                return Err(e);
            },
        }
        i += 1;
    }
    proof {
        lemma_all_ok(each);
        assert(value_views(values@) =~= Seq::new(each.len(), |k: int| each[k]->Ok_0));
    }
    Ok(values)
}

} // verus!

use vstd::prelude::*;
use crate::errors::TxError;
use crate::registry::{Prim, prim_width, VariantDef, TypeDef, Registry};
use crate::scale::{le_val, spec_decode_compact, decode_compact, read_le};

verus! {

/// A decoded value, in mathematical form.
pub enum SpecValue {
    Bool(bool),
    Uint(nat),
    Composite(Seq<SpecValue>),
    Variant { name: Seq<char>, index: u8, values: Seq<SpecValue> },
}

/// A decoded value: a primitive, a field list, or a named variant.
/// Sequences, arrays and tuples all decode to `Composite`.
#[derive(Debug)]
pub enum Value {
    Bool(bool),
    Uint(u128),
    Composite(Vec<Value>),
    Variant { name: String, index: u8, values: Vec<Value> },
}

impl Value {
    /// The mathematical form of the value.
    pub open spec fn deep(self) -> SpecValue
        decreases self, 0nat,
    {
        match self {
            Value::Bool(b) => SpecValue::Bool(b),
            Value::Uint(v) => SpecValue::Uint(v as nat),
            Value::Composite(vs) => SpecValue::Composite(deep_seq(vs@)),
            Value::Variant { name, index, values } => SpecValue::Variant {
                name: name@,
                index,
                values: deep_seq(values@),
            },
        }
    }
}

/// The mathematical form of a list of values.
pub open spec fn deep_seq(vs: Seq<Value>) -> Seq<SpecValue>
    decreases vs, 1nat,
{
    if vs.len() == 0 {
        Seq::empty()
    } else {
        seq![vs[0].deep()] + deep_seq(vs.subrange(1, vs.len() as int))
    }
}

/// The first variant with discriminant `idx` at or after position `i`.
pub open spec fn spec_find_variant(vs: Seq<VariantDef>, i: int, idx: u8) -> Option<int>
    decreases vs.len() - i,
{
    if !(0 <= i < vs.len()) {
        None
    } else if vs[i].index == idx {
        Some(i)
    } else {
        spec_find_variant(vs, i + 1, idx)
    }
}

/// Decoding of a fixed-width primitive at `pos`.
pub open spec fn spec_decode_prim(p: Prim, s: Seq<u8>, pos: int) -> Option<(SpecValue, int)> {
    if pos + prim_width(p) <= s.len() {
        match p {
            Prim::Bool => if s[pos] == 0 {
                Some((SpecValue::Bool(false), pos + 1))
            } else if s[pos] == 1 {
                Some((SpecValue::Bool(true), pos + 1))
            } else {
                None
            },
            _ => Some(
                (SpecValue::Uint(le_val(s.subrange(pos, pos + prim_width(p)))), pos
                    + prim_width(p)),
            ),
        }
    } else {
        None
    }
}

/// Type-driven decoding of the value of type `ty` at `pos`: the registry is
/// consulted for each nested type identifier. `fuel` bounds the nesting
/// depth; `None` stands for any failure (unknown type, exhausted input,
/// non-canonical bool, exhausted fuel).
pub open spec fn spec_decode(reg: Seq<TypeDef>, ty: int, s: Seq<u8>, pos: int, fuel: nat) -> Option<
    (SpecValue, int),
>
    decreases fuel, 0nat, 0nat,
{
    if fuel == 0 || !(0 <= ty < reg.len()) || !(0 <= pos <= s.len()) {
        None
    } else {
        match reg[ty] {
            TypeDef::Primitive { prim } => spec_decode_prim(prim, s, pos),
            TypeDef::Compact => match spec_decode_compact(s, pos) {
                Some((v, end)) => Some((SpecValue::Uint(v), end)),
                None => None,
            },
            TypeDef::Composite { fields } => match spec_decode_fields(
                reg,
                fields@,
                0,
                s,
                pos,
                (fuel - 1) as nat,
            ) {
                Some((vs, end)) => Some((SpecValue::Composite(vs), end)),
                None => None,
            },
            TypeDef::Tuple { fields } => match spec_decode_fields(
                reg,
                fields@,
                0,
                s,
                pos,
                (fuel - 1) as nat,
            ) {
                Some((vs, end)) => Some((SpecValue::Composite(vs), end)),
                None => None,
            },
            TypeDef::Variant { variants } => if pos < s.len() {
                match spec_find_variant(variants@, 0, s[pos]) {
                    Some(k) => match spec_decode_fields(
                        reg,
                        variants@[k].fields@,
                        0,
                        s,
                        pos + 1,
                        (fuel - 1) as nat,
                    ) {
                        Some((vs, end)) => Some(
                            (SpecValue::Variant {
                                name: variants@[k].name@,
                                index: s[pos],
                                values: vs,
                            }, end),
                        ),
                        None => None,
                    },
                    None => None,
                }
            } else {
                None
            },
            TypeDef::Sequence { element } => match spec_decode_compact(s, pos) {
                Some((count, p1)) => match spec_decode_many(
                    reg,
                    element as int,
                    count,
                    s,
                    p1,
                    (fuel - 1) as nat,
                ) {
                    Some((vs, end)) => Some((SpecValue::Composite(vs), end)),
                    None => None,
                },
                None => None,
            },
            TypeDef::Array { len, element } => match spec_decode_many(
                reg,
                element as int,
                len as nat,
                s,
                pos,
                (fuel - 1) as nat,
            ) {
                Some((vs, end)) => Some((SpecValue::Composite(vs), end)),
                None => None,
            },
        }
    }
}

/// Decoding of the field list `tys[i..]`, each field in declared order.
pub open spec fn spec_decode_fields(
    reg: Seq<TypeDef>,
    tys: Seq<u32>,
    i: int,
    s: Seq<u8>,
    pos: int,
    fuel: nat,
) -> Option<(Seq<SpecValue>, int)>
    decreases fuel, 1nat, tys.len() - i,
{
    if !(0 <= i <= tys.len()) {
        None
    } else if i == tys.len() {
        Some((Seq::empty(), pos))
    } else {
        match spec_decode(reg, tys[i] as int, s, pos, fuel) {
            Some((v, p)) => match spec_decode_fields(reg, tys, i + 1, s, p, fuel) {
                Some((vs, end)) => Some((seq![v] + vs, end)),
                None => None,
            },
            None => None,
        }
    }
}

/// Decoding of `count` consecutive values of one element type.
pub open spec fn spec_decode_many(
    reg: Seq<TypeDef>,
    ty: int,
    count: nat,
    s: Seq<u8>,
    pos: int,
    fuel: nat,
) -> Option<(Seq<SpecValue>, int)>
    decreases fuel, 1nat, count,
{
    if count == 0 {
        Some((Seq::empty(), pos))
    } else {
        match spec_decode(reg, ty, s, pos, fuel) {
            Some((v, p)) => match spec_decode_many(reg, ty, (count - 1) as nat, s, p, fuel) {
                Some((vs, end)) => Some((seq![v] + vs, end)),
                None => None,
            },
            None => None,
        }
    }
}

/// Find the variant with discriminant `idx`, scanning from position `i`.
fn find_variant(variants: &Vec<VariantDef>, i: usize, idx: u8) -> (r: Option<usize>)
    requires
        i <= variants@.len(),
    ensures
        match r {
            Some(k) => spec_find_variant(variants@, i as int, idx) == Some(k as int) && i <= k
                < variants@.len(),
            None => spec_find_variant(variants@, i as int, idx) is None,
        },
    decreases variants@.len() - i,
{
    if i >= variants.len() {
        None
    } else if variants[i].index == idx {
        Some(i)
    } else {
        find_variant(variants, i + 1, idx)
    }
}

/// Decode the value of type `ty` at `pos`, consulting the registry for each
/// nested type identifier. Succeeds exactly where `spec_decode` does, and
/// returns that value and end position.
pub fn decode_value(reg: &Registry, ty: u32, s: &[u8], pos: usize, fuel: usize) -> (r: Result<
    (Value, usize),
    TxError,
>)
    requires
        pos <= s@.len(),
    ensures
        match r {
            Ok((v, end)) => spec_decode(reg.types@, ty as int, s@, pos as int, fuel as nat)
                == Some((v.deep(), end as int)) && pos <= end <= s@.len(),
            Err(e) => spec_decode(reg.types@, ty as int, s@, pos as int, fuel as nat) is None && e
                is DecodeError,
        },
    decreases fuel, 0nat, 0nat,
{
    let slen = s.len();
    if fuel == 0 || ty as usize >= reg.types.len() {
        return Err(TxError::DecodeError { type_id: ty });
    }
    match &reg.types[ty as usize] {
        TypeDef::Primitive { prim } => {
            match decode_prim(*prim, s, pos) {
                Some((v, end)) => Ok((v, end)),
                None => Err(TxError::DecodeError { type_id: ty }),
            }
        },
        TypeDef::Compact => {
            match decode_compact(s, pos) {
                Some((v, end)) => Ok((Value::Uint(v), end)),
                None => Err(TxError::DecodeError { type_id: ty }),
            }
        },
        TypeDef::Composite { fields } => {
            match decode_fields(reg, fields, 0, s, pos, fuel - 1) {
                Ok((vs, end)) => {
                    Ok((Value::Composite(vs), end))
                },
                Err(e) => Err(e),
            }
        },
        TypeDef::Tuple { fields } => {
            match decode_fields(reg, fields, 0, s, pos, fuel - 1) {
                Ok((vs, end)) => {
                    Ok((Value::Composite(vs), end))
                },
                Err(e) => Err(e),
            }
        },
        TypeDef::Variant { variants } => {
            if pos < slen {
                let idx = s[pos];
                match find_variant(variants, 0, idx) {
                    Some(k) => {
                        match decode_fields(reg, &variants[k].fields, 0, s, pos + 1, fuel - 1) {
                            Ok((vs, end)) => {
                                let name = variants[k].name.clone();
                                Ok((Value::Variant { name, index: idx, values: vs }, end))
                            },
                            Err(e) => Err(e),
                        }
                    },
                    None => Err(TxError::DecodeError { type_id: ty }),
                }
            } else {
                Err(TxError::DecodeError { type_id: ty })
            }
        },
        TypeDef::Sequence { element } => {
            let element = *element;
            match decode_compact(s, pos) {
                Some((count, p1)) => {
                    match decode_many(reg, element, count, s, p1, fuel - 1) {
                        Ok((vs, end)) => {
                            Ok((Value::Composite(vs), end))
                        },
                        Err(e) => Err(e),
                    }
                },
                None => Err(TxError::DecodeError { type_id: ty }),
            }
        },
        TypeDef::Array { len, element } => {
            match decode_many(reg, *element, *len as u128, s, pos, fuel - 1) {
                Ok((vs, end)) => {
                    Ok((Value::Composite(vs), end))
                },
                Err(e) => Err(e),
            }
        },
    }
}

/// Decode a fixed-width primitive at `pos`.
fn decode_prim(p: Prim, s: &[u8], pos: usize) -> (r: Option<(Value, usize)>)
    requires
        pos <= s@.len(),
    ensures
        match r {
            Some((v, end)) => spec_decode_prim(p, s@, pos as int) == Some((v.deep(), end as int))
                && pos <= end <= s@.len(),
            None => spec_decode_prim(p, s@, pos as int) is None,
        },
{
    let w: usize = match p {
        Prim::Bool => 1,
        Prim::U8 => 1,
        Prim::U16 => 2,
        Prim::U32 => 4,
        Prim::U64 => 8,
        Prim::U128 => 16,
    };
    if s.len() - pos < w {
        return None;
    }
    match p {
        Prim::Bool => {
            let b = s[pos];
            if b == 0 {
                Some((Value::Bool(false), pos + 1))
            } else if b == 1 {
                Some((Value::Bool(true), pos + 1))
            } else {
                None
            }
        },
        _ => {
            let v = read_le(s, pos, w);
            Some((Value::Uint(v), pos + w))
        },
    }
}

/// Decode the fields `tys[i..]` in declared order, starting at `pos`.
fn decode_fields(reg: &Registry, tys: &Vec<u32>, i: usize, s: &[u8], pos: usize, fuel: usize) -> (r:
    Result<(Vec<Value>, usize), TxError>)
    requires
        pos <= s@.len(),
        i <= tys@.len(),
    ensures
        match r {
            Ok((vs, end)) => spec_decode_fields(
                reg.types@,
                tys@,
                i as int,
                s@,
                pos as int,
                fuel as nat,
            ) == Some((deep_seq(vs@), end as int)) && pos <= end <= s@.len(),
            Err(e) => spec_decode_fields(
                reg.types@,
                tys@,
                i as int,
                s@,
                pos as int,
                fuel as nat,
            ) is None && e is DecodeError,
        },
    decreases fuel, 1nat, tys@.len() - i,
{
    if i == tys.len() {
        let vs: Vec<Value> = Vec::new();
        proof {
            assert(deep_seq(vs@) =~= Seq::<SpecValue>::empty());
        }
        Ok((vs, pos))
    } else {
        match decode_value(reg, tys[i], s, pos, fuel) {
            Ok((v, p)) => {
                match decode_fields(reg, tys, i + 1, s, p, fuel) {
                    Ok((vs, end)) => {
                        let mut vs = vs;
                        let ghost pre = vs@;
                        vs.insert(0, v);
                        proof {
                            assert(vs@ =~= seq![v] + pre);
                            assert(vs@.subrange(1, vs@.len() as int) =~= pre);
                            assert(vs@[0] == v);
                            assert(deep_seq(vs@) == seq![vs@[0].deep()] + deep_seq(
                                vs@.subrange(1, vs@.len() as int),
                            ));
                            assert(deep_seq(vs@) =~= seq![v.deep()] + deep_seq(pre));
                        }
                        Ok((vs, end))
                    },
                    Err(e) => Err(e),
                }
            },
            Err(e) => Err(e),
        }
    }
}

/// Decode `count` consecutive values of the element type `ty`.
fn decode_many(reg: &Registry, ty: u32, count: u128, s: &[u8], pos: usize, fuel: usize) -> (r:
    Result<(Vec<Value>, usize), TxError>)
    requires
        pos <= s@.len(),
    ensures
        match r {
            Ok((vs, end)) => spec_decode_many(
                reg.types@,
                ty as int,
                count as nat,
                s@,
                pos as int,
                fuel as nat,
            ) == Some((deep_seq(vs@), end as int)) && pos <= end <= s@.len(),
            Err(e) => spec_decode_many(
                reg.types@,
                ty as int,
                count as nat,
                s@,
                pos as int,
                fuel as nat,
            ) is None && e is DecodeError,
        },
    decreases fuel, 1nat, count,
{
    if count == 0 {
        let vs: Vec<Value> = Vec::new();
        proof {
            assert(deep_seq(vs@) =~= Seq::<SpecValue>::empty());
        }
        Ok((vs, pos))
    } else {
        match decode_value(reg, ty, s, pos, fuel) {
            Ok((v, p)) => {
                match decode_many(reg, ty, count - 1, s, p, fuel) {
                    Ok((vs, end)) => {
                        let mut vs = vs;
                        let ghost pre = vs@;
                        vs.insert(0, v);
                        proof {
                            assert(vs@ =~= seq![v] + pre);
                            assert(vs@.subrange(1, vs@.len() as int) =~= pre);
                            assert(vs@[0] == v);
                            assert(deep_seq(vs@) == seq![vs@[0].deep()] + deep_seq(
                                vs@.subrange(1, vs@.len() as int),
                            ));
                            assert(deep_seq(vs@) =~= seq![v.deep()] + deep_seq(pre));
                        }
                        Ok((vs, end))
                    },
                    Err(e) => Err(e),
                }
            },
            Err(e) => Err(e),
        }
    }
}

/// The structured form of a decoded call: which pallet, which call, and the
/// call's arguments in declared order.
#[derive(Debug)]
pub struct CallEnvelope {
    pub pallet_name: String,
    pub call_name: String,
    pub fields: Vec<Value>,
}

/// Depth budget that suffices for any decode: between two consumed bytes the
/// decoder can pass through at most one definition per registry entry.
pub open spec fn decode_fuel(reg_len: nat, input_len: nat) -> nat {
    (input_len + 1) * (reg_len + 1) + 1
}

/// The envelope the call bytes denote against the outer-call type: the outer
/// variant names the pallet, its single field must be a variant naming the
/// call and carrying the arguments. `None` when the bytes do not decode or
/// the decoded value does not have that two-level shape.
pub open spec fn spec_envelope(reg: Seq<TypeDef>, outer_ty: int, bytes: Seq<u8>) -> Option<
    (Seq<char>, Seq<char>, Seq<SpecValue>),
> {
    match spec_decode(reg, outer_ty, bytes, 0, decode_fuel(reg.len(), bytes.len())) {
        Some((v, end)) => match v {
            SpecValue::Variant { name: pallet, index, values } => if values.len() == 1 {
                match values[0] {
                    SpecValue::Variant { name: call, index: ci, values: flds } => Some(
                        (pallet, call, flds),
                    ),
                    _ => None,
                }
            } else {
                None
            },
            _ => None,
        },
        None => None,
    }
}

/// The mathematical form of a list is as long as the list.
pub proof fn lemma_deep_seq_len(vs: Seq<Value>)
    ensures
        deep_seq(vs).len() == vs.len(),
    decreases vs,
{
    if vs.len() == 0 {
    } else {
        lemma_deep_seq_len(vs.subrange(1, vs.len() as int));
    }
}

/// Decode opaque call bytes against the outer-call type into a structured
/// envelope. Fails with a decode error exactly when the bytes do not decode,
/// and with `MalformedCallShape` exactly when they decode to anything but a
/// variant wrapping a single variant; never a default or empty envelope.
pub fn resolve_call(reg: &Registry, outer_ty: u32, call_bytes: &[u8]) -> (r: Result<
    CallEnvelope,
    TxError,
>)
    requires
        (call_bytes@.len() + 1) * (reg.types@.len() + 1) + 1 <= usize::MAX,
    ensures
        match r {
            Ok(env) => spec_envelope(reg.types@, outer_ty as int, call_bytes@) == Some(
                (env.pallet_name@, env.call_name@, deep_seq(env.fields@)),
            ),
            Err(e) => spec_envelope(reg.types@, outer_ty as int, call_bytes@) is None && (e
                is DecodeError <==> spec_decode(
                reg.types@,
                outer_ty as int,
                call_bytes@,
                0,
                decode_fuel(reg.types@.len(), call_bytes@.len()),
            ) is None) && (e is DecodeError || e == (TxError::MalformedCallShape {
                type_id: outer_ty,
            })),
        },
{
    proof {
        assert((call_bytes@.len() + 1) <= (call_bytes@.len() + 1) * (reg.types@.len() + 1)
            && (reg.types@.len() + 1) <= (call_bytes@.len() + 1) * (reg.types@.len() + 1))
            by (nonlinear_arith)
            requires
                reg.types@.len() >= 0,
                call_bytes@.len() >= 0,
        ;
    }
    let fuel: usize = (call_bytes.len() + 1) * (reg.types.len() + 1) + 1;
    let decoded = match decode_value(reg, outer_ty, call_bytes, 0, fuel) {
        Ok(x) => x,
        Err(e) => {
            return Err(e);
        },
    };
    let (v, _end) = decoded;
    match v {
        Value::Variant { name: pallet_name, index: _, values } => {
            if values.len() == 1 {
                let mut values = values;
                let ghost vals0 = values@;
                let inner = values.remove(0);
                proof {
                    lemma_deep_seq_len(vals0);
                    assert(vals0[0] == inner);
                    assert(deep_seq(vals0) == seq![vals0[0].deep()] + deep_seq(
                        vals0.subrange(1, vals0.len() as int),
                    ));
                    assert(vals0.subrange(1, vals0.len() as int) =~= Seq::<Value>::empty());
                    assert(deep_seq(Seq::<Value>::empty()) =~= Seq::<SpecValue>::empty());
                    assert(deep_seq(vals0) =~= seq![inner.deep()]);
                }
                match inner {
                    Value::Variant { name: call_name, index: _, values: fields } => {
                        Ok(CallEnvelope { pallet_name, call_name, fields })
                    },
                    _ => Err(TxError::MalformedCallShape { type_id: outer_ty }),
                }
            } else {
                proof {
                    lemma_deep_seq_len(values@);
                }
                Err(TxError::MalformedCallShape { type_id: outer_ty })
            }
        },
        _ => Err(TxError::MalformedCallShape { type_id: outer_ty }),
    }
}

} // verus!

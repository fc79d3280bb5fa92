//! Writing a request as a URL path: `/key/value` for each field.
use vstd::prelude::*;
use crate::lexorank::radix_chars;
use crate::lexorank::radix::radix_text;
use crate::text::{push_char, string_of};

verus! {

/// Why a request cannot be written as a path.
#[derive(Debug)]
pub enum SerializationError {
    /// A value of this kind has no path form.
    UnsupportedType { kind: String },
    /// Any other failure, with its message.
    Serde { msg: String },
}

impl SerializationError {
    /// The message that describes the error.
    pub fn to_string(&self) -> (r: String)
        ensures
            self matches SerializationError::UnsupportedType { kind } ==> r@ == kind@ + " can not be path serialized."@,
            self matches SerializationError::Serde { msg } ==> r@ == msg@,
    {
        match self {
            SerializationError::UnsupportedType { kind } => {
                let mut m = kind.clone();
                m.append(" can not be path serialized.");
                m
            },
            SerializationError::Serde { msg } => msg.clone(),
        }
    }
}

/// A value as a request field holds it. A float is kept in the form `f64`
/// displays it; the other variants name the kinds that have no path form.
#[derive(Debug)]
pub enum PathValue {
    Bool(bool),
    Signed(i64),
    Unsigned(u64),
    Float(String),
    Char(char),
    Str(String),
    Bytes,
    Absent,
    Unit,
    UnitStruct,
    UnitVariant,
    NewtypeStruct,
    NewtypeVariant,
    Sequence,
    Tuple,
    TupleStruct,
    TupleVariant,
    Mapping,
    StructVariant,
}

/// The decimal text of an integer.
pub open spec fn int_text(v: int) -> Seq<char> {
    if v < 0 {
        seq!['-'] + radix_text((-v) as nat, 10)
    } else {
        radix_text(v as nat, 10)
    }
}

/// The path form of a value, or the name of its kind when it has none.
pub open spec fn value_path(v: PathValue) -> Result<Seq<char>, Seq<char>> {
    match v {
        PathValue::Bool(b) => Ok(if b { "true"@ } else { "false"@ }),
        PathValue::Signed(n) => Ok(int_text(n as int)),
        PathValue::Unsigned(n) => Ok(int_text(n as int)),
        PathValue::Float(s) => Ok(s@),
        PathValue::Char(c) => Ok(seq![c]),
        PathValue::Str(s) => Ok(s@),
        PathValue::Bytes => Err("bytes"@),
        PathValue::Absent => Err("none"@),
        PathValue::Unit => Err("unit"@),
        PathValue::UnitStruct => Err("unit_struct"@),
        PathValue::UnitVariant => Err("unit_variant"@),
        PathValue::NewtypeStruct => Err("newtype_struct"@),
        PathValue::NewtypeVariant => Err("newtype_variant"@),
        PathValue::Sequence => Err("seq"@),
        PathValue::Tuple => Err("tuple"@),
        PathValue::TupleStruct => Err("tuple_struct"@),
        PathValue::TupleVariant => Err("tuple_variant"@),
        PathValue::Mapping => Err("map"@),
        PathValue::StructVariant => Err("struct_variant"@),
    }
}

/// The path of a struct with the fields `fields`: `/key/value` for each,
/// in order; the kind of the first value without a path form otherwise.
pub open spec fn fields_path(fields: Seq<(String, PathValue)>) -> Result<Seq<char>, Seq<char>>
    decreases fields.len(),
{
    if fields.len() == 0 {
        Ok(Seq::empty())
    } else {
        match fields_path(fields.drop_last()) {
            Err(k) => Err(k),
            Ok(p) => match value_path(fields.last().1) {
                Err(k) => Err(k),
                Ok(v) => Ok(p + seq!['/'] + fields.last().0@ + seq!['/'] + v),
            },
        }
    }
}

/// Writes a request into a path, field by field.
pub struct ForvoRequestSerializer {
    pub output: String,
}

impl ForvoRequestSerializer {
    /// A serializer with nothing written.
    pub fn new() -> (r: Self)
        ensures
            r.output@ == Seq::<char>::empty(),
    {
        ForvoRequestSerializer { output: String::new() }
    }

    /// Writes `true` or `false`.
    pub fn serialize_bool(&mut self, v: bool)
        ensures
            final(self).output@ == old(self).output@ + (if v { "true"@ } else { "false"@ }),
    {
        self.output.append(if v { "true" } else { "false" });
    }

    /// Writes a signed integer in decimal.
    pub fn serialize_i64(&mut self, v: i64)
        ensures
            final(self).output@ == old(self).output@ + int_text(v as int),
    {
        let magnitude: u64 = if v < 0 {
            let w: i128 = v as i128;
            (0 - w) as u64
        } else {
            v as u64
        };
        if v < 0 {
            push_char(&mut self.output, '-');
        }
        let digits = radix_chars(magnitude, 10);
        let text = string_of(&digits);
        self.output.append(text.as_str());
    }

    /// Writes an unsigned integer in decimal.
    pub fn serialize_u64(&mut self, v: u64)
        ensures
            final(self).output@ == old(self).output@ + int_text(v as int),
    {
        let digits = radix_chars(v, 10);
        let text = string_of(&digits);
        self.output.append(text.as_str());
    }

    /// Writes a string as it is.
    pub fn serialize_str(&mut self, v: &str)
        ensures
            final(self).output@ == old(self).output@ + v@,
    {
        self.output.append(v);
    }

    /// Writes a value; the kind of a value without a path form is the error.
    pub fn serialize_value(&mut self, v: &PathValue) -> (r: Result<(), SerializationError>)
        ensures
            value_path(*v) matches Ok(t) ==> r is Ok && final(self).output@ == old(self).output@ + t,
            value_path(*v) matches Err(k) ==> (r matches Err(SerializationError::UnsupportedType { kind }) && kind@ == k),
    {
        proof {
            reveal_strlit("true");
            reveal_strlit("false");
        }
        match v {
            PathValue::Bool(b) => {
                self.serialize_bool(*b);
                Ok(())
            },
            PathValue::Signed(n) => {
                self.serialize_i64(*n);
                Ok(())
            },
            PathValue::Unsigned(n) => {
                self.serialize_u64(*n);
                Ok(())
            },
            PathValue::Float(s) => {
                self.serialize_str(s.as_str());
                Ok(())
            },
            PathValue::Char(c) => {
                push_char(&mut self.output, *c);
                Ok(())
            },
            PathValue::Str(s) => {
                self.serialize_str(s.as_str());
                Ok(())
            },
            PathValue::Bytes => Err(SerializationError::UnsupportedType { kind: "bytes".to_owned() }),
            PathValue::Absent => Err(SerializationError::UnsupportedType { kind: "none".to_owned() }),
            PathValue::Unit => Err(SerializationError::UnsupportedType { kind: "unit".to_owned() }),
            PathValue::UnitStruct => Err(SerializationError::UnsupportedType { kind: "unit_struct".to_owned() }),
            PathValue::UnitVariant => Err(SerializationError::UnsupportedType { kind: "unit_variant".to_owned() }),
            PathValue::NewtypeStruct => Err(SerializationError::UnsupportedType { kind: "newtype_struct".to_owned() }),
            PathValue::NewtypeVariant => Err(SerializationError::UnsupportedType { kind: "newtype_variant".to_owned() }),
            PathValue::Sequence => Err(SerializationError::UnsupportedType { kind: "seq".to_owned() }),
            PathValue::Tuple => Err(SerializationError::UnsupportedType { kind: "tuple".to_owned() }),
            PathValue::TupleStruct => Err(SerializationError::UnsupportedType { kind: "tuple_struct".to_owned() }),
            PathValue::TupleVariant => Err(SerializationError::UnsupportedType { kind: "tuple_variant".to_owned() }),
            PathValue::Mapping => Err(SerializationError::UnsupportedType { kind: "map".to_owned() }),
            PathValue::StructVariant => Err(SerializationError::UnsupportedType { kind: "struct_variant".to_owned() }),
        }
    }

    /// Writes one field of a struct: `/key/value`.
    pub fn serialize_field(&mut self, key: &str, value: &PathValue) -> (r: Result<(), SerializationError>)
        ensures
            value_path(*value) matches Ok(t) ==> r is Ok && final(self).output@ == old(self).output@ + seq!['/'] + key@ + seq!['/'] + t,
            value_path(*value) matches Err(k) ==> (r matches Err(SerializationError::UnsupportedType { kind }) && kind@ == k),
    {
        push_char(&mut self.output, '/');
        self.serialize_str(key);
        push_char(&mut self.output, '/');
        self.serialize_value(value)
    }
}

/// The path of a struct with the fields `fields`; see `fields_path`.
pub fn to_path(fields: &Vec<(String, PathValue)>) -> (r: Result<String, SerializationError>)
    ensures
        fields_path(fields@) matches Ok(p) ==> (r matches Ok(s) && s@ == p),
        fields_path(fields@) matches Err(k) ==> (r matches Err(SerializationError::UnsupportedType { kind }) && kind@ == k),
{
    let mut serializer = ForvoRequestSerializer::new();
    let mut i: usize = 0;
    proof {
        assert(fields@.take(0) =~= Seq::<(String, PathValue)>::empty());
    }
    while i < fields.len()
        invariant
            i <= fields@.len(),
            fields_path(fields@.take(i as int)) == Ok::<Seq<char>, Seq<char>>(serializer.output@),
        decreases fields.len() - i,
    {
        let ghost k = i as int;
        proof {
            assert(fields@.take(k + 1).drop_last() =~= fields@.take(k));
            assert(fields@.take(k + 1).last() == fields@[k]);
        }
        match serializer.serialize_field(fields[i].0.as_str(), &fields[i].1) {
            Err(e) => {
                proof {
                    lemma_fields_path_err(fields@, k + 1);
                }
                return Err(e);
            },
            Ok(()) => {},
        }
        i = i + 1;
    }
    proof {
        assert(fields@.take(i as int) =~= fields@);
    }
    Ok(serializer.output)
}

/// The first field without a path form decides the error of the whole.
pub proof fn lemma_fields_path_err(fields: Seq<(String, PathValue)>, k: int)
    requires
        0 < k <= fields.len(),
        fields_path(fields.take(k - 1)) is Ok,
        value_path(fields[k - 1].1) is Err,
    ensures
        fields_path(fields) == Err::<Seq<char>, Seq<char>>(value_path(fields[k - 1].1)->Err_0),
    decreases fields.len() - k,
{
    assert(fields.take(k).drop_last() =~= fields.take(k - 1));
    assert(fields.take(k).last() == fields[k - 1]);
    lemma_fields_path_prefix_err(fields, k);
}

/// Once a prefix of the fields fails, the whole fails the same way.
pub proof fn lemma_fields_path_prefix_err(fields: Seq<(String, PathValue)>, k: int)
    requires
        0 <= k <= fields.len(),
        fields_path(fields.take(k)) is Err,
    ensures
        fields_path(fields) == fields_path(fields.take(k)),
    decreases fields.len() - k,
{
    if k < fields.len() {
        assert(fields.take(k + 1).drop_last() =~= fields.take(k));
        lemma_fields_path_prefix_err(fields, k + 1);
    } else {
        assert(fields.take(k) =~= fields);
    }
}

} // verus!

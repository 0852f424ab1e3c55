//! From the messages of a model file to tensors, attributes and operators.

use vstd::prelude::*;
use vstd::slice::slice_to_vec;
use crate::error::{LoadError, LoadErrorView};
use crate::model::attribute::{parts_of, AttType, Attribute, Value};
use crate::model::data::DataView;
use crate::model::element::{encode_seq, encode_slice};
use crate::model::operator::{tensor_views, Operator, OperatorView};
use crate::model::table::Table;
use crate::model::tensor::{DType, Format, Tensor, TensorView, Type};
use crate::pb::{
    AttributeProto, DataLocation, Dimension, DimensionValue, NodeProto, StringStringEntryProto,
    TensorProto, TensorTypeProto, TypeValue, ValueInfoProto,
};
use crate::text::{decimal, decimal_text};

verus! {

/// The kind of attribute that the code of a message stands for, if any.
pub open spec fn attribute_kind(code: i32) -> Option<AttType> {
    if code < 0 {
        None
    } else {
        AttType::of_code(code as u32)
    }
}

/// The element type that the code of a message stands for, if any.
pub open spec fn element_type(code: i32) -> Option<DType> {
    if code < 0 {
        None
    } else {
        DType::of_code(code as u32)
    }
}

/// What the attribute of a message holds: the field that its kind names. None
/// where the kind is not one of the six that hold numbers or text.
pub open spec fn attr_value(a: AttributeProto) -> Option<Value> {
    match attribute_kind(a.kind) {
        Some(AttType::Floats) => Some(Value::Floats(a.floats@)),
        Some(AttType::Ints) => Some(Value::Ints(a.ints@)),
        Some(AttType::Strings) => Some(Value::Strings(parts_of(a.strings@))),
        Some(AttType::String) => Some(Value::String(a.s@)),
        Some(AttType::Float) => Some(Value::Float(a.f)),
        Some(AttType::Int) => Some(Value::Int(a.i)),
        _ => None,
    }
}

/// The sizes that a declared shape gives as numbers, cut to 32 bits. A
/// dimension whose size is only named has no place in the result.
pub open spec fn dim_sizes(dims: Seq<Dimension>) -> Seq<u32>
    decreases dims.len(),
{
    if dims.len() == 0 {
        Seq::empty()
    } else {
        let head = dim_sizes(dims.drop_last());
        match dims.last().value {
            Some(DimensionValue::DimValue(size)) => head.push(size as u32),
            _ => head,
        }
    }
}

/// The tensor type that a value is declared with, if it is declared with one.
pub open spec fn declared_type(v: ValueInfoProto) -> Option<TensorTypeProto> {
    match v.value_type {
        Some(t) => match t.value {
            Some(TypeValue::TensorType(tt)) => Some(tt),
            None => None,
        },
        None => None,
    }
}

/// The sizes that a tensor type declares; none where it declares no shape.
pub open spec fn declared_dims(tt: TensorTypeProto) -> Seq<u32> {
    match tt.shape {
        Some(shape) => dim_sizes(shape.dim@),
        None => Seq::empty(),
    }
}

/// An edge of the graph: a tensor that has a name, a shape and an element
/// type, and no data.
pub open spec fn variable(name: Seq<char>, shape: Seq<u32>, dtype: DType) -> TensorView {
    TensorView {
        name,
        shape,
        format: Format::NCHW,
        dtype,
        kind: Type::Variable,
        data: DataView::empty(),
    }
}

/// Data of the model: a tensor that owns `bytes`.
pub open spec fn constant(
    name: Seq<char>,
    shape: Seq<u32>,
    dtype: DType,
    bytes: Seq<u8>,
) -> TensorView {
    TensorView {
        name,
        shape,
        format: Format::NCHW,
        dtype,
        kind: Type::Constant,
        data: DataView::owned(bytes),
    }
}

/// The tensor that a declaration of a value stands for. Without a declared
/// type it has no shape and an undefined element type.
pub open spec fn value_info_tensor(v: ValueInfoProto) -> Result<TensorView, LoadErrorView> {
    match declared_type(v) {
        None => Ok(variable(v.name@, Seq::empty(), DType::Undefined)),
        Some(tt) => match element_type(tt.elem_type) {
            None => Err(LoadErrorView::UnsupportedDType { tensor: v.name@, code: tt.elem_type }),
            Some(dtype) => if declared_dims(tt).len() > 8 {
                Err(
                    LoadErrorView::TooManyDimensions {
                        tensor: v.name@,
                        rank: declared_dims(tt).len() as usize,
                    },
                )
            } else {
                Ok(variable(v.name@, declared_dims(tt), dtype))
            },
        },
    }
}

/// The shape of an initializer: its sizes cut to 32 bits, and one dimension
/// of size 1 for a scalar.
pub open spec fn tensor_dims(dims: Seq<i64>) -> Seq<u32> {
    if dims.len() == 0 {
        seq![1u32]
    } else {
        Seq::new(dims.len(), |i: int| dims[i] as u32)
    }
}

/// Whether the message says that the data of the tensor is in files beside
/// the model file.
pub open spec fn is_external(t: TensorProto) -> bool {
    t.data_location == Some(DataLocation::External.code())
}

/// The path of the file that an entry of external data names, for a model
/// file in `dir`.
pub open spec fn external_path(dir: Seq<char>, entry: StringStringEntryProto) -> Seq<char> {
    dir + "/"@ + entry.value@
}

/// The bytes of the files that `entries` name, one file after the other in
/// the order of the entries. Where `files` lacks one, the first that it
/// lacks is reported.
pub open spec fn external_bytes(
    dir: Seq<char>,
    entries: Seq<StringStringEntryProto>,
    files: Map<Seq<char>, Vec<u8>>,
) -> Result<Seq<u8>, LoadErrorView>
    decreases entries.len(),
{
    if entries.len() == 0 {
        Ok(Seq::empty())
    } else {
        match external_bytes(dir, entries.drop_last(), files) {
            Err(e) => Err(e),
            Ok(bytes) => {
                let path = external_path(dir, entries.last());
                if files.contains_key(path) {
                    Ok(bytes + files[path]@)
                } else {
                    Err(LoadErrorView::FileNotFound { path })
                }
            },
        }
    }
}

/// The bytes of the typed field that holds the elements of the type `dtype`:
/// 32-bit words for both widths of float that have one, and the two widths of
/// integer. None for the other types, which have no field that is read.
pub open spec fn typed_bytes(t: TensorProto, dtype: DType) -> Option<Seq<u8>> {
    match dtype {
        DType::Float16 | DType::Float32 => Some(encode_seq(t.float_data@)),
        DType::Int64 => Some(encode_seq(t.int64_data@)),
        DType::Int32 => Some(encode_seq(t.int32_data@)),
        _ => None,
    }
}

/// The data of an initializer. Raw bytes come first; then files beside the
/// model file, if the message names any; then the typed field.
pub open spec fn tensor_data(
    t: TensorProto,
    dtype: DType,
    dir: Option<Seq<char>>,
    files: Map<Seq<char>, Vec<u8>>,
) -> Result<Seq<u8>, LoadErrorView> {
    if t.raw_data@.len() > 0 {
        Ok(t.raw_data@)
    } else if is_external(t) {
        match dir {
            Some(dir) => external_bytes(dir, t.external_data@, files),
            None => Err(LoadErrorView::MissingExternalDataContext { tensor: t.name@ }),
        }
    } else {
        match typed_bytes(t, dtype) {
            Some(bytes) => Ok(bytes),
            None => Err(LoadErrorView::UnsupportedDType { tensor: t.name@, code: t.data_type }),
        }
    }
}

/// The tensor that an initializer stands for.
pub open spec fn initializer_tensor(
    t: TensorProto,
    dir: Option<Seq<char>>,
    files: Map<Seq<char>, Vec<u8>>,
) -> Result<TensorView, LoadErrorView> {
    match element_type(t.data_type) {
        None => Err(LoadErrorView::UnsupportedDType { tensor: t.name@, code: t.data_type }),
        Some(dtype) => if t.dims@.len() > 8 {
            Err(LoadErrorView::TooManyDimensions { tensor: t.name@, rank: t.dims@.len() as usize })
        } else {
            match tensor_data(t, dtype, dir, files) {
                Err(e) => Err(e),
                Ok(bytes) => Ok(constant(t.name@, tensor_dims(t.dims@), dtype, bytes)),
            }
        },
    }
}

/// What `dir` is as a value of contracts.
pub open spec fn dir_view(dir: Option<&str>) -> Option<Seq<char>> {
    match dir {
        Some(d) => Some(d@),
        None => None,
    }
}

/// The element type for the code of a message.
fn dtype_of(code: i32) -> (r: Option<DType>)
    ensures
        r == element_type(code),
{
    if code < 0 {
        None
    } else {
        DType::try_from_code(code as u32)
    }
}

/// A copy of a list of byte strings.
fn copy_parts(v: &Vec<Vec<u8>>) -> (r: Vec<Vec<u8>>)
    ensures
        parts_of(r@) == parts_of(v@),
{
    let n = v.len();
    let mut out: Vec<Vec<u8>> = Vec::new();
    let mut i: usize = 0;
    while i < n
        invariant
            n == v@.len(),
            i <= n,
            out@.len() == i,
            forall|j: int| 0 <= j < i ==> (#[trigger] out@[j])@ == v@[j]@,
        decreases n - i,
    {
        out.push(slice_to_vec(v[i].as_slice()));
        i = i + 1;
    }
    assert(parts_of(out@) =~= parts_of(v@));
    out
}

/// The sizes of a declared shape.
fn sizes_of(dims: &Vec<Dimension>) -> (r: Vec<u32>)
    ensures
        r@ == dim_sizes(dims@),
{
    let n = dims.len();
    let mut out: Vec<u32> = Vec::new();
    let mut i: usize = 0;
    while i < n
        invariant
            n == dims@.len(),
            i <= n,
            out@ == dim_sizes(dims@.take(i as int)),
        decreases n - i,
    {
        proof {
            assert(dims@.take(i + 1).drop_last() =~= dims@.take(i as int));
        }
        match &dims[i].value {
            Some(DimensionValue::DimValue(size)) => {
                out.push(#[verifier::truncate] (*size as u32));
            },
            _ => {},
        }
        i = i + 1;
    }
    assert(dims@.take(n as int) =~= dims@);
    out
}

/// The attribute that a message holds. Fails with `UnsupportedAttributeType`
/// where its kind is none of the six that hold numbers or text.
pub fn trans_attr(a: &AttributeProto) -> (r: Result<Attribute, LoadError>)
    ensures
        match attr_value(*a) {
            Some(value) => r matches Ok(attr) && attr@ == value && attr.stored() == value.bytes(),
            None => r matches Err(e) && e@ == (LoadErrorView::UnsupportedAttributeType {
                attribute: a.name@,
                code: a.kind,
            }),
        },
{
    let kind = if a.kind < 0 {
        None
    } else {
        AttType::try_from_code(a.kind as u32)
    };
    match kind {
        Some(AttType::Floats) => Ok(Attribute::from_floats(a.floats.as_slice())),
        Some(AttType::Ints) => Ok(Attribute::from_ints(a.ints.as_slice())),
        Some(AttType::Strings) => Ok(Attribute::from_vec_u8_as_strings(copy_parts(&a.strings))),
        Some(AttType::String) => Ok(
            Attribute::from_vec_u8_as_string(slice_to_vec(a.s.as_slice())),
        ),
        Some(AttType::Float) => Ok(Attribute::from_float(a.f)),
        Some(AttType::Int) => Ok(Attribute::from_int(a.i)),
        _ => Err(LoadError::UnsupportedAttributeType { attribute: a.name.clone(), code: a.kind }),
    }
}

/// The tensor that the declaration of a value stands for: an edge of the
/// graph, without data. Fails where the declared element type is unknown or
/// the declared shape has more than 8 sizes.
pub fn trans_valueinfo(v: &ValueInfoProto) -> (r: Result<Tensor, LoadError>)
    ensures
        match value_info_tensor(*v) {
            Ok(tensor) => r matches Ok(t) && t@ == tensor,
            Err(error) => r matches Err(e) && e@ == error,
        },
{
    let mut dims: Vec<u32> = Vec::new();
    let mut dtype = DType::Undefined;
    if let Some(t) = &v.value_type {
        if let Some(value) = &t.value {
            let TypeValue::TensorType(tt) = value;
            match dtype_of(tt.elem_type) {
                Some(d) => {
                    dtype = d;
                },
                None => {
                    return Err(
                        LoadError::UnsupportedDType { tensor: v.name.clone(), code: tt.elem_type },
                    );
                },
            }
            if let Some(shape) = &tt.shape {
                dims = sizes_of(&shape.dim);
            }
        }
    }
    if dims.len() > 8 {
        return Err(LoadError::TooManyDimensions { tensor: v.name.clone(), rank: dims.len() });
    }
    Ok(
        Tensor::new_with_shape(
            v.name.as_str(),
            dims.as_slice(),
            Format::default(),
            dtype,
            Type::Variable,
        ),
    )
}

/// The sizes of an initializer.
fn dims_of(dims: &Vec<i64>) -> (r: Vec<u32>)
    ensures
        r@ == tensor_dims(dims@),
{
    let n = dims.len();
    let mut out: Vec<u32> = Vec::new();
    if n == 0 {
        out.push(1);
        assert(out@ =~= tensor_dims(dims@));
        return out;
    }
    let mut i: usize = 0;
    while i < n
        invariant
            n == dims@.len(),
            i <= n,
            out@.len() == i,
            forall|j: int| 0 <= j < i ==> out@[j] == dims@[j] as u32,
        decreases n - i,
    {
        out.push(#[verifier::truncate] (dims[i] as u32));
        i = i + 1;
    }
    assert(out@ =~= tensor_dims(dims@));
    out
}

/// The bytes of the files that `entries` name, read from `files`.
fn read_external(
    dir: &str,
    entries: &Vec<StringStringEntryProto>,
    files: &Table<Vec<u8>>,
) -> (r: Result<Vec<u8>, LoadError>)
    ensures
        match external_bytes(dir@, entries@, files@) {
            Ok(bytes) => r matches Ok(b) && b@ == bytes,
            Err(error) => r matches Err(e) && e@ == error,
        },
{
    let n = entries.len();
    let mut data: Vec<u8> = Vec::new();
    let mut i: usize = 0;
    while i < n
        invariant
            n == entries@.len(),
            i <= n,
            external_bytes(dir@, entries@.take(i as int), files@) == Ok::<Seq<u8>, LoadErrorView>(
                data@,
            ),
        decreases n - i,
    {
        proof {
            assert(entries@.take(i + 1).drop_last() =~= entries@.take(i as int));
            assert(entries@.take(i + 1).last() == entries@[i as int]);
        }
        let path = String::from_str(dir).concat("/").concat(entries[i].value.as_str());
        assert(path@ == external_path(dir@, entries@[i as int]));
        match files.get(path.as_str()) {
            Some(bytes) => {
                let ghost before = data@;
                data.extend_from_slice(bytes.as_slice());
                assert(data@ == before + files@[path@]@);
                assert(files@.contains_key(external_path(dir@, entries@.take(i + 1).last())));
                assert(external_bytes(dir@, entries@.take(i + 1).drop_last(), files@) == Ok::<
                    Seq<u8>,
                    LoadErrorView,
                >(before));
            },
            None => {
                proof {
                    lemma_external_bytes_fails(dir@, entries@, files@, i + 1);
                }
                return Err(LoadError::FileNotFound { path });
            },
        }
        i = i + 1;
    }
    assert(entries@.take(n as int) =~= entries@);
    Ok(data)
}

/// Where the files for the first `k` entries cannot all be had, those for all
/// entries fail in the same way.
pub proof fn lemma_external_bytes_fails(
    dir: Seq<char>,
    entries: Seq<StringStringEntryProto>,
    files: Map<Seq<char>, Vec<u8>>,
    k: int,
)
    requires
        0 <= k <= entries.len(),
        external_bytes(dir, entries.take(k), files) is Err,
    ensures
        external_bytes(dir, entries, files) == external_bytes(dir, entries.take(k), files),
    decreases entries.len() - k,
{
    if k < entries.len() {
        assert(entries.take(k + 1).drop_last() =~= entries.take(k));
        lemma_external_bytes_fails(dir, entries, files, k + 1);
    } else {
        assert(entries.take(k) =~= entries);
    }
}

/// The tensor that an initializer stands for: data of the model, with the
/// bytes that the message holds or names. `dir` is the directory of the model
/// file, and `files` holds what the files beside it contain, by path.
///
/// Raw bytes come first. Then, where the message says that the data is
/// external, the files that it names, one after the other: that needs `dir`,
/// and each file in `files`. Then the typed field of the element type.
pub fn trans_tensor(t: &TensorProto, dir: Option<&str>, files: &Table<Vec<u8>>) -> (r: Result<
    Tensor,
    LoadError,
>)
    ensures
        match initializer_tensor(*t, dir_view(dir), files@) {
            Ok(tensor) => r matches Ok(x) && x@ == tensor,
            Err(error) => r matches Err(e) && e@ == error,
        },
{
    let dtype = match dtype_of(t.data_type) {
        Some(d) => d,
        None => {
            return Err(LoadError::UnsupportedDType { tensor: t.name.clone(), code: t.data_type });
        },
    };
    if t.dims.len() > 8 {
        return Err(LoadError::TooManyDimensions { tensor: t.name.clone(), rank: t.dims.len() });
    }
    let shape = dims_of(&t.dims);
    let mut tensor = Tensor::new_with_shape(
        t.name.as_str(),
        shape.as_slice(),
        Format::default(),
        dtype,
        Type::Constant,
    );
    let external = match t.data_location {
        Some(code) => code == DataLocation::External.get_code(),
        None => false,
    };
    if t.raw_data.len() > 0 {
        tensor.set_vec_u8(slice_to_vec(t.raw_data.as_slice()), dtype);
    } else if external {
        match dir {
            Some(d) => {
                let data = read_external(d, &t.external_data, files)?;
                tensor.set_vec_u8(data, dtype);
            },
            None => {
                return Err(LoadError::MissingExternalDataContext { tensor: t.name.clone() });
            },
        }
    } else {
        let data = match dtype {
            DType::Float16 | DType::Float32 => encode_slice(t.float_data.as_slice()),
            DType::Int64 => encode_slice(t.int64_data.as_slice()),
            DType::Int32 => encode_slice(t.int32_data.as_slice()),
            _ => {
                return Err(
                    LoadError::UnsupportedDType { tensor: t.name.clone(), code: t.data_type },
                );
            },
        };
        tensor.set_vec_u8(data, dtype);
    }
    Ok(tensor)
}

/// The names that a list of strings holds.
pub open spec fn names_of(v: Seq<String>) -> Seq<Seq<char>> {
    Seq::new(v.len(), |i: int| v[i]@)
}

/// The initializers that are left once each of `names` has had its own: an
/// initializer goes to one input, and is gone for those that come later.
pub open spec fn drained(
    inits: Map<Seq<char>, TensorView>,
    names: Seq<Seq<char>>,
) -> Map<Seq<char>, TensorView> {
    inits.remove_keys(names.to_set())
}

/// The tensor for the `i`-th of the inputs `names`: the initializer of that
/// name, unless one of the inputs before it had it; else the declared value
/// of that name; else none.
pub open spec fn input_source(
    names: Seq<Seq<char>>,
    i: int,
    inits: Map<Seq<char>, TensorView>,
    infos: Map<Seq<char>, TensorView>,
) -> Option<TensorView> {
    let left = drained(inits, names.take(i));
    if left.contains_key(names[i]) {
        Some(left[names[i]])
    } else if infos.contains_key(names[i]) {
        Some(infos[names[i]])
    } else {
        None
    }
}

/// `op` with the inputs from the `i`-th on, each under its place written in
/// decimal. Fails at the first input that has no tensor.
pub open spec fn scan_inputs(
    op: OperatorView,
    names: Seq<Seq<char>>,
    i: int,
    inits: Map<Seq<char>, TensorView>,
    infos: Map<Seq<char>, TensorView>,
) -> Result<OperatorView, LoadErrorView>
    decreases names.len() - i,
{
    if i < 0 || i >= names.len() {
        Ok(op)
    } else {
        match input_source(names, i, inits, infos) {
            None => Err(LoadErrorView::UnresolvedInput { operator: op.name, tensor: names[i] }),
            Some(t) => scan_inputs(
                op.with_input(decimal(i as nat), t),
                names,
                i + 1,
                inits,
                infos,
            ),
        }
    }
}

/// The place of the first input from the `i`-th on that has no tensor; the
/// number of inputs where each has one.
pub open spec fn inputs_resolved(
    names: Seq<Seq<char>>,
    i: int,
    inits: Map<Seq<char>, TensorView>,
    infos: Map<Seq<char>, TensorView>,
) -> int
    decreases names.len() - i,
{
    if i < 0 || i >= names.len() {
        names.len() as int
    } else if input_source(names, i, inits, infos) is None {
        i
    } else {
        inputs_resolved(names, i + 1, inits, infos)
    }
}

/// `op` with the outputs from the `i`-th on, each under its place written in
/// decimal. Fails at the first output that is not a declared value.
pub open spec fn scan_outputs(
    op: OperatorView,
    names: Seq<Seq<char>>,
    i: int,
    infos: Map<Seq<char>, TensorView>,
) -> Result<OperatorView, LoadErrorView>
    decreases names.len() - i,
{
    if i < 0 || i >= names.len() {
        Ok(op)
    } else if infos.contains_key(names[i]) {
        scan_outputs(op.with_output(decimal(i as nat), infos[names[i]]), names, i + 1, infos)
    } else {
        Err(LoadErrorView::UnresolvedOutput { operator: op.name, tensor: names[i] })
    }
}

/// `op` with the attributes from the `i`-th on, each under its name. Fails at
/// the first attribute whose kind cannot be read.
pub open spec fn scan_attributes(
    op: OperatorView,
    attrs: Seq<AttributeProto>,
    i: int,
) -> Result<OperatorView, LoadErrorView>
    decreases attrs.len() - i,
{
    if i < 0 || i >= attrs.len() {
        Ok(op)
    } else {
        match attr_value(attrs[i]) {
            Some(value) => scan_attributes(
                op.with_attribute(attrs[i].name@, value),
                attrs,
                i + 1,
            ),
            None => Err(
                LoadErrorView::UnsupportedAttributeType {
                    attribute: attrs[i].name@,
                    code: attrs[i].kind,
                },
            ),
        }
    }
}

/// The operator called `name` that a node stands for, given the initializers
/// that are still to be had and the declared values: its inputs, then its
/// outputs, then its attributes. Fails at the first of these that cannot be
/// had.
pub open spec fn op_built(
    name: Seq<char>,
    node: NodeProto,
    inits: Map<Seq<char>, TensorView>,
    infos: Map<Seq<char>, TensorView>,
) -> Result<OperatorView, LoadErrorView> {
    match scan_inputs(
        OperatorView::bare(name, node.op_type@),
        names_of(node.input@),
        0,
        inits,
        infos,
    ) {
        Err(e) => Err(e),
        Ok(op) => match scan_outputs(op, names_of(node.output@), 0, infos) {
            Err(e) => Err(e),
            Ok(op) => scan_attributes(op, node.attribute@, 0),
        },
    }
}

/// The initializers that are left once the operator of a node is built: all
/// but those that went to its inputs, up to the first input that had no
/// tensor.
pub open spec fn inits_left(
    node: NodeProto,
    inits: Map<Seq<char>, TensorView>,
    infos: Map<Seq<char>, TensorView>,
) -> Map<Seq<char>, TensorView> {
    let names = names_of(node.input@);
    drained(inits, names.take(inputs_resolved(names, 0, inits, infos)))
}

/// Taking one more name out of the initializers that are left.
pub proof fn lemma_drained_step(inits: Map<Seq<char>, TensorView>, names: Seq<Seq<char>>, i: int)
    requires
        0 <= i < names.len(),
    ensures
        drained(inits, names.take(i + 1)) == drained(inits, names.take(i)).remove(names[i]),
{
    let a = names.take(i);
    let b = names.take(i + 1);
    assert(b =~= a.push(names[i]));
    assert forall|k: Seq<char>| b.to_set().contains(k) == a.to_set().insert(names[i]).contains(
        k,
    ) by {
        if b.contains(k) {
            let at = b.index_of(k);
            if at < i {
                assert(a[at] == k);
            }
        }
        if a.contains(k) {
            let at = a.index_of(k);
            assert(b[at] == k);
        }
        if k == names[i] {
            assert(b[i] == k);
        }
    }
    assert(b.to_set() =~= a.to_set().insert(names[i]));
    assert(drained(inits, b) =~= drained(inits, a).remove(names[i]));
}

/// The operator called `name` that the node stands for. Each input takes the
/// initializer of its name out of `initializers`, or else gets a copy of the
/// declared value of its name; each output gets a copy of the declared value
/// of its name. Inputs and outputs stand under their place, written in
/// decimal; attributes under their name.
///
/// Fails at the first input or output that has no tensor, with the name of
/// the operator and of the tensor, or at the first attribute that cannot be
/// read.
#[verifier::loop_isolation(false)]
pub fn build_op(
    name: String,
    pbnode: &NodeProto,
    initializers: &mut Table<Tensor>,
    value_infos: &Table<Tensor>,
) -> (r: Result<Operator, LoadError>)
    ensures
        match op_built(
            name@,
            *pbnode,
            tensor_views(old(initializers)@),
            tensor_views(value_infos@),
        ) {
            Ok(op) => r matches Ok(x) && x@ == op,
            Err(error) => r matches Err(e) && e@ == error,
        },
        tensor_views(final(initializers)@) == inits_left(
            *pbnode,
            tensor_views(old(initializers)@),
            tensor_views(value_infos@),
        ),
{
    let ghost inits = tensor_views(initializers@);
    let ghost infos = tensor_views(value_infos@);
    let ghost inputs = names_of(pbnode.input@);
    let ghost outputs = names_of(pbnode.output@);
    let ghost start = OperatorView::bare(name@, pbnode.op_type@);
    let mut op = Operator::new(name.as_str(), pbnode.op_type.as_str());
    let n = pbnode.input.len();
    let mut i: usize = 0;
    proof {
        assert(inputs.take(0) =~= Seq::<Seq<char>>::empty());
        assert(drained(inits, inputs.take(0)) =~= inits);
    }
    while i < n
        invariant
            n == pbnode.input@.len(),
            i <= n,
            inputs == names_of(pbnode.input@),
            infos == tensor_views(value_infos@),
            op@.name == name@,
            tensor_views(initializers@) == drained(inits, inputs.take(i as int)),
            scan_inputs(start, inputs, 0, inits, infos) == scan_inputs(
                op@,
                inputs,
                i as int,
                inits,
                infos,
            ),
            inputs_resolved(inputs, 0, inits, infos) == inputs_resolved(
                inputs,
                i as int,
                inits,
                infos,
            ),
        decreases n - i,
    {
        let iname = &pbnode.input[i];
        let tag = decimal_text(i as u64);
        let ghost held = initializers@;
        proof {
            lemma_drained_step(inits, inputs, i as int);
            assert(inputs[i as int] == iname@);
        }
        match initializers.remove(iname.as_str()) {
            Some(tensor) => {
                proof {
                    assert(tensor_views(initializers@) =~= tensor_views(held).remove(iname@));
                }
                op.set_input(tag.as_str(), tensor);
            },
            None => {
                proof {
                    assert(tensor_views(initializers@) =~= tensor_views(held).remove(iname@));
                }
                match value_infos.get(iname.as_str()) {
                    Some(iv) => {
                        op.set_input(tag.as_str(), iv.clone());
                    },
                    None => {
                        return Err(
                            LoadError::UnresolvedInput { operator: name, tensor: iname.clone() },
                        );
                    },
                }
            },
        }
        i = i + 1;
    }
    let ghost with_inputs = op@;
    let n = pbnode.output.len();
    let mut i: usize = 0;
    while i < n
        invariant
            n == pbnode.output@.len(),
            i <= n,
            outputs == names_of(pbnode.output@),
            infos == tensor_views(value_infos@),
            op@.name == name@,
            scan_outputs(with_inputs, outputs, 0, infos) == scan_outputs(
                op@,
                outputs,
                i as int,
                infos,
            ),
        decreases n - i,
    {
        let oname = &pbnode.output[i];
        let tag = decimal_text(i as u64);
        proof {
            assert(outputs[i as int] == oname@);
        }
        match value_infos.get(oname.as_str()) {
            Some(ov) => {
                op.set_output(tag.as_str(), ov.clone());
            },
            None => {
                return Err(LoadError::UnresolvedOutput { operator: name, tensor: oname.clone() });
            },
        }
        i = i + 1;
    }
    let ghost with_outputs = op@;
    let n = pbnode.attribute.len();
    let mut i: usize = 0;
    while i < n
        invariant
            n == pbnode.attribute@.len(),
            i <= n,
            scan_attributes(with_outputs, pbnode.attribute@, 0) == scan_attributes(
                op@,
                pbnode.attribute@,
                i as int,
            ),
        decreases n - i,
    {
        let a = &pbnode.attribute[i];
        let attr = trans_attr(a)?;
        op.set_attribute(a.name.as_str(), attr);
        i = i + 1;
    }
    Ok(op)
}

} // verus!
